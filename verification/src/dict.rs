//! A string-keyed map kept as parallel key and value vectors, with a
//! `Map<Seq<char>, _>` view. Properties, the virtual file system and
//! project node tables are all stored this way.

use vstd::prelude::*;

verus! {

/// The map described by parallel key and value sequences; on a repeated
/// key the later entry wins.
pub open spec fn assoc_map<K, T>(keys: Seq<K>, vals: Seq<T>) -> Map<K, T>
    decreases keys.len(),
{
    if keys.len() == 0 || vals.len() == 0 {
        Map::empty()
    } else {
        assoc_map(keys.drop_last(), vals.drop_last()).insert(keys.last(), vals.last())
    }
}

/// No key occurs twice.
pub open spec fn distinct_keys<K>(keys: Seq<K>) -> bool {
    forall|i: int, j: int| 0 <= i < j < keys.len() ==> keys[i] != keys[j]
}

pub proof fn lemma_assoc_contains<K, T>(keys: Seq<K>, vals: Seq<T>, k: K)
    requires
        keys.len() == vals.len(),
    ensures
        assoc_map(keys, vals).contains_key(k) <==> keys.contains(k),
    decreases keys.len(),
{
    if keys.len() > 0 {
        lemma_assoc_contains(keys.drop_last(), vals.drop_last(), k);
        if k == keys.last() {
            assert(keys[keys.len() - 1] == k);
            assert(keys.contains(k));
        } else {
            if keys.contains(k) {
                let i = choose|i: int| 0 <= i < keys.len() && keys[i] == k;
                assert(keys.drop_last()[i] == k);
                assert(keys.drop_last().contains(k));
            }
            if keys.drop_last().contains(k) {
                let i = choose|i: int|
                    0 <= i < keys.drop_last().len() && keys.drop_last()[i] == k;
                assert(keys[i] == k);
                assert(keys.contains(k));
            }
        }
    }
}

pub proof fn lemma_assoc_index<K, T>(keys: Seq<K>, vals: Seq<T>, i: int)
    requires
        keys.len() == vals.len(),
        distinct_keys(keys),
        0 <= i < keys.len(),
    ensures
        assoc_map(keys, vals).contains_key(keys[i]),
        assoc_map(keys, vals)[keys[i]] == vals[i],
    decreases keys.len(),
{
    if i == keys.len() - 1 {
    } else {
        assert(keys.last() != keys[i]);
        assert(keys.drop_last()[i] == keys[i]);
        lemma_assoc_index(keys.drop_last(), vals.drop_last(), i);
    }
}

pub proof fn lemma_assoc_update<K, T>(keys: Seq<K>, vals: Seq<T>, i: int, v: T)
    requires
        keys.len() == vals.len(),
        distinct_keys(keys),
        0 <= i < keys.len(),
    ensures
        assoc_map(keys, vals.update(i, v)) == assoc_map(keys, vals).insert(keys[i], v),
    decreases keys.len(),
{
    if i == keys.len() - 1 {
        assert(vals.update(i, v).drop_last() =~= vals.drop_last());
        assert(assoc_map(keys, vals.update(i, v)) =~= assoc_map(keys, vals).insert(
            keys[i],
            v,
        ));
    } else {
        assert(vals.update(i, v).drop_last() =~= vals.drop_last().update(i, v));
        assert(keys.drop_last()[i] == keys[i]);
        lemma_assoc_update(keys.drop_last(), vals.drop_last(), i, v);
        assert(keys.last() != keys[i]);
        assert(assoc_map(keys, vals.update(i, v)) =~= assoc_map(keys, vals).insert(
            keys[i],
            v,
        ));
    }
}

pub proof fn lemma_assoc_remove<K, T>(keys: Seq<K>, vals: Seq<T>, i: int)
    requires
        keys.len() == vals.len(),
        distinct_keys(keys),
        0 <= i < keys.len(),
    ensures
        assoc_map(keys.remove(i), vals.remove(i)) == assoc_map(keys, vals).remove(keys[i]),
    decreases keys.len(),
{
    if i == keys.len() - 1 {
        assert(keys.remove(i) =~= keys.drop_last());
        assert(vals.remove(i) =~= vals.drop_last());
        lemma_assoc_contains(keys.drop_last(), vals.drop_last(), keys[i]);
        assert(!keys.drop_last().contains(keys[i]));
        assert(assoc_map(keys.remove(i), vals.remove(i)) =~= assoc_map(keys, vals).remove(
            keys[i],
        ));
    } else {
        assert(keys.remove(i).drop_last() =~= keys.drop_last().remove(i));
        assert(vals.remove(i).drop_last() =~= vals.drop_last().remove(i));
        assert(keys.remove(i).last() == keys.last());
        assert(vals.remove(i).last() == vals.last());
        assert(keys.drop_last()[i] == keys[i]);
        lemma_assoc_remove(keys.drop_last(), vals.drop_last(), i);
        assert(keys.last() != keys[i]);
        assert(assoc_map(keys.remove(i), vals.remove(i)) =~= assoc_map(keys, vals).remove(
            keys[i],
        ));
    }
}

pub proof fn lemma_assoc_insert_front<K, T>(keys: Seq<K>, vals: Seq<T>, k: K, v: T)
    requires
        keys.len() == vals.len(),
        !keys.contains(k),
    ensures
        assoc_map(seq![k] + keys, seq![v] + vals) == assoc_map(keys, vals).insert(k, v),
    decreases keys.len(),
{
    if keys.len() == 0 {
        assert((seq![k] + keys).drop_last() =~= Seq::<K>::empty());
        assert((seq![v] + vals).drop_last() =~= Seq::<T>::empty());
        assert((seq![k] + keys).last() == k);
        assert((seq![v] + vals).last() == v);
        assert(assoc_map(Seq::<K>::empty(), Seq::<T>::empty()) == Map::<K, T>::empty());
        assert(assoc_map(seq![k] + keys, seq![v] + vals) == assoc_map(
            (seq![k] + keys).drop_last(),
            (seq![v] + vals).drop_last(),
        ).insert(k, v));
        assert(assoc_map(seq![k] + keys, seq![v] + vals) =~= assoc_map(keys, vals).insert(
            k,
            v,
        ));
    } else {
        assert((seq![k] + keys).drop_last() =~= seq![k] + keys.drop_last());
        assert((seq![v] + vals).drop_last() =~= seq![v] + vals.drop_last());
        assert((seq![k] + keys).last() == keys.last());
        assert((seq![v] + vals).last() == vals.last());
        if keys.drop_last().contains(k) {
            let i = choose|i: int|
                0 <= i < keys.drop_last().len() && keys.drop_last()[i] == k;
            assert(keys[i] == k);
            assert(keys.contains(k));
        }
        lemma_assoc_insert_front(keys.drop_last(), vals.drop_last(), k, v);
        assert(k != keys.last()) by {
            assert(keys[keys.len() - 1] == keys.last());
        }
        assert(assoc_map(seq![k] + keys, seq![v] + vals) =~= assoc_map(keys, vals).insert(
            k,
            v,
        ));
    }
}

/// The key set of an association map is finite.
pub proof fn lemma_assoc_dom_finite<K, T>(keys: Seq<K>, vals: Seq<T>)
    ensures
        assoc_map(keys, vals).dom().finite(),
    decreases keys.len(),
{
    if keys.len() == 0 || vals.len() == 0 {
        assert(assoc_map(keys, vals).dom() =~= Set::<K>::empty());
    } else {
        lemma_assoc_dom_finite(keys.drop_last(), vals.drop_last());
    }
}

/// A map from strings to values, with at most one entry per key.
pub struct Dict<V> {
    pub keys: Vec<String>,
    pub vals: Vec<V>,
}

impl<V: View> View for Dict<V> {
    type V = Map<Seq<char>, <V as View>::V>;

    open spec fn view(&self) -> Map<Seq<char>, <V as View>::V> {
        assoc_map(self.kseq(), self.vseq())
    }
}

impl<V: View> Dict<V> {
    /// The key views, in storage order.
    pub open spec fn kseq(&self) -> Seq<Seq<char>> {
        self.keys@.map_values(|k: String| k@)
    }

    /// The value views, in storage order.
    pub open spec fn vseq(&self) -> Seq<<V as View>::V> {
        self.vals@.map_values(|v: V| v@)
    }

    /// Keys and values line up and no key occurs twice.
    pub open spec fn wf(&self) -> bool {
        &&& self.keys@.len() == self.vals@.len()
        &&& distinct_keys(self.kseq())
    }

    pub fn new() -> (r: Dict<V>)
        ensures
            r.wf(),
            r@ == Map::<Seq<char>, <V as View>::V>::empty(),
            r.keys@.len() == 0,
    {
        let r = Dict { keys: Vec::new(), vals: Vec::new() };
        proof {
            assert(r.kseq() =~= Seq::<Seq<char>>::empty());
        }
        r
    }

    pub fn len(&self) -> (r: usize)
        ensures
            r == self.keys@.len(),
    {
        self.keys.len()
    }

    /// The storage index of `k`, when present.
    pub fn position_of(&self, k: &str) -> (r: Option<usize>)
        requires
            self.wf(),
        ensures
            match r {
                Some(i) => i < self.keys@.len() && self.kseq()[i as int] == k@,
                None => !self.kseq().contains(k@),
            },
    {
        let n = self.keys.len();
        let mut i: usize = 0;
        while i < n
            invariant
                i <= n,
                n == self.keys@.len(),
                forall|j: int| 0 <= j < i ==> self.kseq()[j] != k@,
            decreases n - i,
        {
            if crate::text::str_eq(self.keys[i].as_str(), k) {
                return Some(i);
            }
            i += 1;
        }
        proof {
            if self.kseq().contains(k@) {
                let j = choose|j: int| 0 <= j < self.kseq().len() && self.kseq()[j] == k@;
                assert(self.kseq()[j] != k@);
            }
        }
        None
    }

    pub fn contains_key(&self, k: &str) -> (r: bool)
        requires
            self.wf(),
        ensures
            r == self@.contains_key(k@),
    {
        proof {
            lemma_assoc_contains(self.kseq(), self.vseq(), k@);
        }
        match self.position_of(k) {
            Some(i) => {
                proof {
                    assert(self.kseq().contains(k@));
                }
                true
            },
            None => false,
        }
    }

    pub fn get(&self, k: &str) -> (r: Option<&V>)
        requires
            self.wf(),
        ensures
            match r {
                Some(v) => self@.contains_key(k@) && v@ == self@[k@] && exists|i: int|
                    0 <= i < self.vals@.len() && *v == self.vals@[i],
                None => !self@.contains_key(k@),
            },
    {
        proof {
            lemma_assoc_contains(self.kseq(), self.vseq(), k@);
        }
        match self.position_of(k) {
            Some(i) => {
                proof {
                    assert(self.kseq().contains(k@));
                    lemma_assoc_index(self.kseq(), self.vseq(), i as int);
                }
                let v = &self.vals[i];
                proof {
                    assert(*v == self.vals@[i as int]);
                }
                Some(v)
            },
            None => None,
        }
    }

    pub fn insert(&mut self, k: &str, v: V)
        requires
            old(self).wf(),
        ensures
            final(self).wf(),
            final(self)@ == old(self)@.insert(k@, v@),
            final(self).kseq() == if old(self)@.contains_key(k@) {
                old(self).kseq()
            } else {
                old(self).kseq().push(k@)
            },
            forall|j: int|
                0 <= j < final(self).vals@.len() ==> old(self).vals@.contains(
                    final(self).vals@[j],
                ) || final(self).vals@[j] == v,
    {
        proof {
            lemma_assoc_contains(self.kseq(), self.vseq(), k@);
        }
        match self.position_of(k) {
            Some(i) => {
                proof {
                    assert(self.kseq().contains(k@));
                    lemma_assoc_update(self.kseq(), self.vseq(), i as int, v@);
                }
                self.vals.set(i, v);
                proof {
                    assert(final(self).kseq() =~= old(self).kseq());
                    assert(final(self).vseq() =~= old(self).vseq().update(i as int, v@));
                    assert(old(self).kseq()[i as int] == k@);
                    assert(forall|j: int|
                        0 <= j < final(self).vals@.len() && j != i ==> old(
                            self,
                        ).vals@.contains(#[trigger] final(self).vals@[j]));
                }
            },
            None => {
                self.keys.push(k.to_owned());
                self.vals.push(v);
                proof {
                    assert(final(self).kseq() =~= old(self).kseq().push(k@));
                    assert(final(self).vseq() =~= old(self).vseq().push(v@));
                    assert(final(self).kseq().drop_last() =~= old(self).kseq());
                    assert(final(self).vseq().drop_last() =~= old(self).vseq());
                    assert(forall|i: int, j: int|
                        0 <= i < j < final(self).kseq().len() ==> final(self).kseq()[i]
                            != final(self).kseq()[j]);
                    assert(forall|j: int|
                        0 <= j < final(self).vals@.len() && j != old(self).vals@.len()
                            ==> old(self).vals@.contains(#[trigger] final(self).vals@[j]));
                }
            },
        }
    }

    pub fn remove(&mut self, k: &str) -> (r: Option<V>)
        requires
            old(self).wf(),
        ensures
            final(self).wf(),
            final(self)@ == old(self)@.remove(k@),
            match r {
                Some(v) => old(self)@.contains_key(k@) && v@ == old(self)@[k@],
                None => !old(self)@.contains_key(k@),
            },
    {
        proof {
            lemma_assoc_contains(self.kseq(), self.vseq(), k@);
        }
        match self.position_of(k) {
            Some(i) => {
                proof {
                    assert(self.kseq().contains(k@));
                    lemma_assoc_index(self.kseq(), self.vseq(), i as int);
                    lemma_assoc_remove(self.kseq(), self.vseq(), i as int);
                }
                self.keys.remove(i);
                let v = self.vals.remove(i);
                proof {
                    assert(final(self).kseq() =~= old(self).kseq().remove(i as int));
                    assert(final(self).vseq() =~= old(self).vseq().remove(i as int));
                    assert(forall|a: int, b: int|
                        0 <= a < b < final(self).kseq().len() ==> final(self).kseq()[a]
                            != final(self).kseq()[b]) by {
                        assert(forall|a: int|
                            0 <= a < final(self).kseq().len() ==> exists|c: int|
                                0 <= c < old(self).kseq().len() && old(self).kseq()[c]
                                    == #[trigger] final(self).kseq()[a]);
                    }
                }
                Some(v)
            },
            None => {
                proof {
                    assert(final(self)@ =~= old(self)@.remove(k@));
                }
                None
            },
        }
    }

    /// Whether some stored key is `prefix` or lies below it.
    pub fn any_key_under(&self, prefix: &str) -> (r: bool)
        requires
            self.wf(),
        ensures
            r == (exists|k: Seq<char>|
                #[trigger] self@.contains_key(k) && crate::text::under(prefix@, k)),
    {
        let n = self.keys.len();
        let mut i: usize = 0;
        while i < n
            invariant
                i <= n,
                n == self.keys@.len(),
                self.wf(),
                forall|j: int|
                    0 <= j < i ==> !crate::text::under(
                        prefix@,
                        #[trigger] self.kseq()[j],
                    ),
            decreases n - i,
        {
            proof {
                assert(self.kseq()[i as int] == self.keys@[i as int]@);
            }
            if crate::text::is_under(self.keys[i].as_str(), prefix) {
                proof {
                    lemma_assoc_index(self.kseq(), self.vseq(), i as int);
                    assert(self@.contains_key(self.kseq()[i as int])
                        && crate::text::under(prefix@, self.kseq()[i as int]));
                }
                return true;
            }
            i += 1;
        }
        proof {
            if exists|k: Seq<char>|
                #[trigger] self@.contains_key(k) && crate::text::under(prefix@, k) {
                let k = choose|k: Seq<char>|
                    #[trigger] self@.contains_key(k) && crate::text::under(prefix@, k);
                lemma_assoc_contains(self.kseq(), self.vseq(), k);
                let j = choose|j: int|
                    0 <= j < self.kseq().len() && #[trigger] self.kseq()[j] == k;
                assert(!crate::text::under(prefix@, self.kseq()[j]));
            }
        }
        false
    }

    /// The stored key at storage index `i`.
    pub fn key_at(&self, i: usize) -> (r: &str)
        requires
            self.wf(),
            i < self.keys@.len(),
        ensures
            r@ == self.kseq()[i as int],
            self@.contains_key(r@),
            self@[r@] == self.vseq()[i as int],
    {
        proof {
            lemma_assoc_index(self.kseq(), self.vseq(), i as int);
        }
        self.keys[i].as_str()
    }

    /// The stored value at storage index `i`.
    pub fn val_at(&self, i: usize) -> (r: &V)
        requires
            self.wf(),
            i < self.vals@.len(),
        ensures
            r@ == self.vseq()[i as int],
            self@[self.kseq()[i as int]] == r@,
            *r == self.vals@[i as int],
    {
        proof {
            lemma_assoc_index(self.kseq(), self.vseq(), i as int);
        }
        &self.vals[i]
    }
}

/// Splits `d` into the entries whose keys lie outside `prefix` and the
/// entries at or below it, in that order.
#[verifier::loop_isolation(false)]
pub fn partition_under<V: View>(d: Dict<V>, prefix: &str) -> (r: (Dict<V>, Dict<V>))
    requires
        d.wf(),
    ensures
        r.0.wf(),
        r.1.wf(),
        forall|k: Seq<char>|
            #[trigger] r.0@.contains_key(k) <==> d@.contains_key(k) && !crate::text::under(
                prefix@,
                k,
            ),
        forall|k: Seq<char>| #[trigger] r.0@.contains_key(k) ==> r.0@[k] == d@[k],
        forall|k: Seq<char>|
            #[trigger] r.1@.contains_key(k) <==> d@.contains_key(k) && crate::text::under(
                prefix@,
                k,
            ),
        forall|k: Seq<char>| #[trigger] r.1@.contains_key(k) ==> r.1@[k] == d@[k],
        forall|j: int| 0 <= j < r.0.vals@.len() ==> d.vals@.contains(r.0.vals@[j]),
        forall|j: int| 0 <= j < r.1.vals@.len() ==> d.vals@.contains(r.1.vals@[j]),
{
    let ghost gk = d.kseq();
    let ghost gv = d.vseq();
    let ghost ge = d.vals@;
    let ghost gm = d@;
    let mut src = d;
    let mut kept: Dict<V> = Dict::new();
    let mut moved: Dict<V> = Dict::new();
    while src.keys.len() > 0
        invariant
            src.keys@.len() == src.vals@.len(),
            src.keys@.len() <= gk.len(),
            gk.len() == gv.len(),
            gk.len() == ge.len(),
            distinct_keys(gk),
            src.kseq() == gk.take(src.keys@.len() as int),
            src.vseq() == gv.take(src.keys@.len() as int),
            src.vals@ == ge.take(src.keys@.len() as int),
            gm == assoc_map(gk, gv),
            kept.wf(),
            moved.wf(),
            forall|j: int|
                src.keys@.len() <= j < gk.len() && !crate::text::under(prefix@, gk[j])
                    ==> kept@.contains_key(#[trigger] gk[j]) && kept@[gk[j]] == gv[j],
            forall|j: int|
                src.keys@.len() <= j < gk.len() && crate::text::under(prefix@, gk[j])
                    ==> moved@.contains_key(#[trigger] gk[j]) && moved@[gk[j]] == gv[j],
            forall|k: Seq<char>|
                #[trigger] kept@.contains_key(k) ==> !crate::text::under(prefix@, k)
                    && gm.contains_key(k) && kept@[k] == gm[k],
            forall|k: Seq<char>|
                #[trigger] moved@.contains_key(k) ==> crate::text::under(prefix@, k)
                    && gm.contains_key(k) && moved@[k] == gm[k],
            forall|j: int| 0 <= j < kept.vals@.len() ==> ge.contains(kept.vals@[j]),
            forall|j: int| 0 <= j < moved.vals@.len() ==> ge.contains(moved.vals@[j]),
        decreases src.keys@.len(),
    {
        let ghost i = src.keys@.len() as int - 1;
        proof {
            assert(src.kseq()[i] == src.keys@[i]@);
            assert(src.vseq()[i] == src.vals@[i]@);
            assert(src.kseq()[i] == gk.take(i + 1)[i]);
            assert(src.vseq()[i] == gv.take(i + 1)[i]);
            assert(src.vals@[i] == ge.take(i + 1)[i]);
        }
        let k = src.keys.pop().unwrap();
        let v = src.vals.pop().unwrap();
        proof {
            assert(k@ == gk[i]);
            assert(v@ == gv[i]);
            assert(v == ge[i]);
            assert(ge.contains(ge[i]));
            assert(src.kseq() =~= gk.take(i));
            assert(src.vseq() =~= gv.take(i));
            assert(src.vals@ =~= ge.take(i));
            lemma_assoc_index(gk, gv, i);
        }
        proof {
            assert(gm == assoc_map(gk, gv));
            assert(gm.contains_key(gk[i]));
            assert(gm[gk[i]] == gv[i]);
        }
        if crate::text::is_under(k.as_str(), prefix) {
            moved.insert(k.as_str(), v);
        } else {
            kept.insert(k.as_str(), v);
        }
    }
    proof {
        assert(gm == d@);
        assert forall|k: Seq<char>|
            (#[trigger] kept@.contains_key(k) <==> gm.contains_key(k)
                && !crate::text::under(prefix@, k)) && (kept@.contains_key(k)
                ==> kept@[k] == gm[k]) by {
            if gm.contains_key(k) && !crate::text::under(prefix@, k) {
                lemma_assoc_contains(gk, gv, k);
                let j = choose|j: int| 0 <= j < gk.len() && gk[j] == k;
                lemma_assoc_index(gk, gv, j);
                assert(kept@.contains_key(gk[j]));
            }
        };
        assert forall|k: Seq<char>|
            (#[trigger] moved@.contains_key(k) <==> gm.contains_key(k)
                && crate::text::under(prefix@, k)) && (moved@.contains_key(k)
                ==> moved@[k] == gm[k]) by {
            if gm.contains_key(k) && crate::text::under(prefix@, k) {
                lemma_assoc_contains(gk, gv, k);
                let j = choose|j: int| 0 <= j < gk.len() && gk[j] == k;
                lemma_assoc_index(gk, gv, j);
                assert(moved@.contains_key(gk[j]));
            }
        };
    }
    (kept, moved)
}

/// Moves every entry of `d`, all of whose keys lie at or below `from`,
/// to the same place below `to`.
#[verifier::loop_isolation(false)]
pub fn rekey_under<V: View>(d: Dict<V>, from: &str, to: &str) -> (r: Dict<V>)
    requires
        d.wf(),
        forall|k: Seq<char>| d@.contains_key(k) ==> crate::text::under(from@, k),
    ensures
        r.wf(),
        forall|k: Seq<char>|
            #[trigger] d@.contains_key(k) ==> r@.contains_key(
                to@ + k.skip(from@.len() as int),
            ) && r@[to@ + k.skip(from@.len() as int)] == d@[k],
        forall|k2: Seq<char>|
            #[trigger] r@.contains_key(k2) ==> crate::text::under(to@, k2)
                && d@.contains_key(from@ + k2.skip(to@.len() as int)) && r@[k2] == d@[
                from@ + k2.skip(to@.len() as int)
            ],
        forall|j: int| 0 <= j < r.vals@.len() ==> d.vals@.contains(r.vals@[j]),
{
    let ghost gk = d.kseq();
    let ghost gv = d.vseq();
    let ghost ge = d.vals@;
    proof {
        assert forall|j: int| 0 <= j < gk.len() implies crate::text::under(from@, gk[j])
            && gk[j] == from@ + gk[j].skip(from@.len() as int) by {
            lemma_assoc_index(gk, gv, j);
            crate::text::lemma_under_decomp(from@, gk[j]);
        };
    }
    let ghost gm = d@;
    let fl = from.unicode_len();
    let mut src = d;
    let mut out: Dict<V> = Dict::new();
    while src.keys.len() > 0
        invariant
            src.keys@.len() == src.vals@.len(),
            src.keys@.len() <= gk.len(),
            gk.len() == gv.len(),
            gk.len() == ge.len(),
            distinct_keys(gk),
            fl == from@.len(),
            src.kseq() == gk.take(src.keys@.len() as int),
            src.vseq() == gv.take(src.keys@.len() as int),
            src.vals@ == ge.take(src.keys@.len() as int),
            gm == assoc_map(gk, gv),
            forall|j: int|
                0 <= j < gk.len() ==> crate::text::under(from@, #[trigger] gk[j]) && gk[j]
                    == from@ + gk[j].skip(from@.len() as int),
            out.wf(),
            forall|j: int|
                src.keys@.len() <= j < gk.len() ==> out@.contains_key(
                    to@ + #[trigger] gk[j].skip(from@.len() as int),
                ) && out@[to@ + gk[j].skip(from@.len() as int)] == gv[j],
            forall|k2: Seq<char>|
                #[trigger] out@.contains_key(k2) ==> crate::text::under(to@, k2)
                    && gm.contains_key(from@ + k2.skip(to@.len() as int)) && out@[k2]
                    == gm[from@ + k2.skip(to@.len() as int)],
            forall|j: int| 0 <= j < out.vals@.len() ==> ge.contains(out.vals@[j]),
        decreases src.keys@.len(),
    {
        let ghost i = src.keys@.len() as int - 1;
        proof {
            assert(src.kseq()[i] == src.keys@[i]@);
            assert(src.vseq()[i] == src.vals@[i]@);
            assert(src.kseq()[i] == gk.take(i + 1)[i]);
            assert(src.vseq()[i] == gv.take(i + 1)[i]);
            assert(src.vals@[i] == ge.take(i + 1)[i]);
        }
        let k = src.keys.pop().unwrap();
        let v = src.vals.pop().unwrap();
        proof {
            assert(k@ == gk[i]);
            assert(v@ == gv[i]);
            assert(v == ge[i]);
            assert(ge.contains(ge[i]));
            assert(src.kseq() =~= gk.take(i));
            assert(src.vseq() =~= gv.take(i));
            assert(src.vals@ =~= ge.take(i));
        }
        let kl = k.as_str().unicode_len();
        proof {
            crate::text::lemma_under_decomp(from@, k@);
        }
        let suffix = k.as_str().substring_char(fl, kl);
        let nk = to.to_owned().concat(suffix);
        proof {
            lemma_assoc_index(gk, gv, i);
            assert(suffix@ =~= gk[i].skip(from@.len() as int));
            assert(nk@ == to@ + gk[i].skip(from@.len() as int));
            assert(crate::text::under(to@, nk@)) by {
                if gk[i] == from@ {
                    assert(gk[i].skip(from@.len() as int) =~= Seq::<char>::empty());
                    assert(nk@ =~= to@);
                } else {
                    assert(crate::text::is_prefix_of(from@ + seq!['/'], gk[i]));
                    assert((from@ + seq!['/']).len() == from@.len() + 1);
                    assert(gk[i].subrange(0, from@.len() as int + 1)[from@.len() as int]
                        == (from@ + seq!['/'])[from@.len() as int]);
                    assert((from@ + seq!['/'])[from@.len() as int] == '/');
                    assert(gk[i][from@.len() as int] == '/');
                    assert(gk[i].skip(from@.len() as int)[0] == '/');
                    assert(gk[i].skip(from@.len() as int).len() >= 1);
                    assert(nk@.len() >= to@.len() + 1);
                    assert(nk@.subrange(0, to@.len() as int + 1) =~= to@ + seq!['/']);
                    assert(crate::text::is_prefix_of(to@ + seq!['/'], nk@));
                }
            }
            assert forall|j: int| i < j < gk.len() implies to@ + gk[j].skip(
                from@.len() as int,
            ) != nk@ by {
                if to@ + gk[j].skip(from@.len() as int) == nk@ {
                    assert(gk[j].skip(from@.len() as int) =~= gk[i].skip(
                        from@.len() as int,
                    )) by {
                        assert((to@ + gk[j].skip(from@.len() as int)).skip(
                            to@.len() as int,
                        ) =~= gk[j].skip(from@.len() as int));
                        assert(nk@.skip(to@.len() as int) =~= gk[i].skip(
                            from@.len() as int,
                        ));
                    }
                    assert(gk[j] == gk[i]);
                }
            };
        }
        proof {
            assert(from@ + nk@.skip(to@.len() as int) =~= gk[i]) by {
                assert(nk@.skip(to@.len() as int) =~= gk[i].skip(from@.len() as int));
                crate::text::lemma_under_decomp(from@, gk[i]);
            }
        }
        out.insert(nk.as_str(), v);
    }
    proof {
        assert(gm == d@);
        assert forall|k2: Seq<char>| #[trigger] out@.contains_key(k2) implies
            crate::text::under(to@, k2) && gm.contains_key(
            from@ + k2.skip(to@.len() as int),
        ) && out@[k2] == gm[from@ + k2.skip(to@.len() as int)] by {
        };
        assert forall|k: Seq<char>| #[trigger] d@.contains_key(k) implies out@.contains_key(
            to@ + k.skip(from@.len() as int),
        ) && out@[to@ + k.skip(from@.len() as int)] == d@[k] by {
            lemma_assoc_contains(gk, gv, k);
            let j = choose|j: int| 0 <= j < gk.len() && gk[j] == k;
            lemma_assoc_index(gk, gv, j);
        };
    }
    out
}

/// Moves every entry whose key is `from` or lies below it to the same
/// place below `to`, and keeps every other entry where it was.
#[verifier::loop_isolation(false)]
pub fn rename_prefix<V: View>(d: Dict<V>, from: &str, to: &str) -> (r: Dict<V>)
    requires
        d.wf(),
        forall|k: Seq<char>| d@.contains_key(k) ==> !crate::text::under(to@, k),
    ensures
        r.wf(),
        forall|k: Seq<char>|
            #[trigger] r@.contains_key(k) <==> ((d@.contains_key(k) && !crate::text::under(
                from@,
                k,
            )) || (crate::text::under(to@, k) && d@.contains_key(
                from@ + k.skip(to@.len() as int),
            ))),
        forall|k: Seq<char>|
            #[trigger] r@.contains_key(k) && !crate::text::under(to@, k) ==> r@[k] == d@[k],
        forall|k: Seq<char>|
            #[trigger] r@.contains_key(k) && crate::text::under(to@, k) ==> r@[k] == d@[
                from@ + k.skip(to@.len() as int)
            ],
        forall|j: int| 0 <= j < r.vals@.len() ==> d.vals@.contains(r.vals@[j]),
{
    let ghost gm = d@;
    let ghost ge = d.vals@;
    let (kept, moved) = partition_under(d, from);
    let rekeyed = rekey_under(moved, from, to);
    let merged = absorb(kept, rekeyed);
    proof {
        assert(forall|j: int|
            0 <= j < merged.vals@.len() ==> ge.contains(#[trigger] merged.vals@[j])) by {
            assert(forall|j: int|
                0 <= j < rekeyed.vals@.len() ==> moved.vals@.contains(
                    #[trigger] rekeyed.vals@[j],
                ));
        }
        assert(forall|k: Seq<char>|
            #[trigger] merged@.contains_key(k) <==> kept@.contains_key(k)
                || rekeyed@.contains_key(k));
        assert forall|k: Seq<char>|
            #[trigger] merged@.contains_key(k) <==> ((gm.contains_key(k)
                && !crate::text::under(from@, k)) || (crate::text::under(to@, k)
                && gm.contains_key(from@ + k.skip(to@.len() as int)))) by {
            if merged@.contains_key(k) && rekeyed@.contains_key(k) {
                assert(crate::text::under(to@, k));
                assert(gm.contains_key(from@ + k.skip(to@.len() as int)));
            }
            if crate::text::under(to@, k) && gm.contains_key(
                from@ + k.skip(to@.len() as int),
            ) {
                let k0 = from@ + k.skip(to@.len() as int);
                crate::text::lemma_under_decomp(to@, k);
                assert(crate::text::under(from@, k0)) by {
                    if k == to@ {
                        assert(k.skip(to@.len() as int) =~= Seq::<char>::empty());
                        assert(k0 =~= from@);
                    } else {
                        assert(crate::text::is_prefix_of(to@ + seq!['/'], k));
                        assert(k.subrange(0, to@.len() as int + 1)[to@.len() as int] == (
                        to@ + seq!['/'])[to@.len() as int]);
                        assert(k[to@.len() as int] == '/');
                        assert(k.skip(to@.len() as int)[0] == '/');
                        assert(k0.subrange(0, from@.len() as int + 1) =~= from@
                            + seq!['/']);
                        assert(crate::text::is_prefix_of(from@ + seq!['/'], k0));
                    }
                }
                assert(moved@.contains_key(k0));
                assert(rekeyed@.contains_key(to@ + k0.skip(from@.len() as int)));
                assert(to@ + k0.skip(from@.len() as int) =~= k) by {
                    assert(k0.skip(from@.len() as int) =~= k.skip(to@.len() as int));
                }
                assert(merged@.contains_key(k));
            }
        };
        assert forall|k: Seq<char>|
            #[trigger] merged@.contains_key(k) && !crate::text::under(to@, k) implies
            merged@[k] == gm[k] by {
            assert(!rekeyed@.contains_key(k));
            assert(kept@.contains_key(k));
            assert(merged@[k] == kept@[k]);
        };
        assert forall|k: Seq<char>|
            #[trigger] merged@.contains_key(k) && crate::text::under(to@, k) implies
            merged@[k] == gm[from@ + k.skip(to@.len() as int)] by {
            if kept@.contains_key(k) {
                assert(gm.contains_key(k));
                assert(!crate::text::under(to@, k));
            }
            assert(rekeyed@.contains_key(k));
            assert(merged@[k] == rekeyed@[k]);
        };
    }
    merged
}

/// All entries of `a` and `b` together; on a shared key `b` wins.
#[verifier::loop_isolation(false)]
pub fn absorb<V: View>(a: Dict<V>, b: Dict<V>) -> (r: Dict<V>)
    requires
        a.wf(),
        b.wf(),
    ensures
        r.wf(),
        r@ == a@.union_prefer_right(b@),
        forall|j: int|
            0 <= j < r.vals@.len() ==> a.vals@.contains(r.vals@[j]) || b.vals@.contains(
                r.vals@[j],
            ),
{
    let ghost gk = b.kseq();
    let ghost gv = b.vseq();
    let ghost ge = b.vals@;
    let mut out = a;
    let mut src = b;
    proof {
        assert(gk.skip(gk.len() as int) =~= Seq::<Seq<char>>::empty());
        assert(gv.skip(gv.len() as int) =~= Seq::<<V as View>::V>::empty());
        assert(out@.union_prefer_right(
            assoc_map(gk.skip(gk.len() as int), gv.skip(gv.len() as int)),
        ) =~= out@);
    }
    while src.keys.len() > 0
        invariant
            src.keys@.len() == src.vals@.len(),
            src.keys@.len() <= gk.len(),
            gk.len() == gv.len(),
            gk.len() == ge.len(),
            distinct_keys(gk),
            src.kseq() == gk.take(src.keys@.len() as int),
            src.vseq() == gv.take(src.keys@.len() as int),
            src.vals@ == ge.take(src.keys@.len() as int),
            out.wf(),
            out@ == a@.union_prefer_right(
                assoc_map(
                    gk.skip(src.keys@.len() as int),
                    gv.skip(src.keys@.len() as int),
                ),
            ),
            forall|j: int|
                0 <= j < out.vals@.len() ==> a.vals@.contains(out.vals@[j])
                    || ge.contains(out.vals@[j]),
        decreases src.keys@.len(),
    {
        let ghost i = src.keys@.len() as int - 1;
        proof {
            assert(src.kseq()[i] == src.keys@[i]@);
            assert(src.vseq()[i] == src.vals@[i]@);
            assert(src.kseq()[i] == gk.take(i + 1)[i]);
            assert(src.vseq()[i] == gv.take(i + 1)[i]);
            assert(src.vals@[i] == ge.take(i + 1)[i]);
        }
        let k = src.keys.pop().unwrap();
        let v = src.vals.pop().unwrap();
        proof {
            assert(k@ == gk[i]);
            assert(v@ == gv[i]);
            assert(v == ge[i]);
            assert(ge.contains(ge[i]));
            assert(src.kseq() =~= gk.take(i));
            assert(src.vseq() =~= gv.take(i));
            assert(src.vals@ =~= ge.take(i));
        }
        out.insert(k.as_str(), v);
        proof {
            assert(gk.skip(i) =~= seq![gk[i]] + gk.skip(i + 1));
            assert(gv.skip(i) =~= seq![gv[i]] + gv.skip(i + 1));
            if gk.skip(i + 1).contains(gk[i]) {
                let j = choose|j: int|
                    0 <= j < gk.skip(i + 1).len() && #[trigger] gk.skip(i + 1)[j] == gk[i];
                assert(gk[i + 1 + j] == gk[i]);
            }
            lemma_assoc_insert_front(gk.skip(i + 1), gv.skip(i + 1), gk[i], gv[i]);
            assert(out@ =~= a@.union_prefer_right(assoc_map(gk.skip(i), gv.skip(i))));
        }
    }
    proof {
        assert(gk.skip(0) =~= gk);
        assert(gv.skip(0) =~= gv);
    }
    out
}

} // verus!
