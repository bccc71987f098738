//! Property values and property maps of instances.

use vstd::prelude::*;

use crate::dict::Dict;

verus! {

/// A property value: text, truth value, whole number, or a value with
/// no plain form, carried untouched as its raw encoded text.
pub enum Value {
    Text(String),
    Truth(bool),
    Num(i64),
    Opaque(String),
}

/// The mathematical value of a `Value`.
pub enum ValueView {
    Text(Seq<char>),
    Truth(bool),
    Num(int),
    Opaque(Seq<char>),
}

impl View for Value {
    type V = ValueView;

    open spec fn view(&self) -> ValueView {
        match self {
            Value::Text(s) => ValueView::Text(s@),
            Value::Truth(b) => ValueView::Truth(*b),
            Value::Num(n) => ValueView::Num(*n as int),
            Value::Opaque(raw) => ValueView::Opaque(raw@),
        }
    }
}

impl Clone for Value {
    fn clone(&self) -> (r: Self)
        ensures
            r@ == self@,
    {
        match self {
            Value::Text(s) => Value::Text(s.clone()),
            Value::Truth(b) => Value::Truth(*b),
            Value::Num(n) => Value::Num(*n),
            Value::Opaque(raw) => Value::Opaque(raw.clone()),
        }
    }
}

/// The property map of an instance; insertion order carries no meaning.
pub type Properties = Dict<Value>;

/// A copy of `p` with the same entries.
pub fn clone_props(p: &Properties) -> (r: Properties)
    requires
        p.wf(),
    ensures
        r.wf(),
        r@ == p@,
{
    let n = p.len();
    let mut r = Dict::new();
    let mut i: usize = 0;
    proof {
        assert(crate::dict::assoc_map(p.kseq().take(0), p.vseq().take(0)) =~= Map::<
            Seq<char>,
            ValueView,
        >::empty());
    }
    while i < n
        invariant
            i <= n,
            n == p.keys@.len(),
            p.wf(),
            r.wf(),
            r@ == crate::dict::assoc_map(p.kseq().take(i as int), p.vseq().take(i as int)),
        decreases n - i,
    {
        let k = p.key_at(i);
        let v = p.val_at(i).clone();
        r.insert(k, v);
        proof {
            assert(p.kseq().take(i + 1).drop_last() =~= p.kseq().take(i as int));
            assert(p.vseq().take(i + 1).drop_last() =~= p.vseq().take(i as int));
        }
        i += 1;
    }
    proof {
        assert(p.kseq().take(n as int) =~= p.kseq());
        assert(p.vseq().take(n as int) =~= p.vseq());
    }
    r
}

/// Adds every entry of `other` to `p`; on a shared key `other` wins.
pub fn extend_props(p: &mut Properties, other: &Properties)
    requires
        old(p).wf(),
        other.wf(),
    ensures
        final(p).wf(),
        final(p)@ == old(p)@.union_prefer_right(other@),
{
    let n = other.len();
    let mut i: usize = 0;
    proof {
        assert(p@.union_prefer_right(
            crate::dict::assoc_map(other.kseq().take(0), other.vseq().take(0)),
        ) =~= p@);
    }
    while i < n
        invariant
            i <= n,
            n == other.keys@.len(),
            other.wf(),
            p.wf(),
            p@ == old(p)@.union_prefer_right(
                crate::dict::assoc_map(
                    other.kseq().take(i as int),
                    other.vseq().take(i as int),
                ),
            ),
        decreases n - i,
    {
        let k = other.key_at(i);
        let v = other.val_at(i).clone();
        p.insert(k, v);
        proof {
            assert(other.kseq().take(i + 1).drop_last() =~= other.kseq().take(i as int));
            assert(other.vseq().take(i + 1).drop_last() =~= other.vseq().take(i as int));
            assert(old(p)@.union_prefer_right(
                crate::dict::assoc_map(
                    other.kseq().take(i + 1),
                    other.vseq().take(i + 1),
                ),
            ) =~= old(p)@.union_prefer_right(
                crate::dict::assoc_map(
                    other.kseq().take(i as int),
                    other.vseq().take(i as int),
                ),
            ).insert(other.kseq()[i as int], other.vseq()[i as int]));
        }
        i += 1;
    }
    proof {
        assert(other.kseq().take(n as int) =~= other.kseq());
        assert(other.vseq().take(n as int) =~= other.vseq());
    }
}

/// Whether `p` holds no entry.
pub fn props_is_empty(p: &Properties) -> (r: bool)
    requires
        p.wf(),
    ensures
        r == (p@ == Map::<Seq<char>, ValueView>::empty()),
{
    let n = p.len();
    if n == 0 {
        proof {
            assert(p.kseq() =~= Seq::<Seq<char>>::empty());
            assert(p@ =~= Map::<Seq<char>, ValueView>::empty());
        }
        true
    } else {
        proof {
            crate::dict::lemma_assoc_index(p.kseq(), p.vseq(), 0);
            assert(p@.contains_key(p.kseq()[0]));
        }
        false
    }
}

} // verus!
