//! The virtual file system: an in-memory model of the synchronized
//! directory, keyed by path. The reconciliation engine reads and writes
//! it; an outer layer mirrors it to a real disk.

use vstd::prelude::*;

use crate::dict;
use crate::dict::Dict;
use crate::project::ProjectFileData;
use crate::project::ProjectFileView;
use crate::text;
use crate::value::clone_props;
use crate::value::Properties;
use crate::value::ValueView;

verus! {

/// One entry of the file system: a directory, a text file, a sidecar
/// data file holding properties, or a project file.
pub enum VfsEntry {
    Dir,
    Text(String),
    Data(Properties),
    Project(ProjectFileData),
}

/// The mathematical value of a file-system entry.
pub enum VfsEntryView {
    Dir,
    Text(Seq<char>),
    Data(Map<Seq<char>, ValueView>),
    Project(ProjectFileView),
}

impl View for VfsEntry {
    type V = VfsEntryView;

    open spec fn view(&self) -> VfsEntryView {
        match self {
            VfsEntry::Dir => VfsEntryView::Dir,
            VfsEntry::Text(t) => VfsEntryView::Text(t@),
            VfsEntry::Data(p) => VfsEntryView::Data(p@),
            VfsEntry::Project(p) => VfsEntryView::Project(p@),
        }
    }
}

/// The structured entries carry no repeated keys.
pub open spec fn entry_wf(e: VfsEntry) -> bool {
    match e {
        VfsEntry::Data(p) => p.wf(),
        VfsEntry::Project(p) => p.wf(),
        _ => true,
    }
}

/// What can go wrong when the file system is asked for an entry.
#[derive(Clone, Copy, PartialEq, Eq, Structural, Debug)]
pub enum VfsError {
    NotFound,
    NotAFile,
    NotADirectory,
    AlreadyExists,
}

/// A coalesced change notification for one path.
pub enum VfsEvent {
    Create(String),
    Delete(String),
    Write(String),
}

impl VfsEvent {
    /// The path the event speaks of.
    pub open spec fn path_spec(&self) -> Seq<char> {
        match self {
            VfsEvent::Create(p) => p@,
            VfsEvent::Delete(p) => p@,
            VfsEvent::Write(p) => p@,
        }
    }

    /// The path the event speaks of.
    pub fn path(&self) -> (r: &str)
        ensures
            r@ == self.path_spec(),
    {
        match self {
            VfsEvent::Create(path) => path.as_str(),
            VfsEvent::Delete(path) => path.as_str(),
            VfsEvent::Write(path) => path.as_str(),
        }
    }
}

/// The views of a list of strings, in order.
pub open spec fn str_views(ss: Seq<String>) -> Seq<Seq<char>> {
    ss.map_values(|s: String| s@)
}

/// Whether `k` is a direct child path of `parent`.
pub open spec fn direct_child_of(parent: Seq<char>, k: Seq<char>) -> bool {
    text::parent_of(k) == parent && k.len() > parent.len()
}

/// The direct children of `dir` among `keys`, in the order `keys` holds
/// them: the order a directory listing hands its entries out in.
pub open spec fn child_listing(keys: Seq<Seq<char>>, dir: Seq<char>) -> Seq<Seq<char>>
    decreases keys.len(),
{
    if keys.len() == 0 {
        Seq::<Seq<char>>::empty()
    } else {
        let rest = child_listing(keys.drop_last(), dir);
        if direct_child_of(dir, keys.last()) {
            rest.push(keys.last())
        } else {
            rest
        }
    }
}

/// The in-memory file system.
pub struct Vfs {
    pub entries: Dict<VfsEntry>,
    pub watched: Vec<String>,
    pub watch_enabled: bool,
}

impl View for Vfs {
    type V = Map<Seq<char>, VfsEntryView>;

    open spec fn view(&self) -> Map<Seq<char>, VfsEntryView> {
        self.entries@
    }
}

impl Vfs {
    /// The entry table is a map and its structured entries are well
    /// formed.
    pub open spec fn wf(&self) -> bool {
        &&& self.entries.wf()
        &&& forall|i: int|
            0 <= i < self.entries.vals@.len() ==> entry_wf(
                #[trigger] self.entries.vals@[i],
            )
    }

    /// Which paths are being watched.
    pub open spec fn watched_spec(&self) -> Seq<Seq<char>> {
        str_views(self.watched@)
    }

    /// An empty file system; `watch` records whether changes are to be
    /// reported at all.
    pub fn new(watch: bool) -> (r: Vfs)
        ensures
            r.wf(),
            r@ == Map::<Seq<char>, VfsEntryView>::empty(),
            r.watch_enabled == watch,
            r.watched_spec() == Seq::<Seq<char>>::empty(),
    {
        let r = Vfs { entries: Dict::new(), watched: Vec::new(), watch_enabled: watch };
        proof {
            assert(r.watched_spec() =~= Seq::<Seq<char>>::empty());
        }
        r
    }

    /// Starts watching `path`.
    pub fn watch(&mut self, path: &str)
        ensures
            final(self).entries == old(self).entries,
            final(self).watch_enabled == old(self).watch_enabled,
            final(self).watched_spec() == old(self).watched_spec().push(path@),
    {
        self.watched.push(path.to_owned());
        proof {
            assert(self.watched_spec() =~= old(self).watched_spec().push(path@));
        }
    }

    /// Stops watching `path`.
    pub fn unwatch(&mut self, path: &str)
        ensures
            final(self).entries == old(self).entries,
            final(self).watch_enabled == old(self).watch_enabled,
            !final(self).watched_spec().contains(path@),
            forall|q: Seq<char>|
                q != path@ ==> (final(self).watched_spec().contains(q) <==> old(
                    self,
                ).watched_spec().contains(q)),
    {
        let n = self.watched.len();
        let mut out: Vec<String> = Vec::new();
        let mut i: usize = 0;
        while i < n
            invariant
                i <= n,
                n == self.watched@.len(),
                self == old(self),
                forall|j: int|
                    0 <= j < out@.len() ==> #[trigger] str_views(out@)[j] != path@
                        && old(self).watched_spec().contains(str_views(out@)[j]),
                forall|j: int|
                    0 <= j < i && #[trigger] old(self).watched_spec()[j] != path@
                        ==> str_views(out@).contains(old(self).watched_spec()[j]),
            decreases n - i,
        {
            proof {
                assert(old(self).watched_spec()[i as int] == self.watched@[i as int]@);
            }
            if !text::str_eq(self.watched[i].as_str(), path) {
                let ghost prev = out@;
                let c = self.watched[i].clone();
                out.push(c);
                proof {
                    assert(str_views(out@) =~= str_views(prev).push(c@));
                    assert(old(self).watched_spec().contains(
                        old(self).watched_spec()[i as int],
                    ));
                    assert(forall|j: int|
                        0 <= j < out@.len() ==> #[trigger] str_views(out@)[j] != path@
                            && old(self).watched_spec().contains(str_views(out@)[j]));
                    assert(str_views(out@).contains(str_views(out@)[out@.len() - 1]));
                    assert(forall|q: Seq<char>|
                        str_views(prev).contains(q) ==> str_views(out@).contains(q)) by {
                        assert(forall|j: int|
                            0 <= j < str_views(prev).len() ==> str_views(out@)[j]
                                == #[trigger] str_views(prev)[j]);
                    }
                }
            }
            i += 1;
        }
        self.watched = out;
        proof {
            if self.watched_spec().contains(path@) {
                let j = choose|j: int|
                    0 <= j < self.watched_spec().len() && #[trigger] self.watched_spec()[j]
                        == path@;
            }
            assert forall|q: Seq<char>| q != path@ implies (self.watched_spec().contains(
                q,
            ) <==> old(self).watched_spec().contains(q)) by {
                if old(self).watched_spec().contains(q) {
                    let j = choose|j: int|
                        0 <= j < old(self).watched_spec().len() && #[trigger] old(
                            self,
                        ).watched_spec()[j] == q;
                }
            };
        }
    }

    /// Whether `path` is being watched.
    pub fn is_watched(&self, path: &str) -> (r: bool)
        ensures
            r == self.watched_spec().contains(path@),
    {
        let n = self.watched.len();
        let mut i: usize = 0;
        while i < n
            invariant
                i <= n,
                n == self.watched@.len(),
                forall|j: int| 0 <= j < i ==> #[trigger] self.watched_spec()[j] != path@,
            decreases n - i,
        {
            proof {
                assert(self.watched_spec()[i as int] == self.watched@[i as int]@);
            }
            if text::str_eq(self.watched[i].as_str(), path) {
                proof {
                    assert(self.watched_spec().contains(self.watched_spec()[i as int]));
                }
                return true;
            }
            i += 1;
        }
        proof {
            if self.watched_spec().contains(path@) {
                let j = choose|j: int|
                    0 <= j < self.watched_spec().len() && #[trigger] self.watched_spec()[j]
                        == path@;
            }
        }
        false
    }

    /// Whether any entry sits at `path`.
    pub fn entry_exists(&self, path: &str) -> (r: bool)
        requires
            self.wf(),
        ensures
            r == self@.contains_key(path@),
    {
        self.entries.contains_key(path)
    }

    /// Whether a directory sits at `path`.
    pub fn is_dir(&self, path: &str) -> (r: bool)
        requires
            self.wf(),
        ensures
            r == (self@.contains_key(path@) && self@[path@] is Dir),
    {
        match self.entries.get(path) {
            Some(e) => match e {
                VfsEntry::Dir => true,
                _ => false,
            },
            None => false,
        }
    }

    /// Whether a file of any kind sits at `path`.
    pub fn is_file(&self, path: &str) -> (r: bool)
        requires
            self.wf(),
        ensures
            r == (self@.contains_key(path@) && !(self@[path@] is Dir)),
    {
        match self.entries.get(path) {
            Some(e) => match e {
                VfsEntry::Dir => false,
                _ => true,
            },
            None => false,
        }
    }

    /// The text of the file at `path`.
    pub fn read(&self, path: &str) -> (r: Result<String, VfsError>)
        requires
            self.wf(),
        ensures
            match r {
                Ok(t) => self@.contains_key(path@) && self@[path@] == VfsEntryView::Text(
                    t@,
                ),
                Err(e) => (e == VfsError::NotFound <==> !self@.contains_key(path@)) && (
                self@.contains_key(path@) ==> !(self@[path@] is Text)),
            },
    {
        match self.entries.get(path) {
            Some(e) => match e {
                VfsEntry::Text(t) => Ok(t.clone()),
                _ => Err(VfsError::NotAFile),
            },
            None => Err(VfsError::NotFound),
        }
    }

    /// The properties stored in the data file at `path`, when one is
    /// there.
    pub fn get_data(&self, path: &str) -> (r: Option<Properties>)
        requires
            self.wf(),
        ensures
            match r {
                Some(p) => p.wf() && self@.contains_key(path@) && self@[path@]
                    == VfsEntryView::Data(p@),
                None => self@.contains_key(path@) ==> !(self@[path@] is Data),
            },
    {
        match self.entries.get(path) {
            Some(e) => {
                proof {
                    let i = choose|i: int|
                        0 <= i < self.entries.vals@.len() && *e == self.entries.vals@[i];
                    assert(entry_wf(self.entries.vals@[i]));
                }
                match e {
                    VfsEntry::Data(p) => Some(clone_props(p)),
                    _ => None,
                }
            },
            None => None,
        }
    }

    /// The project stored at `path`, freshly copied for one load,
    /// mutate, save round.
    pub fn get_project(&self, path: &str) -> (r: Result<ProjectFileData, VfsError>)
        requires
            self.wf(),
        ensures
            match r {
                Ok(p) => p.wf() && self@.contains_key(path@) && self@[path@]
                    == VfsEntryView::Project(p@),
                Err(e) => (e == VfsError::NotFound <==> !self@.contains_key(path@)) && (
                self@.contains_key(path@) ==> !(self@[path@] is Project)),
            },
    {
        match self.entries.get(path) {
            Some(e) => {
                proof {
                    let i = choose|i: int|
                        0 <= i < self.entries.vals@.len() && *e == self.entries.vals@[i];
                    assert(entry_wf(self.entries.vals@[i]));
                }
                match e {
                    VfsEntry::Project(p) => Ok(p.clone_project()),
                    _ => Err(VfsError::NotAFile),
                }
            },
            None => Err(VfsError::NotFound),
        }
    }

    /// Puts `entry` at `path`, replacing what was there.
    pub fn write(&mut self, path: &str, entry: VfsEntry)
        requires
            old(self).wf(),
            entry_wf(entry),
        ensures
            final(self).wf(),
            final(self)@ == old(self)@.insert(path@, entry@),
            final(self).watched == old(self).watched,
            final(self).watch_enabled == old(self).watch_enabled,
    {
        self.entries.insert(path, entry);
        proof {
            assert(forall|i: int|
                0 <= i < self.entries.vals@.len() ==> entry_wf(
                    #[trigger] self.entries.vals@[i],
                )) by {
                assert(forall|i: int|
                    0 <= i < self.entries.vals@.len() ==> old(
                        self,
                    ).entries.vals@.contains(#[trigger] self.entries.vals@[i])
                        || self.entries.vals@[i] == entry);
            }
        }
    }

    /// Removes the entry at `path` and, below a directory, everything
    /// under it.
    pub fn remove(&mut self, path: &str)
        requires
            old(self).wf(),
        ensures
            final(self).wf(),
            forall|k: Seq<char>|
                #[trigger] final(self)@.contains_key(k) <==> old(self)@.contains_key(k)
                    && !text::under(path@, k),
            forall|k: Seq<char>|
                #[trigger] final(self)@.contains_key(k) ==> final(self)@[k] == old(
                    self,
                )@[k],
            final(self).watched == old(self).watched,
            final(self).watch_enabled == old(self).watch_enabled,
    {
        let mut taken: Dict<VfsEntry> = Dict::new();
        core::mem::swap(&mut self.entries, &mut taken);
        let (kept, _dropped) = dict::partition_under(taken, path);
        proof {
            assert(forall|i: int|
                0 <= i < kept.vals@.len() ==> entry_wf(#[trigger] kept.vals@[i])) by {
                assert(forall|i: int|
                    0 <= i < kept.vals@.len() ==> old(self).entries.vals@.contains(
                        #[trigger] kept.vals@[i],
                    ));
            }
        }
        self.entries = kept;
    }

    /// Moves the entry at `from`, and everything under it, to sit at
    /// `to` instead. Refuses when anything already sits at or under
    /// `to`, leaving the file system unchanged.
    pub fn rename(&mut self, from: &str, to: &str) -> (r: Result<(), VfsError>)
        requires
            old(self).wf(),
        ensures
            final(self).wf(),
            final(self).watched == old(self).watched,
            final(self).watch_enabled == old(self).watch_enabled,
            r is Ok ==> (forall|k: Seq<char>|
                old(self)@.contains_key(k) ==> !text::under(to@, k)),
            r is Ok ==> (forall|k: Seq<char>|
                #[trigger] final(self)@.contains_key(k) <==> ((old(self)@.contains_key(k)
                    && !text::under(from@, k)) || (text::under(to@, k)
                    && old(self)@.contains_key(from@ + k.skip(to@.len() as int))))),
            r is Ok ==> (forall|k: Seq<char>|
                #[trigger] final(self)@.contains_key(k) && !text::under(to@, k)
                    ==> final(self)@[k] == old(self)@[k]),
            r is Ok ==> (forall|k: Seq<char>|
                #[trigger] final(self)@.contains_key(k) && text::under(to@, k)
                    ==> final(self)@[k] == old(self)@[from@ + k.skip(to@.len() as int)]),
            r is Err ==> r == Err::<(), VfsError>(VfsError::AlreadyExists)
                && final(self)@ == old(self)@ && (exists|k: Seq<char>|
                #[trigger] old(self)@.contains_key(k) && text::under(to@, k)),
    {
        if self.entries.any_key_under(to) {
            proof {
                let k0 = choose|k: Seq<char>|
                    #[trigger] self.entries@.contains_key(k) && text::under(to@, k);
                assert(old(self)@.contains_key(k0) && text::under(to@, k0));
            }
            return Err(VfsError::AlreadyExists);
        }
        let mut taken: Dict<VfsEntry> = Dict::new();
        core::mem::swap(&mut self.entries, &mut taken);
        let renamed = dict::rename_prefix(taken, from, to);
        proof {
            assert(forall|i: int|
                0 <= i < renamed.vals@.len() ==> entry_wf(#[trigger] renamed.vals@[i]))
                by {
                assert(forall|i: int|
                    0 <= i < renamed.vals@.len() ==> old(self).entries.vals@.contains(
                        #[trigger] renamed.vals@[i],
                    ));
            }
        }
        self.entries = renamed;
        Ok(())
    }

    /// The full paths of the entries directly inside the directory at
    /// `path`.
    pub fn read_dir(&self, path: &str) -> (r: Result<Vec<String>, VfsError>)
        requires
            self.wf(),
        ensures
            r is Ok ==> self@.contains_key(path@) && (self@[path@] is Dir),
            r matches Ok(v) ==> (forall|i: int|
                0 <= i < v@.len() ==> self@.contains_key(#[trigger] v@[i]@)
                    && direct_child_of(path@, v@[i]@)),
            r matches Ok(v) ==> (forall|k: Seq<char>|
                #[trigger] self@.contains_key(k) && direct_child_of(path@, k)
                    ==> str_views(v@).contains(k)),
            r matches Ok(v) ==> (forall|a: int, b: int|
                0 <= a < b < v@.len() ==> v@[a]@ != v@[b]@),
            r matches Ok(v) ==> str_views(v@) == child_listing(self.entries.kseq(), path@),
            r matches Err(e) ==> (e == VfsError::NotFound <==> !self@.contains_key(path@))
                && (self@.contains_key(path@) ==> !(self@[path@] is Dir)),
    {
        if !self.is_dir(path) {
            if !self.entry_exists(path) {
                return Err(VfsError::NotFound);
            }
            return Err(VfsError::NotADirectory);
        }
        let n = self.entries.len();
        let mut out: Vec<String> = Vec::new();
        let mut i: usize = 0;
        while i < n
            invariant
                i <= n,
                n == self.entries.keys@.len(),
                self.wf(),
                forall|j: int|
                    0 <= j < out@.len() ==> self@.contains_key(#[trigger] str_views(out@)[j])
                        && direct_child_of(path@, str_views(out@)[j]),
                forall|a: int, b: int|
                    0 <= a < b < out@.len() ==> out@[a]@ != out@[b]@,
                forall|j: int|
                    0 <= j < out@.len() ==> (exists|l: int|
                        0 <= l < i && #[trigger] out@[j]@ == self.entries.kseq()[l]),
                forall|j: int|
                    0 <= j < i && direct_child_of(
                        path@,
                        #[trigger] self.entries.kseq()[j],
                    ) ==> str_views(out@).contains(self.entries.kseq()[j]),
                str_views(out@) == child_listing(self.entries.kseq().take(i as int), path@),
            decreases n - i,
        {
            let k = self.entries.key_at(i);
            let kp = text::get_parent(k);
            let klen = k.unicode_len();
            let plen = path.unicode_len();
            if text::str_eq(kp, path) && klen > plen {
                let ghost prev = out@;
                let c = k.to_owned();
                out.push(c);
                proof {
                    assert(str_views(out@) =~= str_views(prev).push(c@));
                    assert(str_views(out@)[out@.len() - 1] == c@);
                    assert(str_views(out@).contains(self.entries.kseq()[i as int]));
                    assert(forall|q: Seq<char>|
                        str_views(prev).contains(q) ==> str_views(out@).contains(q)) by {
                        assert(forall|j: int|
                            0 <= j < str_views(prev).len() ==> str_views(out@)[j]
                                == #[trigger] str_views(prev)[j]);
                    }
                    assert(out@[out@.len() - 1]@ == self.entries.kseq()[i as int]);
                    assert forall|a: int, b: int|
                        0 <= a < b < out@.len() implies out@[a]@ != out@[b]@ by {
                        if b == out@.len() - 1 {
                            let l = choose|l: int|
                                0 <= l < i && #[trigger] prev[a]@ == self.entries.kseq()[
                                    l
                                ];
                            assert(out@[a]@ == self.entries.kseq()[l]);
                        }
                    };
                }
            }
            proof {
                let ks = self.entries.kseq();
                assert(ks.take(i + 1).drop_last() =~= ks.take(i as int));
                assert(ks.take(i + 1).last() == ks[i as int]);
                if direct_child_of(path@, ks[i as int]) {
                    assert(child_listing(ks.take(i + 1), path@) == child_listing(
                        ks.take(i as int),
                        path@,
                    ).push(ks[i as int]));
                } else {
                    assert(child_listing(ks.take(i + 1), path@) == child_listing(
                        ks.take(i as int),
                        path@,
                    ));
                }
            }
            i += 1;
        }
        proof {
            assert(self.entries.kseq().take(n as int) =~= self.entries.kseq());
            assert forall|i: int| 0 <= i < out@.len() implies self@.contains_key(
                #[trigger] out@[i]@,
            ) && direct_child_of(path@, out@[i]@) by {
                assert(str_views(out@)[i] == out@[i]@);
            };
            assert forall|k: Seq<char>|
                #[trigger] self@.contains_key(k) && direct_child_of(path@, k) implies
                str_views(out@).contains(k) by {
                dict::lemma_assoc_contains(
                    self.entries.kseq(),
                    self.entries.vseq(),
                    k,
                );
                let j = choose|j: int|
                    0 <= j < self.entries.kseq().len() && #[trigger] self.entries.kseq()[j]
                        == k;
            };
        }
        Ok(out)
    }
}

} // verus!
