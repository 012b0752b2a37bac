use crate::store::{opt_bytes, present, ChangeList};
use vstd::prelude::*;

verus! {

/// An immutable point-in-time view of committed storage. Its data is copied
/// out of the engine when it is taken, so no later commit shows through it.
#[derive(Debug)]
pub struct Snapshot {
    data: ChangeList,
}

impl Snapshot {
    /// The committed change map this snapshot was taken from.
    pub closed spec fn raw(self) -> Map<Seq<u8>, Option<Seq<u8>>> {
        self.data@
    }

    /// The bindings a reader of this snapshot sees.
    pub open spec fn visible(self) -> Map<Seq<u8>, Seq<u8>> {
        present(self.raw())
    }

    pub closed spec fn wf(self) -> bool {
        self.data.wf()
    }

    /// Read a key. Never mutates anything.
    pub fn get(&self, key: &Vec<u8>) -> (r: Option<Vec<u8>>)
        requires
            self.wf(),
        ensures
            match r {
                Some(v) => self.visible().contains_key(key@) && v@ == self.visible()[key@],
                None => !self.visible().contains_key(key@),
            },
    {
        self.data.read(key)
    }
}

/// A mutable view layered over the committed data it was created from:
/// writes and removals buffer in the fork and touch nothing else until the
/// fork is committed into a patch.
#[derive(Debug)]
pub struct Fork {
    base: ChangeList,
    changes: ChangeList,
}

impl Fork {
    /// The committed change map this fork was created over.
    pub closed spec fn base_map(self) -> Map<Seq<u8>, Option<Seq<u8>>> {
        self.base@
    }

    /// The changes buffered in this fork so far.
    pub closed spec fn change_map(self) -> Map<Seq<u8>, Option<Seq<u8>>> {
        self.changes@
    }

    /// The change map a reader of this fork goes through: its own changes
    /// over the base, the fork's winning on a shared key.
    pub open spec fn effective(self) -> Map<Seq<u8>, Option<Seq<u8>>> {
        self.base_map().union_prefer_right(self.change_map())
    }

    /// The bindings a reader of this fork sees.
    pub open spec fn visible(self) -> Map<Seq<u8>, Seq<u8>> {
        present(self.effective())
    }

    pub closed spec fn wf(self) -> bool {
        self.base.wf() && self.changes.wf()
    }

    /// Read a key: the fork's own change if it buffered one, the base
    /// binding otherwise.
    pub fn get(&self, key: &Vec<u8>) -> (r: Option<Vec<u8>>)
        requires
            self.wf(),
        ensures
            match r {
                Some(v) => self.visible().contains_key(key@) && v@ == self.visible()[key@],
                None => !self.visible().contains_key(key@),
            },
    {
        match self.changes.lookup(key) {
            Some(change) => change,
            None => self.base.read(key),
        }
    }

    /// Buffer one change: a write or a removal. The base and the engine are
    /// untouched.
    pub fn set_change(&mut self, key: Vec<u8>, change: Option<Vec<u8>>)
        requires
            old(self).wf(),
        ensures
            final(self).wf(),
            final(self).base_map() == old(self).base_map(),
            final(self).change_map() == old(self).change_map().insert(key@, opt_bytes(change)),
    {
        self.changes.set(key, change);
    }

    /// Buffer a write. The base and the engine are untouched.
    pub fn put(&mut self, key: Vec<u8>, value: Vec<u8>)
        requires
            old(self).wf(),
        ensures
            final(self).wf(),
            final(self).base_map() == old(self).base_map(),
            final(self).change_map() == old(self).change_map().insert(key@, Some(value@)),
    {
        self.set_change(key, Some(value));
    }

    /// Buffer a removal. The base and the engine are untouched.
    pub fn remove(&mut self, key: Vec<u8>)
        requires
            old(self).wf(),
        ensures
            final(self).wf(),
            final(self).base_map() == old(self).base_map(),
            final(self).change_map() == old(self).change_map().insert(key@, None),
    {
        self.set_change(key, None);
    }

    /// The terminal transition: consume the fork, yielding the immutable
    /// patch of its accumulated changes.
    pub fn into_patch(self) -> (p: Patch)
        requires
            self.wf(),
        ensures
            p.wf(),
            p@ == self.change_map(),
    {
        Patch { changes: self.changes }
    }
}

/// The immutable description of the changes a committed fork accumulated,
/// ready to be applied to the storage engine.
#[derive(Debug)]
pub struct Patch {
    changes: ChangeList,
}

impl View for Patch {
    type V = Map<Seq<u8>, Option<Seq<u8>>>;

    closed spec fn view(&self) -> Map<Seq<u8>, Option<Seq<u8>>> {
        self.changes@
    }
}

impl Patch {
    pub closed spec fn wf(self) -> bool {
        self.changes.wf()
    }

    /// A patch with no changes.
    pub fn empty() -> (p: Patch)
        ensures
            p.wf(),
            p@ == Map::<Seq<u8>, Option<Seq<u8>>>::empty(),
    {
        Patch { changes: ChangeList::new() }
    }

    /// How many keys this patch changes.
    pub fn change_count(&self) -> (n: usize)
        requires
            self.wf(),
        ensures
            n as nat == self@.dom().len(),
    {
        self.changes.entry_count()
    }

    /// The change this patch records for `key`: a write, a removal, or
    /// nothing.
    pub fn change_for(&self, key: &Vec<u8>) -> (r: Option<Option<Vec<u8>>>)
        requires
            self.wf(),
        ensures
            match r {
                Some(change) => self@.contains_key(key@) && opt_bytes(change) == self@[key@],
                None => !self@.contains_key(key@),
            },
    {
        self.changes.lookup(key)
    }
}

/// A registered storage view: the tagged resource variant the registry owns.
/// Exactly two kinds are in scope; a snapshot is read-only for its whole
/// life, a fork also accepts writes and a single commit.
#[derive(Debug)]
pub enum StorageView {
    Snapshot(Snapshot),
    Fork(Fork),
}

impl StorageView {
    pub open spec fn wf(self) -> bool {
        match self {
            StorageView::Snapshot(s) => s.wf(),
            StorageView::Fork(f) => f.wf(),
        }
    }

    /// The bindings a reader of this view sees, of either kind.
    pub open spec fn visible(self) -> Map<Seq<u8>, Seq<u8>> {
        match self {
            StorageView::Snapshot(s) => s.visible(),
            StorageView::Fork(f) => f.visible(),
        }
    }
}

/// The storage engine as the bridge consumes it: a committed key/value
/// space that produces snapshots and forks and accepts patches.
#[derive(Debug)]
pub struct Database {
    committed: ChangeList,
}

impl Database {
    /// The committed change map.
    pub closed spec fn raw(self) -> Map<Seq<u8>, Option<Seq<u8>>> {
        self.committed@
    }

    /// The bindings committed readers see.
    pub open spec fn visible(self) -> Map<Seq<u8>, Seq<u8>> {
        present(self.raw())
    }

    pub closed spec fn wf(self) -> bool {
        self.committed.wf()
    }

    /// An empty store.
    pub fn new() -> (db: Database)
        ensures
            db.wf(),
            db.raw() == Map::<Seq<u8>, Option<Seq<u8>>>::empty(),
    {
        Database { committed: ChangeList::new() }
    }

    /// An immutable view of the data committed so far.
    pub fn create_snapshot(&self) -> (s: Snapshot)
        requires
            self.wf(),
        ensures
            s.wf(),
            s.raw() == self.raw(),
    {
        Snapshot { data: self.committed.duplicate() }
    }

    /// A mutable view layered over the data committed so far, with no
    /// changes buffered yet.
    pub fn create_fork(&self) -> (f: Fork)
        requires
            self.wf(),
        ensures
            f.wf(),
            f.base_map() == self.raw(),
            f.change_map() == Map::<Seq<u8>, Option<Seq<u8>>>::empty(),
    {
        Fork { base: self.committed.duplicate(), changes: ChangeList::new() }
    }

    /// Apply a committed fork's patch to the committed data.
    pub fn apply(&mut self, patch: &Patch)
        requires
            old(self).wf(),
            patch.wf(),
        ensures
            final(self).wf(),
            final(self).raw() == old(self).raw().union_prefer_right(patch@),
    {
        self.committed.merge(&patch.changes);
    }
}

} // verus!
