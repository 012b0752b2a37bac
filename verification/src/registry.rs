use crate::errors::BridgeError;
use crate::views::StorageView;
use std::collections::HashMap;
use vstd::prelude::*;

verus! {

broadcast use vstd::std_specs::hash::group_hash_axioms;

/// One registered resource together with the type tag it was registered
/// under. Resolving it under any other tag is an error, never a silent
/// reinterpretation.
#[derive(Debug)]
pub struct RegistryEntry {
    pub tag: u64,
    pub resource: StorageView,
}

impl RegistryEntry {
    pub open spec fn wf(self) -> bool {
        self.resource.wf()
    }
}

/// The process-wide table from opaque integer handle to owned native
/// resource. The registry exclusively owns each resource between `allocate`
/// and `free`; the host only ever holds the handle value. Handles are issued
/// from a strictly increasing counter, so a freed handle value is never
/// reissued and can never again resolve to a live resource.
#[derive(Debug)]
pub struct Registry {
    entries: HashMap<u64, RegistryEntry>,
    next: u64,
}

impl Registry {
    /// The live entries, by handle.
    pub closed spec fn table(self) -> Map<u64, RegistryEntry> {
        self.entries@
    }

    /// The lowest handle value never yet issued: every handle `allocate` has
    /// returned lies below it, and it never decreases.
    pub closed spec fn handle_bound(self) -> u64 {
        self.next
    }

    pub open spec fn wf(self) -> bool {
        forall|h: u64| #[trigger]
            self.table().contains_key(h) ==> h < self.handle_bound() && self.table()[h].wf()
    }

    /// Handle space is not exhausted.
    pub open spec fn can_allocate(self) -> bool {
        self.handle_bound() < u64::MAX
    }

    /// Whether handle space is left: the executable test of
    /// [`can_allocate`](Self::can_allocate), for callers outside the proof.
    pub fn has_capacity(&self) -> (b: bool)
        ensures
            b == self.can_allocate(),
    {
        self.next < u64::MAX
    }

    /// An empty registry, as the process starts with.
    pub fn new() -> (r: Registry)
        ensures
            r.wf(),
            r.table() == Map::<u64, RegistryEntry>::empty(),
            r.handle_bound() == 0,
    {
        Registry { entries: HashMap::new(), next: 0 }
    }

    /// Take ownership of `resource` and return a fresh handle for it: one
    /// that is not live now and was never issued before.
    pub fn allocate(&mut self, tag: u64, resource: StorageView) -> (h: u64)
        requires
            old(self).wf(),
            old(self).can_allocate(),
            resource.wf(),
        ensures
            final(self).wf(),
            h == old(self).handle_bound(),
            !old(self).table().contains_key(h),
            final(self).table() == old(self).table().insert(h, RegistryEntry { tag, resource }),
            final(self).handle_bound() == old(self).handle_bound() + 1,
    {
        let h = self.next;
        self.next = self.next + 1;
        self.entries.insert(h, RegistryEntry { tag, resource });
        proof {
            assert forall|h2: u64| #[trigger]
                self.table().contains_key(h2) implies h2 < self.handle_bound()
                && self.table()[h2].wf() by {
                if h2 != h {
                    assert(old(self).table().contains_key(h2));
                }
            }
        }
        h
    }

    /// Resolve a handle under the tag the caller expects. Fails with
    /// `InvalidHandle` if the handle is unknown, already freed, or tagged
    /// with a different type; no entry is touched either way.
    pub fn resolve(&self, handle: u64, tag: u64) -> (r: Result<&StorageView, BridgeError>)
        requires
            self.wf(),
        ensures
            r is Ok <==> self.table().contains_key(handle) && self.table()[handle].tag == tag,
            r matches Ok(v) ==> *v == self.table()[handle].resource && v.wf(),
            r is Err ==> r == Err::<&StorageView, BridgeError>(BridgeError::InvalidHandle),
    {
        match self.entries.get(&handle) {
            Some(e) => {
                if e.tag == tag {
                    Ok(&e.resource)
                } else {
                    Err(BridgeError::InvalidHandle)
                }
            },
            None => Err(BridgeError::InvalidHandle),
        }
    }

    /// Remove the entry and drop its resource. Fails with `InvalidHandle` if
    /// the handle is unknown or already freed, and then changes nothing.
    pub fn free(&mut self, handle: u64) -> (r: Result<(), BridgeError>)
        requires
            old(self).wf(),
        ensures
            final(self).wf(),
            final(self).handle_bound() == old(self).handle_bound(),
            r is Ok <==> old(self).table().contains_key(handle),
            r is Ok ==> final(self).table() == old(self).table().remove(handle),
            r is Err ==> r == Err::<(), BridgeError>(BridgeError::InvalidHandle)
                && final(self).table() == old(self).table(),
    {
        match self.entries.remove(&handle) {
            Some(_) => {
                proof {
                    assert forall|h: u64| #[trigger]
                        self.table().contains_key(h) implies h < self.handle_bound()
                        && self.table()[h].wf() by {
                        assert(old(self).table().contains_key(h));
                    }
                }
                Ok(())
            },
            None => {
                proof {
                    assert(old(self).table().remove(handle) =~= old(self).table());
                }
                Err(BridgeError::InvalidHandle)
            },
        }
    }

    /// Take an entry out for exclusive use, leaving the handle dead until
    /// `restore` puts it back.
    pub(crate) fn take(&mut self, handle: u64) -> (r: Option<RegistryEntry>)
        requires
            old(self).wf(),
        ensures
            final(self).wf(),
            final(self).handle_bound() == old(self).handle_bound(),
            match r {
                Some(e) => old(self).table().contains_key(handle)
                    && e == old(self).table()[handle] && e.wf()
                    && handle < old(self).handle_bound()
                    && final(self).table() == old(self).table().remove(handle),
                None => !old(self).table().contains_key(handle)
                    && final(self).table() == old(self).table(),
            },
    {
        match self.entries.remove(&handle) {
            Some(e) => {
                proof {
                    assert forall|h: u64| #[trigger]
                        self.table().contains_key(h) implies h < self.handle_bound()
                        && self.table()[h].wf() by {
                        assert(old(self).table().contains_key(h));
                    }
                }
                Some(e)
            },
            None => {
                proof {
                    assert(old(self).table().remove(handle) =~= old(self).table());
                }
                None
            },
        }
    }

    /// Put an entry back under a handle that was issued before: the second
    /// half of a `take`/`restore` pair.
    pub(crate) fn restore(&mut self, handle: u64, entry: RegistryEntry)
        requires
            old(self).wf(),
            handle < old(self).handle_bound(),
            entry.wf(),
        ensures
            final(self).wf(),
            final(self).handle_bound() == old(self).handle_bound(),
            final(self).table() == old(self).table().insert(handle, entry),
    {
        self.entries.insert(handle, entry);
        proof {
            assert forall|h: u64| #[trigger]
                self.table().contains_key(h) implies h < self.handle_bound()
                && self.table()[h].wf() by {
                if h != handle {
                    assert(old(self).table().contains_key(h));
                }
            }
        }
    }

    /// Every live handle lies below the allocation bound. With `allocate`
    /// returning exactly the bound and raising it, no two live handles ever
    /// share an entry, and a handle freed at any point is never reissued:
    /// every later allocation returns a strictly larger value.
    pub proof fn lemma_live_handles_below_bound(self, h: u64)
        requires
            self.wf(),
            self.table().contains_key(h),
        ensures
            h < self.handle_bound(),
    {
    }
}

} // verus!
