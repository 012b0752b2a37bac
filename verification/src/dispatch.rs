use crate::errors::BridgeError;
use crate::registry::{Registry, RegistryEntry};
use crate::store::opt_bytes;
use crate::views::{Database, Patch, StorageView};
use vstd::prelude::*;

verus! {

/// The registry type tag under which every storage view is registered.
/// Other native resource kinds would take tags of their own.
pub const VIEW_TAG: u64 = 1;

/// Handle `h` resolves as a storage view of either kind.
pub open spec fn resolves_view(m: Map<u64, RegistryEntry>, h: u64) -> bool {
    m.contains_key(h) && m[h].tag == VIEW_TAG
}

/// Handle `h` resolves as a fork, the only kind a write or a commit is
/// permitted on.
pub open spec fn resolves_fork(m: Map<u64, RegistryEntry>, h: u64) -> bool {
    resolves_view(m, h) && m[h].resource is Fork
}

/// The entry of handle `h2` is the same in `post` as in `pre`: live in one
/// exactly when live in the other, and then with the same contents.
pub open spec fn entry_unchanged(
    pre: Map<u64, RegistryEntry>,
    post: Map<u64, RegistryEntry>,
    h2: u64,
) -> bool {
    (post.contains_key(h2) <==> pre.contains_key(h2)) && (pre.contains_key(h2) ==> post[h2]
        == pre[h2])
}

/// Every entry but the one of `h` is exactly as it was.
pub open spec fn frame_except(
    pre: Map<u64, RegistryEntry>,
    post: Map<u64, RegistryEntry>,
    h: u64,
) -> bool {
    forall|h2: u64| h2 != h ==> #[trigger] entry_unchanged(pre, post, h2)
}

/// Entry point: take a snapshot of the committed data and register it,
/// returning its fresh handle. No existing entry is touched.
pub fn create_snapshot_view(reg: &mut Registry, db: &Database) -> (h: u64)
    requires
        old(reg).wf(),
        old(reg).can_allocate(),
        db.wf(),
    ensures
        final(reg).wf(),
        final(reg).handle_bound() == old(reg).handle_bound() + 1,
        h == old(reg).handle_bound(),
        !old(reg).table().contains_key(h),
        resolves_view(final(reg).table(), h),
        final(reg).table()[h].resource is Snapshot,
        final(reg).table()[h].resource->Snapshot_0.raw() == db.raw(),
        final(reg).table()[h].resource.visible() == db.visible(),
        frame_except(old(reg).table(), final(reg).table(), h),
{
    let snap = db.create_snapshot();
    let h = reg.allocate(VIEW_TAG, StorageView::Snapshot(snap));
    proof {
        assert forall|h2: u64|
            h2 != h implies #[trigger] entry_unchanged(old(reg).table(), reg.table(), h2) by {}
    }
    h
}

/// Entry point: create a fork over the committed data and register it,
/// returning its fresh handle. No existing entry is touched.
pub fn create_fork_view(reg: &mut Registry, db: &Database) -> (h: u64)
    requires
        old(reg).wf(),
        old(reg).can_allocate(),
        db.wf(),
    ensures
        final(reg).wf(),
        final(reg).handle_bound() == old(reg).handle_bound() + 1,
        h == old(reg).handle_bound(),
        !old(reg).table().contains_key(h),
        resolves_fork(final(reg).table(), h),
        final(reg).table()[h].resource->Fork_0.base_map() == db.raw(),
        final(reg).table()[h].resource->Fork_0.change_map() == Map::<
            Seq<u8>,
            Option<Seq<u8>>,
        >::empty(),
        frame_except(old(reg).table(), final(reg).table(), h),
{
    let fork = db.create_fork();
    let h = reg.allocate(VIEW_TAG, StorageView::Fork(fork));
    proof {
        assert forall|h2: u64|
            h2 != h implies #[trigger] entry_unchanged(old(reg).table(), reg.table(), h2) by {}
    }
    h
}

/// Entry point: free a view of either kind, dropping its resource. Exactly
/// the live handles succeed; a second free of the same handle fails with
/// `InvalidHandle` and changes nothing.
pub fn free_view(reg: &mut Registry, handle: u64) -> (r: Result<(), BridgeError>)
    requires
        old(reg).wf(),
    ensures
        final(reg).wf(),
        final(reg).handle_bound() == old(reg).handle_bound(),
        r is Ok <==> old(reg).table().contains_key(handle),
        r is Ok ==> final(reg).table() == old(reg).table().remove(handle),
        r is Err ==> r == Err::<(), BridgeError>(BridgeError::InvalidHandle)
            && final(reg).table() == old(reg).table(),
        frame_except(old(reg).table(), final(reg).table(), handle),
{
    let r = reg.free(handle);
    proof {
        assert forall|h2: u64|
            h2 != handle implies #[trigger] entry_unchanged(old(reg).table(), reg.table(), h2) by {}
    }
    r
}

/// Entry point: read a key through a view of either kind. Never mutates
/// anything; fails with `InvalidHandle` exactly when the handle does not
/// resolve as a view.
pub fn read_key(reg: &Registry, handle: u64, key: &Vec<u8>) -> (r: Result<
    Option<Vec<u8>>,
    BridgeError,
>)
    requires
        reg.wf(),
    ensures
        r is Ok <==> resolves_view(reg.table(), handle),
        r matches Ok(v) ==> match v {
            Some(b) => reg.table()[handle].resource.visible().contains_key(key@) && b@
                == reg.table()[handle].resource.visible()[key@],
            None => !reg.table()[handle].resource.visible().contains_key(key@),
        },
        r is Err ==> r == Err::<Option<Vec<u8>>, BridgeError>(BridgeError::InvalidHandle),
{
    match reg.resolve(handle, VIEW_TAG) {
        Ok(view) => match view {
            StorageView::Snapshot(s) => Ok(s.get(key)),
            StorageView::Fork(f) => Ok(f.get(key)),
        },
        Err(e) => Err(e),
    }
}

/// Resolve `handle` as a fork and record one change in it. The shared body
/// of the write and remove entry points.
fn update_fork(reg: &mut Registry, handle: u64, key: Vec<u8>, change: Option<Vec<u8>>) -> (r:
    Result<(), BridgeError>)
    requires
        old(reg).wf(),
    ensures
        final(reg).wf(),
        final(reg).handle_bound() == old(reg).handle_bound(),
        r is Ok <==> resolves_fork(old(reg).table(), handle),
        r == Err::<(), BridgeError>(BridgeError::WrongViewKind) <==> resolves_view(
            old(reg).table(),
            handle,
        ) && old(reg).table()[handle].resource is Snapshot,
        r == Err::<(), BridgeError>(BridgeError::InvalidHandle) <==> !resolves_view(
            old(reg).table(),
            handle,
        ),
        r is Err ==> final(reg).table() == old(reg).table(),
        r is Ok ==> resolves_fork(final(reg).table(), handle)
            && final(reg).table()[handle].resource->Fork_0.base_map()
            == old(reg).table()[handle].resource->Fork_0.base_map()
            && final(reg).table()[handle].resource->Fork_0.change_map()
            == old(reg).table()[handle].resource->Fork_0.change_map().insert(
            key@,
            opt_bytes(change),
        ) && frame_except(old(reg).table(), final(reg).table(), handle),
{
    match reg.take(handle) {
        None => Err(BridgeError::InvalidHandle),
        Some(entry) => {
            if entry.tag != VIEW_TAG {
                reg.restore(handle, entry);
                proof {
                    assert(reg.table() =~= old(reg).table());
                }
                Err(BridgeError::InvalidHandle)
            } else {
                match entry.resource {
                    StorageView::Snapshot(s) => {
                        reg.restore(
                            handle,
                            RegistryEntry { tag: VIEW_TAG, resource: StorageView::Snapshot(s) },
                        );
                        proof {
                            assert(reg.table() =~= old(reg).table());
                        }
                        Err(BridgeError::WrongViewKind)
                    },
                    StorageView::Fork(mut f) => {
                        f.set_change(key, change);
                        reg.restore(
                            handle,
                            RegistryEntry { tag: VIEW_TAG, resource: StorageView::Fork(f) },
                        );
                        proof {
                            assert forall|h2: u64|
                                h2 != handle implies #[trigger] entry_unchanged(
                                old(reg).table(),
                                reg.table(),
                                h2,
                            ) by {}
                        }
                        Ok(())
                    },
                }
            }
        },
    }
}

/// Entry point: buffer a write in the fork `handle` refers to. A snapshot
/// handle fails with `WrongViewKind`, an unresolvable one with
/// `InvalidHandle`, and on any error nothing is mutated.
pub fn write_key(reg: &mut Registry, handle: u64, key: Vec<u8>, value: Vec<u8>) -> (r: Result<
    (),
    BridgeError,
>)
    requires
        old(reg).wf(),
    ensures
        final(reg).wf(),
        final(reg).handle_bound() == old(reg).handle_bound(),
        r is Ok <==> resolves_fork(old(reg).table(), handle),
        r == Err::<(), BridgeError>(BridgeError::WrongViewKind) <==> resolves_view(
            old(reg).table(),
            handle,
        ) && old(reg).table()[handle].resource is Snapshot,
        r == Err::<(), BridgeError>(BridgeError::InvalidHandle) <==> !resolves_view(
            old(reg).table(),
            handle,
        ),
        r is Err ==> final(reg).table() == old(reg).table(),
        r is Ok ==> resolves_fork(final(reg).table(), handle)
            && final(reg).table()[handle].resource->Fork_0.base_map()
            == old(reg).table()[handle].resource->Fork_0.base_map()
            && final(reg).table()[handle].resource->Fork_0.change_map()
            == old(reg).table()[handle].resource->Fork_0.change_map().insert(key@, Some(value@))
            && frame_except(old(reg).table(), final(reg).table(), handle),
{
    update_fork(reg, handle, key, Some(value))
}

/// Entry point: buffer a removal in the fork `handle` refers to. A snapshot
/// handle fails with `WrongViewKind`, an unresolvable one with
/// `InvalidHandle`, and on any error nothing is mutated.
pub fn remove_key(reg: &mut Registry, handle: u64, key: Vec<u8>) -> (r: Result<(), BridgeError>)
    requires
        old(reg).wf(),
    ensures
        final(reg).wf(),
        final(reg).handle_bound() == old(reg).handle_bound(),
        r is Ok <==> resolves_fork(old(reg).table(), handle),
        r == Err::<(), BridgeError>(BridgeError::WrongViewKind) <==> resolves_view(
            old(reg).table(),
            handle,
        ) && old(reg).table()[handle].resource is Snapshot,
        r == Err::<(), BridgeError>(BridgeError::InvalidHandle) <==> !resolves_view(
            old(reg).table(),
            handle,
        ),
        r is Err ==> final(reg).table() == old(reg).table(),
        r is Ok ==> resolves_fork(final(reg).table(), handle)
            && final(reg).table()[handle].resource->Fork_0.base_map()
            == old(reg).table()[handle].resource->Fork_0.base_map()
            && final(reg).table()[handle].resource->Fork_0.change_map()
            == old(reg).table()[handle].resource->Fork_0.change_map().insert(key@, None)
            && frame_except(old(reg).table(), final(reg).table(), handle),
{
    update_fork(reg, handle, key, None)
}

/// Entry point: the fork's terminal transition. On success the fork's
/// accumulated changes come back as an immutable patch and the handle is
/// retired: it will never resolve again, so a second commit — like any
/// other use of it — fails with `InvalidHandle` and produces no second
/// patch. On any error nothing is mutated.
pub fn commit_fork(reg: &mut Registry, handle: u64) -> (r: Result<Patch, BridgeError>)
    requires
        old(reg).wf(),
    ensures
        final(reg).wf(),
        final(reg).handle_bound() == old(reg).handle_bound(),
        r is Ok <==> resolves_fork(old(reg).table(), handle),
        r == Err::<Patch, BridgeError>(BridgeError::WrongViewKind) <==> resolves_view(
            old(reg).table(),
            handle,
        ) && old(reg).table()[handle].resource is Snapshot,
        r == Err::<Patch, BridgeError>(BridgeError::InvalidHandle) <==> !resolves_view(
            old(reg).table(),
            handle,
        ),
        r is Err ==> final(reg).table() == old(reg).table(),
        r matches Ok(p) ==> p.wf() && p@ == old(reg).table()[handle].resource->Fork_0.change_map()
            && final(reg).table() == old(reg).table().remove(handle)
            && !final(reg).table().contains_key(handle)
            && frame_except(old(reg).table(), final(reg).table(), handle),
{
    match reg.take(handle) {
        None => Err(BridgeError::InvalidHandle),
        Some(entry) => {
            if entry.tag != VIEW_TAG {
                reg.restore(handle, entry);
                proof {
                    assert(reg.table() =~= old(reg).table());
                }
                Err(BridgeError::InvalidHandle)
            } else {
                match entry.resource {
                    StorageView::Snapshot(s) => {
                        reg.restore(
                            handle,
                            RegistryEntry { tag: VIEW_TAG, resource: StorageView::Snapshot(s) },
                        );
                        proof {
                            assert(reg.table() =~= old(reg).table());
                        }
                        Err(BridgeError::WrongViewKind)
                    },
                    StorageView::Fork(f) => {
                        let patch = f.into_patch();
                        proof {
                            assert forall|h2: u64|
                                h2 != handle implies #[trigger] entry_unchanged(
                                old(reg).table(),
                                reg.table(),
                                h2,
                            ) by {}
                        }
                        Ok(patch)
                    },
                }
            }
        },
    }
}

/// A snapshot taken before a fork's writes never observes them: a write, a
/// removal or a commit changes at most the fork's own entry, and the
/// snapshot's entry — its data was copied when it was taken — stays exactly
/// as it was, so everything read through the snapshot does too. Applying the
/// committed patch to the [`Database`] touches no registry entry at all.
pub proof fn lemma_snapshot_isolation(
    pre: Map<u64, RegistryEntry>,
    post: Map<u64, RegistryEntry>,
    fork_handle: u64,
    snap_handle: u64,
)
    requires
        frame_except(pre, post, fork_handle),
        snap_handle != fork_handle,
        pre.contains_key(snap_handle),
    ensures
        post.contains_key(snap_handle),
        post[snap_handle] == pre[snap_handle],
        post[snap_handle].resource.visible() == pre[snap_handle].resource.visible(),
{
    assert(entry_unchanged(pre, post, snap_handle));
}

/// A handle retired from the table — freed, or consumed by a commit — never
/// resolves again, neither as a view nor as a fork: with the `InvalidHandle`
/// conditions of the entry points, every later use of it fails and mutates
/// nothing.
pub proof fn lemma_retired_handle_never_resolves(m: Map<u64, RegistryEntry>, h: u64)
    ensures
        !m.remove(h).contains_key(h),
        !resolves_view(m.remove(h), h),
        !resolves_fork(m.remove(h), h),
{
}

} // verus!
