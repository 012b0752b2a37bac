use resource_bridge::boundary::{seal_outcome, stub_value, EntryPoint, ReturnValue};
use resource_bridge::dispatch::{
    commit_fork, create_fork_view, create_snapshot_view, free_view, read_key, remove_key,
    write_key, VIEW_TAG,
};
use resource_bridge::errors::BridgeError;
use resource_bridge::registry::Registry;
use resource_bridge::views::Database;

fn bytes(s: &str) -> Vec<u8> {
    s.as_bytes().to_vec()
}

#[test]
fn double_free_raises_invalid_handle_second_time() {
    let mut reg = Registry::new();
    let db = Database::new();
    let h = create_snapshot_view(&mut reg, &db);
    assert!(free_view(&mut reg, h).is_ok());
    let second = free_view(&mut reg, h);
    assert!(matches!(second, Err(BridgeError::InvalidHandle)));
    // The registry is not corrupted: it keeps serving fresh handles.
    let h2 = create_snapshot_view(&mut reg, &db);
    assert_ne!(h, h2);
    assert!(read_key(&reg, h2, &bytes("a")).is_ok());
    assert!(free_view(&mut reg, h2).is_ok());
}

#[test]
fn resolving_freed_handle_raises_invalid_handle() {
    let mut reg = Registry::new();
    let db = Database::new();
    let h = create_fork_view(&mut reg, &db);
    assert!(free_view(&mut reg, h).is_ok());
    assert!(matches!(read_key(&reg, h, &bytes("a")), Err(BridgeError::InvalidHandle)));
    assert!(matches!(
        write_key(&mut reg, h, bytes("a"), bytes("1")),
        Err(BridgeError::InvalidHandle)
    ));
    assert!(matches!(commit_fork(&mut reg, h), Err(BridgeError::InvalidHandle)));
}

#[test]
fn write_through_snapshot_raises_wrong_view_kind() {
    let mut reg = Registry::new();
    let db = Database::new();
    let h = create_snapshot_view(&mut reg, &db);
    let w = write_key(&mut reg, h, bytes("a"), bytes("1"));
    assert!(matches!(w, Err(BridgeError::WrongViewKind)));
    let r = remove_key(&mut reg, h, bytes("a"));
    assert!(matches!(r, Err(BridgeError::WrongViewKind)));
    let c = commit_fork(&mut reg, h);
    assert!(matches!(c, Err(BridgeError::WrongViewKind)));
    // No mutation happened: the snapshot still resolves and still reads empty.
    assert_eq!(read_key(&reg, h, &bytes("a")).unwrap(), None);
}

#[test]
fn wrong_tag_raises_invalid_handle_not_reinterpretation() {
    let mut reg = Registry::new();
    let db = Database::new();
    let snap = db.create_snapshot();
    let other_tag = VIEW_TAG + 1;
    let h = reg.allocate(
        other_tag,
        resource_bridge::views::StorageView::Snapshot(snap),
    );
    // The entry is live, but it was not registered as a storage view.
    assert!(matches!(read_key(&reg, h, &bytes("a")), Err(BridgeError::InvalidHandle)));
    assert!(reg.resolve(h, other_tag).is_ok());
    assert!(reg.resolve(h, VIEW_TAG).is_err());
    assert!(free_view(&mut reg, h).is_ok());
}

#[test]
fn fault_surfaces_as_native_fault_with_declared_stub() {
    let entries = [
        EntryPoint::CreateSnapshot,
        EntryPoint::CreateFork,
        EntryPoint::FreeView,
        EntryPoint::ReadKey,
        EntryPoint::WriteKey,
        EntryPoint::RemoveKey,
        EntryPoint::CommitFork,
    ];
    for entry in entries {
        let (value, err) = seal_outcome(entry, None, String::from("invariant violated"));
        match err {
            Some(BridgeError::NativeFault { message }) => {
                assert_eq!(message, "invariant violated");
            }
            _ => panic!("a captured fault must surface as NativeFault"),
        }
        match (entry, value) {
            (EntryPoint::CreateSnapshot, ReturnValue::HandleValue(h)) => assert_eq!(h, 0),
            (EntryPoint::CreateFork, ReturnValue::HandleValue(h)) => assert_eq!(h, 0),
            (EntryPoint::FreeView, ReturnValue::NoValue) => {}
            (EntryPoint::ReadKey, ReturnValue::MaybeValue(v)) => assert_eq!(v, None),
            (EntryPoint::WriteKey, ReturnValue::NoValue) => {}
            (EntryPoint::RemoveKey, ReturnValue::NoValue) => {}
            (EntryPoint::CommitFork, ReturnValue::PatchValue(p)) => {
                assert_eq!(p.change_count(), 0)
            }
            _ => panic!("stub value of the wrong shape"),
        }
    }
}

#[test]
fn seal_outcome_passes_results_and_errors_through() {
    let (value, err) = seal_outcome(
        EntryPoint::ReadKey,
        Some(Ok(ReturnValue::MaybeValue(Some(bytes("1"))))),
        String::new(),
    );
    assert!(err.is_none());
    assert!(matches!(value, ReturnValue::MaybeValue(Some(v)) if v == bytes("1")));

    let (value, err) = seal_outcome(
        EntryPoint::WriteKey,
        Some(Err(BridgeError::InvalidHandle)),
        String::new(),
    );
    assert!(matches!(value, ReturnValue::NoValue));
    assert!(matches!(err, Some(BridgeError::InvalidHandle)));

    let (value, err) = seal_outcome(
        EntryPoint::CommitFork,
        Some(Err(BridgeError::StorageError {
            message: String::from("disk unavailable"),
        })),
        String::new(),
    );
    assert!(matches!(value, ReturnValue::PatchValue(_)));
    assert!(matches!(err, Some(BridgeError::StorageError { message }) if message == "disk unavailable"));
}

#[test]
fn stub_values_have_declared_shapes() {
    assert!(matches!(stub_value(EntryPoint::CreateSnapshot), ReturnValue::HandleValue(0)));
    assert!(matches!(stub_value(EntryPoint::CreateFork), ReturnValue::HandleValue(0)));
    assert!(matches!(stub_value(EntryPoint::FreeView), ReturnValue::NoValue));
    assert!(matches!(stub_value(EntryPoint::ReadKey), ReturnValue::MaybeValue(None)));
    assert!(matches!(stub_value(EntryPoint::WriteKey), ReturnValue::NoValue));
    assert!(matches!(stub_value(EntryPoint::RemoveKey), ReturnValue::NoValue));
    match stub_value(EntryPoint::CommitFork) {
        ReturnValue::PatchValue(p) => assert_eq!(p.change_count(), 0),
        _ => panic!("commit stub must be an empty patch"),
    }
}

#[test]
fn snapshot_never_observes_fork_writes() {
    let mut reg = Registry::new();
    let mut db = Database::new();
    let snap = create_snapshot_view(&mut reg, &db);
    let fork = create_fork_view(&mut reg, &db);
    assert!(write_key(&mut reg, fork, bytes("a"), bytes("1")).is_ok());
    // Uncommitted writes are invisible through the snapshot.
    assert_eq!(read_key(&reg, snap, &bytes("a")).unwrap(), None);
    let patch = commit_fork(&mut reg, fork).unwrap();
    db.apply(&patch);
    // Even after commit and apply, the old snapshot reads the old state.
    assert_eq!(read_key(&reg, snap, &bytes("a")).unwrap(), None);
    // A snapshot taken after the apply sees the write.
    let snap2 = create_snapshot_view(&mut reg, &db);
    assert_eq!(read_key(&reg, snap2, &bytes("a")).unwrap(), Some(bytes("1")));
}

#[test]
fn commit_twice_raises_invalid_handle() {
    let mut reg = Registry::new();
    let db = Database::new();
    let fork = create_fork_view(&mut reg, &db);
    assert!(write_key(&mut reg, fork, bytes("a"), bytes("1")).is_ok());
    assert!(commit_fork(&mut reg, fork).is_ok());
    // The handle was invalidated by the first commit: no duplicated patch.
    let second = commit_fork(&mut reg, fork);
    assert!(matches!(second, Err(BridgeError::InvalidHandle)));
}

#[test]
fn handles_are_distinct_and_never_reissued() {
    let mut reg = Registry::new();
    let db = Database::new();
    let mut seen: Vec<u64> = Vec::new();
    for round in 0..10 {
        let h = if round % 2 == 0 {
            create_snapshot_view(&mut reg, &db)
        } else {
            create_fork_view(&mut reg, &db)
        };
        assert!(!seen.contains(&h), "a handle value was reissued");
        seen.push(h);
        if round % 3 == 0 {
            assert!(free_view(&mut reg, h).is_ok());
        }
    }
    // Every freed handle stays dead, every live one still resolves.
    for (round, h) in seen.iter().enumerate() {
        let r = read_key(&reg, *h, &bytes("a"));
        if round % 3 == 0 {
            assert!(matches!(r, Err(BridgeError::InvalidHandle)));
        } else {
            assert!(r.is_ok());
        }
    }
}

#[test]
fn commit_patch_roundtrip() {
    let mut reg = Registry::new();
    let mut db = Database::new();
    let fork = create_fork_view(&mut reg, &db);
    assert!(write_key(&mut reg, fork, bytes("a"), bytes("1")).is_ok());
    let patch = commit_fork(&mut reg, fork).unwrap();
    // The patch holds exactly one write: "a" -> "1".
    assert_eq!(patch.change_count(), 1);
    assert_eq!(patch.change_for(&bytes("a")), Some(Some(bytes("1"))));
    assert_eq!(patch.change_for(&bytes("b")), None);
    db.apply(&patch);
    let snap = create_snapshot_view(&mut reg, &db);
    assert_eq!(read_key(&reg, snap, &bytes("a")).unwrap(), Some(bytes("1")));
}

#[test]
fn removal_commits_as_tombstone() {
    let mut reg = Registry::new();
    let mut db = Database::new();
    let f1 = create_fork_view(&mut reg, &db);
    assert!(write_key(&mut reg, f1, bytes("a"), bytes("1")).is_ok());
    let p1 = commit_fork(&mut reg, f1).unwrap();
    db.apply(&p1);
    let f2 = create_fork_view(&mut reg, &db);
    assert!(remove_key(&mut reg, f2, bytes("a")).is_ok());
    let p2 = commit_fork(&mut reg, f2).unwrap();
    assert_eq!(p2.change_count(), 1);
    assert_eq!(p2.change_for(&bytes("a")), Some(None));
    db.apply(&p2);
    let snap = create_snapshot_view(&mut reg, &db);
    assert_eq!(read_key(&reg, snap, &bytes("a")).unwrap(), None);
}

#[test]
fn fork_reads_its_own_writes_and_reads_through() {
    let mut reg = Registry::new();
    let mut db = Database::new();
    let f1 = create_fork_view(&mut reg, &db);
    assert!(write_key(&mut reg, f1, bytes("base"), bytes("old")).is_ok());
    let p1 = commit_fork(&mut reg, f1).unwrap();
    db.apply(&p1);

    let fork = create_fork_view(&mut reg, &db);
    // Reads through to the base for keys it has not overwritten.
    assert_eq!(read_key(&reg, fork, &bytes("base")).unwrap(), Some(bytes("old")));
    // Sees its own buffered write.
    assert!(write_key(&mut reg, fork, bytes("base"), bytes("new")).is_ok());
    assert_eq!(read_key(&reg, fork, &bytes("base")).unwrap(), Some(bytes("new")));
    // Sees its own buffered removal.
    assert!(remove_key(&mut reg, fork, bytes("base")).is_ok());
    assert_eq!(read_key(&reg, fork, &bytes("base")).unwrap(), None);
    // The committed store is untouched while the fork buffers.
    let snap = create_snapshot_view(&mut reg, &db);
    assert_eq!(read_key(&reg, snap, &bytes("base")).unwrap(), Some(bytes("old")));
}

#[test]
fn last_write_per_key_wins_in_patch() {
    let mut reg = Registry::new();
    let db = Database::new();
    let fork = create_fork_view(&mut reg, &db);
    assert!(write_key(&mut reg, fork, bytes("a"), bytes("1")).is_ok());
    assert!(write_key(&mut reg, fork, bytes("a"), bytes("2")).is_ok());
    assert!(write_key(&mut reg, fork, bytes("b"), bytes("3")).is_ok());
    let patch = commit_fork(&mut reg, fork).unwrap();
    assert_eq!(patch.change_count(), 2);
    assert_eq!(patch.change_for(&bytes("a")), Some(Some(bytes("2"))));
    assert_eq!(patch.change_for(&bytes("b")), Some(Some(bytes("3"))));
}
