use resource_bridge::store::ChangeList;
use resource_bridge::views::Database;

fn bytes(s: &str) -> Vec<u8> {
    s.as_bytes().to_vec()
}

#[test]
fn change_list_records_and_reads_back() {
    let mut list = ChangeList::new();
    assert_eq!(list.entry_count(), 0);
    assert_eq!(list.lookup(&bytes("a")), None);
    list.set(bytes("a"), Some(bytes("1")));
    list.set(bytes("b"), None);
    assert_eq!(list.entry_count(), 2);
    assert_eq!(list.lookup(&bytes("a")), Some(Some(bytes("1"))));
    assert_eq!(list.lookup(&bytes("b")), Some(None));
    assert_eq!(list.read(&bytes("a")), Some(bytes("1")));
    // A recorded deletion and an absent key read the same.
    assert_eq!(list.read(&bytes("b")), None);
    assert_eq!(list.read(&bytes("c")), None);
    // Overwriting replaces, never duplicates.
    list.set(bytes("a"), Some(bytes("2")));
    assert_eq!(list.entry_count(), 2);
    assert_eq!(list.read(&bytes("a")), Some(bytes("2")));
}

#[test]
fn change_list_merge_prefers_the_merged_changes() {
    let mut base = ChangeList::new();
    base.set(bytes("a"), Some(bytes("1")));
    base.set(bytes("b"), Some(bytes("2")));
    let mut over = ChangeList::new();
    over.set(bytes("b"), Some(bytes("20")));
    over.set(bytes("c"), None);
    base.merge(&over);
    assert_eq!(base.read(&bytes("a")), Some(bytes("1")));
    assert_eq!(base.read(&bytes("b")), Some(bytes("20")));
    assert_eq!(base.lookup(&bytes("c")), Some(None));
}

#[test]
fn change_list_duplicate_is_independent() {
    let mut list = ChangeList::new();
    list.set(bytes("a"), Some(bytes("1")));
    let copy = list.duplicate();
    list.set(bytes("a"), Some(bytes("2")));
    assert_eq!(copy.read(&bytes("a")), Some(bytes("1")));
    assert_eq!(list.read(&bytes("a")), Some(bytes("2")));
}

#[test]
fn fork_buffers_and_commits_into_patch() {
    let mut db = Database::new();
    let mut fork = db.create_fork();
    fork.put(bytes("a"), bytes("1"));
    fork.put(bytes("b"), bytes("2"));
    fork.remove(bytes("b"));
    assert_eq!(fork.get(&bytes("a")), Some(bytes("1")));
    assert_eq!(fork.get(&bytes("b")), None);
    let patch = fork.into_patch();
    assert_eq!(patch.change_count(), 2);
    assert_eq!(patch.change_for(&bytes("a")), Some(Some(bytes("1"))));
    assert_eq!(patch.change_for(&bytes("b")), Some(None));
    db.apply(&patch);
    let snap = db.create_snapshot();
    assert_eq!(snap.get(&bytes("a")), Some(bytes("1")));
    assert_eq!(snap.get(&bytes("b")), None);
}

#[test]
fn snapshot_data_is_copied_when_taken() {
    let mut db = Database::new();
    let mut fork = db.create_fork();
    fork.put(bytes("k"), bytes("v"));
    let before = db.create_snapshot();
    db.apply(&fork.into_patch());
    let after = db.create_snapshot();
    assert_eq!(before.get(&bytes("k")), None);
    assert_eq!(after.get(&bytes("k")), Some(bytes("v")));
}
