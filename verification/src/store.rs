use vstd::prelude::*;

verus! {

/// The view of one recorded change: `None` records a deletion.
pub open spec fn opt_bytes(v: Option<Vec<u8>>) -> Option<Seq<u8>> {
    match v {
        Some(b) => Some(b@),
        None => None,
    }
}

/// The map described by a sequence of `(key, change)` pairs, a later pair
/// overriding an earlier one with the same key.
pub open spec fn entries_map(s: Seq<(Vec<u8>, Option<Vec<u8>>)>) -> Map<Seq<u8>, Option<Seq<u8>>>
    decreases s.len(),
{
    if s.len() == 0 {
        Map::<Seq<u8>, Option<Seq<u8>>>::empty()
    } else {
        entries_map(s.drop_last()).insert(s.last().0@, opt_bytes(s.last().1))
    }
}

/// Some pair of `s` has key `k`.
pub open spec fn has_key(s: Seq<(Vec<u8>, Option<Vec<u8>>)>, k: Seq<u8>) -> bool {
    exists|i: int| 0 <= i < s.len() && s[i].0@ == k
}

/// No two pairs of `s` share a key.
pub open spec fn unique_keys(s: Seq<(Vec<u8>, Option<Vec<u8>>)>) -> bool {
    forall|i: int, j: int| 0 <= i < j < s.len() ==> s[i].0@ != s[j].0@
}

/// The bindings a reader sees in a change map: keys bound to a value, with
/// deletion records dropped.
pub open spec fn present(m: Map<Seq<u8>, Option<Seq<u8>>>) -> Map<Seq<u8>, Seq<u8>> {
    Map::<Seq<u8>, Seq<u8>>::new(
        |k: Seq<u8>| m.contains_key(k) && m[k] is Some,
        |k: Seq<u8>| m[k]->0,
    )
}

/// A sequence of pairs describes a map whose domain is exactly the keys of
/// the pairs.
pub proof fn lemma_entries_map_contains(s: Seq<(Vec<u8>, Option<Vec<u8>>)>, k: Seq<u8>)
    ensures
        entries_map(s).contains_key(k) <==> has_key(s, k),
    decreases s.len(),
{
    if s.len() == 0 {
    } else {
        lemma_entries_map_contains(s.drop_last(), k);
        if s.last().0@ == k {
            assert(s[s.len() - 1].0@ == k);
        } else {
            if has_key(s, k) {
                let i = choose|i: int| 0 <= i < s.len() && s[i].0@ == k;
                assert(i < s.len() - 1);
                assert(s.drop_last()[i] == s[i]);
                assert(has_key(s.drop_last(), k));
            }
            if has_key(s.drop_last(), k) {
                let i = choose|i: int|
                    0 <= i < s.drop_last().len() && s.drop_last()[i].0@ == k;
                assert(s[i].0@ == k);
            }
        }
    }
}

/// Dropping the last pair keeps the keys distinct.
pub proof fn lemma_unique_drop_last(s: Seq<(Vec<u8>, Option<Vec<u8>>)>)
    requires
        unique_keys(s),
        s.len() > 0,
    ensures
        unique_keys(s.drop_last()),
{
    assert forall|i: int, j: int|
        0 <= i < j < s.drop_last().len() implies s.drop_last()[i].0@ != s.drop_last()[j].0@ by {
        assert(s.drop_last()[i] == s[i]);
        assert(s.drop_last()[j] == s[j]);
    }
}

/// With distinct keys, the map binds each pair's key to that pair's change.
pub proof fn lemma_entries_map_index(s: Seq<(Vec<u8>, Option<Vec<u8>>)>, i: int)
    requires
        unique_keys(s),
        0 <= i < s.len(),
    ensures
        entries_map(s).contains_key(s[i].0@),
        entries_map(s)[s[i].0@] == opt_bytes(s[i].1),
    decreases s.len(),
{
    if i == s.len() - 1 {
        assert(s.last() == s[i]);
    } else {
        lemma_unique_drop_last(s);
        lemma_entries_map_index(s.drop_last(), i);
        assert(s.drop_last()[i] == s[i]);
        assert(s[i].0@ != s[s.len() - 1].0@);
        assert(s.last() == s[s.len() - 1]);
    }
}

/// Replacing the change of one pair, key kept, turns the map into an insert
/// at that key.
pub proof fn lemma_entries_map_update(
    s: Seq<(Vec<u8>, Option<Vec<u8>>)>,
    i: int,
    p: (Vec<u8>, Option<Vec<u8>>),
)
    requires
        unique_keys(s),
        0 <= i < s.len(),
        p.0@ == s[i].0@,
    ensures
        entries_map(s.update(i, p)) == entries_map(s).insert(p.0@, opt_bytes(p.1)),
        unique_keys(s.update(i, p)),
    decreases s.len(),
{
    let u = s.update(i, p);
    assert forall|a: int, b: int| 0 <= a < b < u.len() implies u[a].0@ != u[b].0@ by {
        assert(s[a].0@ != s[b].0@);
    }
    if i == s.len() - 1 {
        assert(u.drop_last() =~= s.drop_last());
        assert(u.last() == p);
        assert(entries_map(s).insert(p.0@, opt_bytes(p.1)) =~= entries_map(
            s.drop_last(),
        ).insert(p.0@, opt_bytes(p.1)));
    } else {
        lemma_unique_drop_last(s);
        assert(u.drop_last() =~= s.drop_last().update(i, p));
        assert(u.last() == s.last());
        assert(s.drop_last()[i] == s[i]);
        lemma_entries_map_update(s.drop_last(), i, p);
        assert(s.last() == s[s.len() - 1]);
        assert(p.0@ != s.last().0@);
        assert(entries_map(s.drop_last()).insert(p.0@, opt_bytes(p.1)).insert(
            s.last().0@,
            opt_bytes(s.last().1),
        ) =~= entries_map(s.drop_last()).insert(s.last().0@, opt_bytes(s.last().1)).insert(
            p.0@,
            opt_bytes(p.1),
        ));
    }
}

/// With distinct keys, the map has exactly one binding per pair.
pub proof fn lemma_entries_map_dom_len(s: Seq<(Vec<u8>, Option<Vec<u8>>)>)
    requires
        unique_keys(s),
    ensures
        entries_map(s).dom().finite(),
        entries_map(s).dom().len() == s.len(),
    decreases s.len(),
{
    if s.len() == 0 {
        assert(entries_map(s).dom() =~= Set::<Seq<u8>>::empty());
    } else {
        lemma_unique_drop_last(s);
        lemma_entries_map_dom_len(s.drop_last());
        lemma_entries_map_contains(s.drop_last(), s.last().0@);
        assert(!has_key(s.drop_last(), s.last().0@)) by {
            if has_key(s.drop_last(), s.last().0@) {
                let j = choose|j: int|
                    0 <= j < s.drop_last().len() && s.drop_last()[j].0@ == s.last().0@;
                assert(s.drop_last()[j] == s[j]);
                assert(s.last() == s[s.len() - 1]);
                assert(false);
            }
        };
        assert(entries_map(s).dom() =~= entries_map(s.drop_last()).dom().insert(s.last().0@));
    }
}

/// Byte strings compare equal exactly when their contents do.
fn bytes_eq(a: &Vec<u8>, b: &Vec<u8>) -> (r: bool)
    ensures
        r == (a@ == b@),
{
    if a.len() != b.len() {
        assert(a@.len() != b@.len());
        return false;
    }
    let n = a.len();
    let mut i: usize = 0;
    while i < n
        invariant
            n == a@.len(),
            n == b@.len(),
            i <= n,
            forall|j: int| 0 <= j < i ==> a@[j] == b@[j],
        decreases n - i,
    {
        if a[i] != b[i] {
            return false;
        }
        i = i + 1;
    }
    proof {
        assert(a@ =~= b@);
    }
    true
}

/// A fresh byte string with the same contents.
fn clone_bytes(v: &Vec<u8>) -> (r: Vec<u8>)
    ensures
        r@ == v@,
{
    let n = v.len();
    let mut r: Vec<u8> = Vec::new();
    let mut i: usize = 0;
    while i < n
        invariant
            n == v@.len(),
            i <= n,
            r@ == v@.take(i as int),
        decreases n - i,
    {
        r.push(v[i]);
        proof {
            assert(v@.take(i as int).push(v@[i as int]) =~= v@.take(i as int + 1));
        }
        i = i + 1;
    }
    proof {
        assert(v@.take(n as int) =~= v@);
    }
    r
}

/// A fresh change with the same view.
fn clone_change(v: &Option<Vec<u8>>) -> (r: Option<Vec<u8>>)
    ensures
        opt_bytes(r) == opt_bytes(*v),
{
    match v {
        Some(b) => Some(clone_bytes(b)),
        None => None,
    }
}

/// A key/value table with explicit deletion records: the one storage shape
/// every part of this crate is built on. The committed store, a snapshot's
/// data, the changes a fork buffers and the patch a commit produces are all
/// change lists; their common view is a map from key to recorded change.
#[derive(Debug)]
pub struct ChangeList {
    entries: Vec<(Vec<u8>, Option<Vec<u8>>)>,
}

impl View for ChangeList {
    type V = Map<Seq<u8>, Option<Seq<u8>>>;

    closed spec fn view(&self) -> Map<Seq<u8>, Option<Seq<u8>>> {
        entries_map(self.entries@)
    }
}

impl ChangeList {
    /// Each key is recorded at most once.
    pub closed spec fn wf(self) -> bool {
        unique_keys(self.entries@)
    }

    /// An empty table.
    pub fn new() -> (r: ChangeList)
        ensures
            r.wf(),
            r@ == Map::<Seq<u8>, Option<Seq<u8>>>::empty(),
    {
        ChangeList { entries: Vec::new() }
    }

    /// The index of the pair recording `key`, if one does.
    fn position_of(&self, key: &Vec<u8>) -> (r: Option<usize>)
        ensures
            match r {
                Some(i) => i < self.entries@.len() && self.entries@[i as int].0@ == key@,
                None => !has_key(self.entries@, key@),
            },
    {
        let n = self.entries.len();
        let mut i: usize = 0;
        while i < n
            invariant
                n == self.entries@.len(),
                i <= n,
                forall|j: int| 0 <= j < i ==> self.entries@[j].0@ != key@,
            decreases n - i,
        {
            if bytes_eq(&self.entries[i].0, key) {
                return Some(i);
            }
            i = i + 1;
        }
        None
    }

    /// The change recorded for `key`: a value, a deletion, or nothing.
    pub fn lookup(&self, key: &Vec<u8>) -> (r: Option<Option<Vec<u8>>>)
        requires
            self.wf(),
        ensures
            match r {
                Some(change) => self@.contains_key(key@) && opt_bytes(change) == self@[key@],
                None => !self@.contains_key(key@),
            },
    {
        proof {
            lemma_entries_map_contains(self.entries@, key@);
        }
        match self.position_of(key) {
            Some(i) => {
                proof {
                    lemma_entries_map_index(self.entries@, i as int);
                }
                Some(clone_change(&self.entries[i].1))
            },
            None => None,
        }
    }

    /// The value a reader sees for `key`: a recorded deletion and an absent
    /// key read the same.
    pub fn read(&self, key: &Vec<u8>) -> (r: Option<Vec<u8>>)
        requires
            self.wf(),
        ensures
            match r {
                Some(v) => present(self@).contains_key(key@) && v@ == present(self@)[key@],
                None => !present(self@).contains_key(key@),
            },
    {
        match self.lookup(key) {
            Some(change) => change,
            None => None,
        }
    }

    /// Record `change` for `key`, replacing whatever was recorded before.
    pub fn set(&mut self, key: Vec<u8>, change: Option<Vec<u8>>)
        requires
            old(self).wf(),
        ensures
            final(self).wf(),
            final(self)@ == old(self)@.insert(key@, opt_bytes(change)),
    {
        let ghost s0 = self.entries@;
        match self.position_of(&key) {
            Some(i) => {
                proof {
                    lemma_entries_map_update(s0, i as int, (s0[i as int].0, change));
                }
                let e = &mut self.entries[i];
                e.1 = change;
                proof {
                    assert(self.entries@ == s0.update(i as int, (s0[i as int].0, change)));
                }
            },
            None => {
                self.entries.push((key, change));
                proof {
                    assert(self.entries@.drop_last() =~= s0);
                    assert forall|a: int, b: int|
                        0 <= a < b < self.entries@.len() implies self.entries@[a].0@
                        != self.entries@[b].0@ by {
                        if b == self.entries@.len() - 1 {
                            assert(!(0 <= a < s0.len() && s0[a].0@ == key@));
                        } else {
                            assert(s0[a].0@ != s0[b].0@);
                        }
                    }
                }
            },
        }
    }

    /// Record every change of `other` over the changes already here; on a
    /// shared key, `other` wins.
    pub fn merge(&mut self, other: &ChangeList)
        requires
            old(self).wf(),
        ensures
            final(self).wf(),
            final(self)@ == old(self)@.union_prefer_right(other@),
    {
        let n = other.entries.len();
        let mut i: usize = 0;
        while i < n
            invariant
                n == other.entries@.len(),
                i <= n,
                self.wf(),
                self@ == old(self)@.union_prefer_right(
                    entries_map(other.entries@.take(i as int)),
                ),
            decreases n - i,
        {
            let k = clone_bytes(&other.entries[i].0);
            let v = clone_change(&other.entries[i].1);
            self.set(k, v);
            proof {
                assert(other.entries@.take(i as int + 1).drop_last() =~= other.entries@.take(
                    i as int,
                ));
                assert(other.entries@.take(i as int + 1).last() == other.entries@[i as int]);
                assert(self@ =~= old(self)@.union_prefer_right(
                    entries_map(other.entries@.take(i as int + 1)),
                ));
            }
            i = i + 1;
        }
        proof {
            assert(other.entries@.take(n as int) =~= other.entries@);
        }
    }

    /// A fresh table with the same view.
    pub fn duplicate(&self) -> (r: ChangeList)
        requires
            self.wf(),
        ensures
            r.wf(),
            r@ == self@,
    {
        let n = self.entries.len();
        let mut entries: Vec<(Vec<u8>, Option<Vec<u8>>)> = Vec::new();
        let mut i: usize = 0;
        while i < n
            invariant
                n == self.entries@.len(),
                i <= n,
                entries@.len() == i,
                unique_keys(self.entries@),
                forall|j: int| 0 <= j < i ==> entries@[j].0@ == self.entries@[j].0@,
                entries_map(entries@) == entries_map(self.entries@.take(i as int)),
            decreases n - i,
        {
            let k = clone_bytes(&self.entries[i].0);
            let v = clone_change(&self.entries[i].1);
            let ghost pre = entries@;
            entries.push((k, v));
            proof {
                assert(entries@.drop_last() =~= pre);
                assert(self.entries@.take(i as int + 1).drop_last() =~= self.entries@.take(
                    i as int,
                ));
                assert(self.entries@.take(i as int + 1).last() == self.entries@[i as int]);
            }
            i = i + 1;
        }
        proof {
            assert(self.entries@.take(n as int) =~= self.entries@);
        }
        let r = ChangeList { entries };
        proof {
            assert forall|a: int, b: int|
                0 <= a < b < r.entries@.len() implies r.entries@[a].0@ != r.entries@[b].0@ by {
                assert(self.entries@[a].0@ != self.entries@[b].0@);
            }
        }
        r
    }

    /// How many keys have a recorded change.
    pub fn entry_count(&self) -> (n: usize)
        requires
            self.wf(),
        ensures
            n as nat == self@.dom().len(),
    {
        proof {
            lemma_entries_map_dom_len(self.entries@);
        }
        self.entries.len()
    }
}

} // verus!
