//! In-memory entry store: the model of the external key/value collaborator.
//!
//! The protocol handlers are verified against this store. It implements the
//! exact contract the external store exposes — create fails on an existing
//! key, read/update/delete fail distinguishably on a missing one — and its
//! contents are viewed as a `Map` from key bytes to value bytes. The external
//! store's blocking `read_or_wait` is modelled by a read whose precondition
//! is the condition under which a blocked task resumes: the key exists.

use vstd::prelude::*;

use crate::params::ProtoError;

verus! {

/// One stored entry: a fully-qualified key and its byte-blob value.
struct StoredEntry {
    key: Vec<u8>,
    value: Vec<u8>,
}

/// No two entries share a key.
spec fn keys_distinct(s: Seq<StoredEntry>) -> bool {
    forall|i: int, j: int| 0 <= i < j < s.len() ==> s[i].key@ != s[j].key@
}

/// The map an entry sequence denotes; later entries win, but under
/// `keys_distinct` there is exactly one entry per key.
spec fn entries_map(s: Seq<StoredEntry>) -> Map<Seq<u8>, Seq<u8>>
    decreases s.len(),
{
    if s.len() == 0 {
        Map::empty()
    } else {
        entries_map(s.drop_last()).insert(s.last().key@, s.last().value@)
    }
}

proof fn lemma_map_domain(s: Seq<StoredEntry>, k: Seq<u8>)
    ensures
        entries_map(s).contains_key(k) <==> exists|i: int| 0 <= i < s.len() && s[i].key@ == k,
    decreases s.len(),
{
    if s.len() == 0 {
    } else {
        let dl = s.drop_last();
        lemma_map_domain(dl, k);
        if s.last().key@ == k {
            assert(s[s.len() - 1].key@ == k);
        } else {
            if entries_map(s).contains_key(k) {
                let i = choose|i: int| 0 <= i < dl.len() && dl[i].key@ == k;
                assert(s[i].key@ == k);
            }
            if exists|i: int| 0 <= i < s.len() && s[i].key@ == k {
                let i = choose|i: int| 0 <= i < s.len() && s[i].key@ == k;
                assert(i < s.len() - 1);
                assert(dl[i].key@ == k);
            }
        }
    }
}

proof fn lemma_distinct_drop_last(s: Seq<StoredEntry>)
    requires
        keys_distinct(s),
        s.len() > 0,
    ensures
        keys_distinct(s.drop_last()),
{
    let dl = s.drop_last();
    assert forall|i: int, j: int| 0 <= i < j < dl.len() implies dl[i].key@ != dl[j].key@ by {
        assert(s[i].key@ != s[j].key@);
    }
}

proof fn lemma_map_value(s: Seq<StoredEntry>, i: int)
    requires
        keys_distinct(s),
        0 <= i < s.len(),
    ensures
        entries_map(s).contains_key(s[i].key@),
        entries_map(s)[s[i].key@] == s[i].value@,
    decreases s.len(),
{
    if i == s.len() - 1 {
    } else {
        let dl = s.drop_last();
        lemma_distinct_drop_last(s);
        assert(dl[i] == s[i]);
        lemma_map_value(dl, i);
        assert(s[i].key@ != s.last().key@);
    }
}

proof fn lemma_map_remove(s: Seq<StoredEntry>, i: int)
    requires
        keys_distinct(s),
        0 <= i < s.len(),
    ensures
        entries_map(s.remove(i)) == entries_map(s).remove(s[i].key@),
    decreases s.len(),
{
    let k = s[i].key@;
    if i == s.len() - 1 {
        assert(s.remove(i) =~= s.drop_last());
        lemma_distinct_drop_last(s);
        lemma_map_domain(s.drop_last(), k);
        assert(!entries_map(s.drop_last()).contains_key(k)) by {
            if exists|j: int| 0 <= j < s.drop_last().len() && s.drop_last()[j].key@ == k {
                let j = choose|j: int| 0 <= j < s.drop_last().len() && s.drop_last()[j].key@ == k;
                assert(s[j].key@ != s[i].key@);
            }
        }
        assert(entries_map(s.remove(i)) =~= entries_map(s).remove(k));
    } else {
        let dl = s.drop_last();
        lemma_distinct_drop_last(s);
        assert(s.remove(i).drop_last() =~= dl.remove(i));
        assert(s.remove(i).last() == s.last());
        assert(keys_distinct(s.remove(i))) by {
            let r = s.remove(i);
            assert forall|a: int, b: int| 0 <= a < b < r.len() implies r[a].key@ != r[b].key@ by {
                let a2 = if a < i { a } else { a + 1 };
                let b2 = if b < i { b } else { b + 1 };
                assert(r[a] == s[a2]);
                assert(r[b] == s[b2]);
            }
        }
        lemma_map_remove(dl, i);
        assert(s.last().key@ != k);
        assert(entries_map(s.remove(i)) =~= entries_map(s).remove(k));
    }
}

/// The model entry store.
pub struct EntryStore {
    entries: Vec<StoredEntry>,
}

impl View for EntryStore {
    type V = Map<Seq<u8>, Seq<u8>>;

    closed spec fn view(&self) -> Map<Seq<u8>, Seq<u8>> {
        entries_map(self.entries@)
    }
}

impl EntryStore {
    /// Internal invariant: one entry per key.
    pub closed spec fn wf(&self) -> bool {
        keys_distinct(self.entries@)
    }

    /// An empty store.
    pub fn new() -> (s: Self)
        ensures
            s.wf(),
            s@ == Map::<Seq<u8>, Seq<u8>>::empty(),
    {
        EntryStore { entries: Vec::new() }
    }

    /// Index of the entry holding `key`, if any.
    fn find(&self, key: &Vec<u8>) -> (r: Option<usize>)
        requires
            self.wf(),
        ensures
            match r {
                Some(i) => i < self.entries@.len() && self.entries@[i as int].key@ == key@
                    && self@.contains_key(key@),
                None => !self@.contains_key(key@),
            },
    {
        let n = self.entries.len();
        let mut i: usize = 0;
        while i < n
            invariant
                n == self.entries@.len(),
                0 <= i <= n,
                self.wf(),
                forall|j: int| 0 <= j < i ==> self.entries@[j].key@ != key@,
            decreases n - i,
        {
            if self.entries[i].key == *key {
                proof {
                    lemma_map_value(self.entries@, i as int);
                }
                return Some(i);
            }
            i = i + 1;
        }
        proof {
            lemma_map_domain(self.entries@, key@);
        }
        None
    }

    /// Whether `key` is stored.
    pub fn contains(&self, key: &Vec<u8>) -> (b: bool)
        requires
            self.wf(),
        ensures
            b == self@.contains_key(key@),
    {
        self.find(key).is_some()
    }

    /// `create(key, value)`: stores a new entry, and fails — writing nothing —
    /// if the key already exists. Create is not idempotent by design.
    pub fn create(&mut self, key: &Vec<u8>, value: &Vec<u8>) -> (r: Result<(), ProtoError>)
        requires
            old(self).wf(),
        ensures
            final(self).wf(),
            r is Ok <==> !old(self)@.contains_key(key@),
            r is Err ==> r == Err::<(), ProtoError>(ProtoError::AlreadyExists)
                && final(self)@ == old(self)@,
            r is Ok ==> final(self)@ == old(self)@.insert(key@, value@),
    {
        match self.find(key) {
            Some(_) => Err(ProtoError::AlreadyExists),
            None => {
                let ghost s0 = self.entries@;
                let k = key.clone();
                let v = value.clone();
                assert(k@ =~= key@);
                assert(v@ =~= value@);
                self.entries.push(StoredEntry { key: k, value: v });
                proof {
                    assert(self.entries@.drop_last() =~= s0);
                    lemma_map_domain(s0, key@);
                    assert(keys_distinct(self.entries@)) by {
                        let s1 = self.entries@;
                        assert forall|i: int, j: int| 0 <= i < j < s1.len()
                            implies s1[i].key@ != s1[j].key@ by {
                            if j < s1.len() - 1 {
                                assert(s0[i].key@ != s0[j].key@);
                            } else {
                                assert(s1[i] == s0[i]);
                            }
                        }
                    }
                }
                Ok(())
            },
        }
    }

    /// `read(key)`: returns the stored bytes, or `NotFound` — distinguishably
    /// from any other failure — if the key is absent.
    pub fn read(&self, key: &Vec<u8>) -> (r: Result<Vec<u8>, ProtoError>)
        requires
            self.wf(),
        ensures
            r is Ok <==> self@.contains_key(key@),
            r is Err ==> r == Err::<Vec<u8>, ProtoError>(ProtoError::NotFound),
            r matches Ok(v) ==> v@ == self@[key@],
    {
        match self.find(key) {
            Some(i) => {
                proof {
                    lemma_map_value(self.entries@, i as int);
                }
                let v = self.entries[i].value.clone();
                assert(v@ =~= self.entries@[i as int].value@);
                Ok(v)
            },
            None => Err(ProtoError::NotFound),
        }
    }

    /// `read_or_wait(key)`: the blocking read. A task calling it suspends
    /// until the key exists; its resumption is modelled by the precondition.
    pub fn read_or_wait(&self, key: &Vec<u8>) -> (v: Vec<u8>)
        requires
            self.wf(),
            self@.contains_key(key@),
        ensures
            v@ == self@[key@],
    {
        let r = self.read(key);
        match r {
            Ok(v) => v,
            Err(_) => {
                proof {
                    assert(false);
                }
                Vec::new()
            },
        }
    }

    /// `update(key, value)`: overwrites an existing entry, and fails with
    /// `NotFound` — never silently re-creating — if the key is absent.
    pub fn update(&mut self, key: &Vec<u8>, value: &Vec<u8>) -> (r: Result<(), ProtoError>)
        requires
            old(self).wf(),
        ensures
            final(self).wf(),
            r is Ok <==> old(self)@.contains_key(key@),
            r is Err ==> r == Err::<(), ProtoError>(ProtoError::NotFound)
                && final(self)@ == old(self)@,
            r is Ok ==> final(self)@ == old(self)@.insert(key@, value@),
    {
        match self.find(key) {
            Some(i) => {
                proof {
                    lemma_map_remove(self.entries@, i as int);
                }
                let ghost s0 = self.entries@;
                self.entries.remove(i);
                let ghost s1 = self.entries@;
                proof {
                    assert(keys_distinct(s1)) by {
                        assert forall|a: int, b: int| 0 <= a < b < s1.len()
                            implies s1[a].key@ != s1[b].key@ by {
                            let a2 = if a < i as int { a } else { a + 1 };
                            let b2 = if b < i as int { b } else { b + 1 };
                            assert(s1[a] == s0[a2]);
                            assert(s1[b] == s0[b2]);
                        }
                    }
                    lemma_map_domain(s1, key@);
                    assert(!entries_map(s1).contains_key(key@)) by {
                        if exists|j: int| 0 <= j < s1.len() && s1[j].key@ == key@ {
                            let j = choose|j: int| 0 <= j < s1.len() && s1[j].key@ == key@;
                            let j2 = if j < i as int { j } else { j + 1 };
                            assert(s1[j] == s0[j2]);
                            assert(s0[j2].key@ != s0[i as int].key@);
                        }
                    }
                }
                let k = key.clone();
                let v = value.clone();
                assert(k@ =~= key@);
                assert(v@ =~= value@);
                self.entries.push(StoredEntry { key: k, value: v });
                proof {
                    assert(self.entries@.drop_last() =~= s1);
                    assert(keys_distinct(self.entries@)) by {
                        let s2 = self.entries@;
                        assert forall|a: int, b: int| 0 <= a < b < s2.len()
                            implies s2[a].key@ != s2[b].key@ by {
                            if b < s2.len() - 1 {
                                assert(s2[a] == s1[a]);
                                assert(s2[b] == s1[b]);
                            } else {
                                assert(s2[a] == s1[a]);
                            }
                        }
                    }
                    assert(self@ =~= old(self)@.insert(key@, value@));
                }
                Ok(())
            },
            None => Err(ProtoError::NotFound),
        }
    }

    /// `delete(key)`: removes an existing entry, and fails with `NotFound`
    /// if the key is absent. No quota is refunded on delete.
    pub fn delete(&mut self, key: &Vec<u8>) -> (r: Result<(), ProtoError>)
        requires
            old(self).wf(),
        ensures
            final(self).wf(),
            r is Ok <==> old(self)@.contains_key(key@),
            r is Err ==> r == Err::<(), ProtoError>(ProtoError::NotFound)
                && final(self)@ == old(self)@,
            r is Ok ==> final(self)@ == old(self)@.remove(key@),
    {
        match self.find(key) {
            Some(i) => {
                proof {
                    lemma_map_remove(self.entries@, i as int);
                }
                let ghost s0 = self.entries@;
                self.entries.remove(i);
                proof {
                    let s1 = self.entries@;
                    assert(keys_distinct(s1)) by {
                        assert forall|a: int, b: int| 0 <= a < b < s1.len()
                            implies s1[a].key@ != s1[b].key@ by {
                            let a2 = if a < i as int { a } else { a + 1 };
                            let b2 = if b < i as int { b } else { b + 1 };
                            assert(s1[a] == s0[a2]);
                            assert(s1[b] == s0[b2]);
                        }
                    }
                }
                Ok(())
            },
            None => Err(ProtoError::NotFound),
        }
    }
}

} // verus!
