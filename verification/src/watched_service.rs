use vstd::prelude::*;

use crate::errors::ApiServiceError;
use crate::kv::{distinct_keys, has_key, lemma_lookup_found, lemma_lookup_none_iff,
    lemma_lookup_push, lemma_lookup_remove, lemma_lookup_update, lookup};
use crate::models::{Watched, WatchedV, watched_view_eq};
use crate::oid::{lemma_oid_counter_injective, oid_decode, oid_of_counter, parse_oid,
    valid_oid_str, Oid};

verus! {

/// The record as the store keeps it under key `k`: the caller's fields,
/// with the identifier set by the store.
pub open spec fn watched_with_id(c: WatchedV, k: Seq<u8>) -> WatchedV {
    WatchedV { id: Some(k), ..c }
}

/// The watched-record collection: an in-memory model of one store collection,
/// with store-assigned identifiers and blind-replace updates.
pub struct ApiService {
    entries: Vec<(Oid, Watched)>,
    next_id: u64,
    keys: Ghost<Seq<u64>>,
}

impl View for ApiService {
    type V = Seq<(Seq<u8>, WatchedV)>;

    closed spec fn view(&self) -> Seq<(Seq<u8>, WatchedV)> {
        self.entries@.map(|i: int, e: (Oid, Watched)| (e.0@, e.1@))
    }
}

impl ApiService {
    /// Internal consistency: every identifier was generated from a
    /// distinct counter value below the current one.
    pub closed spec fn wf(&self) -> bool {
        &&& self.keys@.len() == self.entries@.len()
        &&& forall|i: int|
            0 <= i < self.entries@.len() ==> (#[trigger] self.entries@[i]).0@ == oid_of_counter(
                self.keys@[i],
            ) && self.keys@[i] < self.next_id
        &&& forall|i: int, j: int|
            0 <= i < j < self.keys@.len() ==> #[trigger] self.keys@[i] != #[trigger] self.keys@[j]
    }

    /// How many identifiers the collection has issued so far.
    pub closed spec fn issued(&self) -> u64 {
        self.next_id
    }

    proof fn lemma_wf_distinct(&self)
        requires
            self.wf(),
        ensures
            distinct_keys(self@),
    {
        assert forall|i: int, j: int| 0 <= i < j < self@.len() implies (#[trigger] self@[i]).0 != (
        #[trigger] self@[j]).0 by {
            if self@[i].0 == self@[j].0 {
                lemma_oid_counter_injective(self.keys@[i], self.keys@[j]);
            }
        }
    }

    /// An empty collection.
    pub fn new() -> (s: ApiService)
        ensures
            s.wf(),
            s@ == Seq::<(Seq<u8>, WatchedV)>::empty(),
            s.issued() == 0,
    {
        let s = ApiService { entries: Vec::new(), next_id: 0, keys: Ghost(Seq::empty()) };
        proof {
            assert(s@ =~= Seq::<(Seq<u8>, WatchedV)>::empty());
        }
        s
    }

    /// The index of the entry under `key`, if any.
    fn find_index(&self, key: &Oid) -> (r: Option<usize>)
        requires
            self.wf(),
        ensures
            r matches Some(i) ==> i < self@.len() && self@[i as int].0 == key@ && lookup(
                self@,
                key@,
            ) == Some(self@[i as int].1),
            r is None ==> lookup(self@, key@) is None,
    {
        let n = self.entries.len();
        let mut i: usize = 0;
        while i < n
            invariant
                self.wf(),
                i <= n,
                n == self@.len(),
                forall|j: int| 0 <= j < i ==> (#[trigger] self@[j]).0 != key@,
            decreases n - i,
        {
            if self.entries[i].0.eq_id(key) {
                proof {
                    self.lemma_wf_distinct();
                    lemma_lookup_found(self@, i as int);
                }
                return Some(i);
            }
            i += 1;
        }
        proof {
            assert(!has_key(self@, key@));
            lemma_lookup_none_iff(self@, key@);
        }
        None
    }

    /// All records, in insertion order.
    pub fn get_all(&self) -> (r: Result<Vec<Watched>, ApiServiceError>)
        requires
            self.wf(),
        ensures
            r is Ok,
            r matches Ok(v) ==> v@.len() == self@.len() && forall|i: int|
                0 <= i < self@.len() ==> (#[trigger] v@[i])@ == self@[i].1,
    {
        let n = self.entries.len();
        let mut v: Vec<Watched> = Vec::new();
        let mut i: usize = 0;
        while i < n
            invariant
                self.wf(),
                i <= n,
                n == self@.len(),
                v@.len() == i,
                forall|j: int| 0 <= j < i ==> (#[trigger] v@[j])@ == self@[j].1,
            decreases n - i,
        {
            v.push(self.entries[i].1.clone());
            i += 1;
        }
        Ok(v)
    }

    /// Look a record up by its wire identifier. A malformed identifier is
    /// rejected before the store is consulted; otherwise the result mirrors
    /// the store contents exactly.
    pub fn get_by_id(&self, watched_id: &str) -> (r: Result<Option<Watched>, ApiServiceError>)
        requires
            self.wf(),
        ensures
            r is Ok <==> valid_oid_str(watched_id@),
            r matches Err(e) ==> e is InvalidObjectId,
            r matches Ok(opt) ==> {
                &&& opt is Some <==> lookup(self@, oid_decode(watched_id@)) is Some
                &&& opt matches Some(c) ==> lookup(self@, oid_decode(watched_id@)) == Some(c@)
            },
    {
        let oid = match parse_oid(watched_id) {
            Ok(o) => o,
            Err(e) => {
                return Err(e);
            },
        };
        match self.find_index(&oid) {
            Some(i) => Ok(Some(self.entries[i].1.clone())),
            None => Ok(None),
        }
    }

    /// Insert a record; the store assigns a fresh identifier and stores the
    /// caller's fields under it.
    pub fn create(&mut self, c: &Watched) -> (r: Result<Oid, ApiServiceError>)
        requires
            old(self).wf(),
        ensures
            final(self).wf(),
            r is Ok <==> old(self).issued() < u64::MAX,
            r matches Err(e) ==> e is DatabaseError && final(self)@ == old(self)@,
            r matches Ok(oid) ==> {
                &&& oid.wf()
                &&& oid@ == oid_of_counter(old(self).issued())
                &&& lookup(old(self)@, oid@) is None
                &&& final(self)@ == old(self)@.push((oid@, watched_with_id(c@, oid@)))
                &&& lookup(final(self)@, oid@) == Some(watched_with_id(c@, oid@))
                &&& forall|k2: Seq<u8>|
                    k2 != oid@ ==> #[trigger] lookup(final(self)@, k2) == lookup(old(self)@, k2)
                &&& final(self).issued() == old(self).issued() + 1
            },
    {
        if self.next_id == u64::MAX {
            return Err(ApiServiceError::DatabaseError("identifier space exhausted".to_owned()));
        }
        let n = self.next_id;
        let oid = Oid::from_counter(n);
        let mut record = c.clone();
        record._id = Some(oid.clone());
        proof {
            assert forall|i: int| 0 <= i < self@.len() implies (#[trigger] self@[i]).0 != oid@ by {
                if self@[i].0 == oid@ {
                    lemma_oid_counter_injective(self.keys@[i], n);
                }
            }
            assert(!has_key(self@, oid@));
            lemma_lookup_none_iff(self@, oid@);
        }
        let ghost old_view = self@;
        let ghost old_keys = self.keys@;
        self.entries.push((oid.clone(), record));
        self.keys = Ghost(old_keys.push(n));
        self.next_id = n + 1;
        proof {
            assert forall|i: int|
                0 <= i < self.entries@.len() implies (#[trigger] self.entries@[i]).0@
                == oid_of_counter(self.keys@[i]) && self.keys@[i] < self.next_id by {
                if i < old_keys.len() {
                    assert(self.entries@[i] == old(self).entries@[i]);
                    assert(self.keys@[i] == old_keys[i]);
                } else {
                    assert(self.entries@[i].0@ == oid@);
                    assert(self.keys@[i] == n);
                }
            }
            assert forall|i: int, j: int|
                0 <= i < j < self.keys@.len() implies #[trigger] self.keys@[i]
                != #[trigger] self.keys@[j] by {
                if j < old_keys.len() {
                    assert(self.keys@[i] == old_keys[i] && self.keys@[j] == old_keys[j]);
                } else {
                    assert(0 <= i < old(self).entries@.len());
                    assert(old(self).next_id == n);
                    assert((old(self).entries@[i]).0@ == oid_of_counter(old(self).keys@[i])
                        && old(self).keys@[i] < old(self).next_id);
                    assert(self.keys@[i] == old_keys[i] && self.keys@[j] == n);
                }
            }
            assert(record@ == watched_with_id(c@, oid@));
            assert(self@ =~= old_view.push((oid@, record@)));
            lemma_lookup_push(old_view, oid@, record@, oid@);
            assert forall|k2: Seq<u8>| k2 != oid@ implies #[trigger] lookup(self@, k2) == lookup(
                old_view,
                k2,
            ) by {
                lemma_lookup_push(old_view, oid@, record@, k2);
            }
        }
        Ok(oid)
    }

    /// Blind-replace update: every caller field overwrites the stored value
    /// under the given identifier; only the identifier itself is kept.
    /// Returns how many records were modified: zero when the new values
    /// equal the stored ones, as the store reports a write of identical
    /// values.
    pub fn update(&mut self, c: &Watched, watched_id: &str) -> (r: Result<u64, ApiServiceError>)
        requires
            old(self).wf(),
        ensures
            final(self).wf(),
            r is Ok <==> valid_oid_str(watched_id@),
            r matches Err(e) ==> e is InvalidObjectId && final(self)@ == old(self)@,
            r matches Ok(count) ==> {
                let k = oid_decode(watched_id@);
                &&& lookup(old(self)@, k) is None ==> count == 0u64 && final(self)@ == old(
                    self,
                )@
                &&& lookup(old(self)@, k) matches Some(prev) ==> {
                    &&& count == (if prev == watched_with_id(c@, k) {
                        0u64
                    } else {
                        1u64
                    })
                    &&& final(self)@.len() == old(self)@.len()
                    &&& lookup(final(self)@, k) == Some(watched_with_id(c@, k))
                    &&& prev == watched_with_id(c@, k) ==> final(self)@ == old(self)@
                    &&& forall|k2: Seq<u8>|
                        k2 != k ==> #[trigger] lookup(final(self)@, k2) == lookup(old(self)@, k2)
                }
            },
    {
        let oid = match parse_oid(watched_id) {
            Ok(o) => o,
            Err(e) => {
                return Err(e);
            },
        };
        match self.find_index(&oid) {
            Some(i) => {
                let mut record = c.clone();
                record._id = Some(oid.clone());
                let unchanged = watched_view_eq(&record, &self.entries[i].1);
                let ghost old_view = self@;
                proof {
                    self.lemma_wf_distinct();
                    assert(old_view[i as int].1 == self.entries@[i as int].1@);
                }
                self.entries.set(i, (oid, record));
                proof {
                    assert(record@ == watched_with_id(c@, oid_decode(watched_id@)));
                    assert(self@ =~= old_view.update(i as int, (old_view[i as int].0, record@)));
                    lemma_lookup_update(old_view, i as int, record@, old_view[i as int].0);
                    assert forall|k2: Seq<u8>|
                        k2 != old_view[i as int].0 implies #[trigger] lookup(self@, k2) == lookup(
                        old_view,
                        k2,
                    ) by {
                        lemma_lookup_update(old_view, i as int, record@, k2);
                    }
                    if unchanged {
                        assert forall|j: int| 0 <= j < old_view.len() implies self@[j] == old_view[j] by {
                            if j == i {
                                assert(self@[j].0 == old_view[j].0 && self@[j].1 == old_view[j].1);
                                assert(self@[j] =~= old_view[j]);
                            }
                        }
                        assert(self@ =~= old_view);
                    }
                }
                if unchanged {
                    Ok(0)
                } else {
                    Ok(1)
                }
            },
            None => Ok(0),
        }
    }

    /// Hard-delete by wire identifier. Returns how many records were
    /// deleted (one or zero).
    pub fn delete(&mut self, watched_id: &str) -> (r: Result<u64, ApiServiceError>)
        requires
            old(self).wf(),
        ensures
            final(self).wf(),
            r is Ok <==> valid_oid_str(watched_id@),
            r matches Err(e) ==> e is InvalidObjectId && final(self)@ == old(self)@,
            r matches Ok(count) ==> {
                let k = oid_decode(watched_id@);
                &&& count == (if lookup(old(self)@, k) is Some {
                    1u64
                } else {
                    0u64
                })
                &&& lookup(old(self)@, k) is None ==> final(self)@ == old(self)@
                &&& lookup(old(self)@, k) is Some ==> {
                    &&& final(self)@.len() == old(self)@.len() - 1
                    &&& lookup(final(self)@, k) is None
                    &&& forall|k2: Seq<u8>|
                        k2 != k ==> #[trigger] lookup(final(self)@, k2) == lookup(old(self)@, k2)
                }
            },
    {
        let oid = match parse_oid(watched_id) {
            Ok(o) => o,
            Err(e) => {
                return Err(e);
            },
        };
        match self.find_index(&oid) {
            Some(i) => {
                let ghost old_view = self@;
                let ghost old_keys = self.keys@;
                proof {
                    self.lemma_wf_distinct();
                }
                self.entries.remove(i);
                self.keys = Ghost(old_keys.remove(i as int));
                proof {
                    assert forall|j: int|
                        0 <= j < self.entries@.len() implies (#[trigger] self.entries@[j]).0@
                        == oid_of_counter(self.keys@[j]) && self.keys@[j] < self.next_id by {
                        if j < i {
                            assert(self.entries@[j] == old(self).entries@[j]);
                            assert(self.keys@[j] == old_keys[j]);
                        } else {
                            assert(self.entries@[j] == old(self).entries@[j + 1]);
                            assert(self.keys@[j] == old_keys[j + 1]);
                        }
                    }
                    assert forall|j1: int, j2: int|
                        0 <= j1 < j2 < self.keys@.len() implies #[trigger] self.keys@[j1]
                        != #[trigger] self.keys@[j2] by {
                        let a = if j1 < i { j1 } else { j1 + 1 };
                        let b = if j2 < i { j2 } else { j2 + 1 };
                        assert(self.keys@[j1] == old_keys[a] && self.keys@[j2] == old_keys[b]);
                    }
                    assert(self@ =~= old_view.remove(i as int));
                    lemma_lookup_remove(old_view, i as int, old_view[i as int].0);
                    assert forall|k2: Seq<u8>|
                        k2 != old_view[i as int].0 implies #[trigger] lookup(self@, k2) == lookup(
                        old_view,
                        k2,
                    ) by {
                        lemma_lookup_remove(old_view, i as int, k2);
                    }
                }
                Ok(1)
            },
            None => Ok(0),
        }
    }
}

} // verus!
