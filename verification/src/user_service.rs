use vstd::prelude::*;

use crate::errors::ApiServiceError;
use crate::kv::{distinct_keys, has_key, lemma_lookup_found, lemma_lookup_none_iff,
    lemma_lookup_push, lemma_lookup_remove, lemma_lookup_update, lookup};
use crate::models::{User, UserV, user_view_eq};
use crate::password::{bcrypt_hash_format, bcrypt_matches, hash_password};
use crate::oid::{lemma_oid_counter_injective, oid_decode, oid_of_counter, parse_oid,
    valid_oid_str, Oid};

verus! {

/// The record under key `k`: the given fields with the identifier set by
/// the store.
pub open spec fn user_with_id(u: UserV, k: Seq<u8>) -> UserV {
    UserV { id: Some(k), ..u }
}

/// The record as the store keeps it under key `k`: the caller's fields,
/// the identifier set by the store, and the password replaced by a hash.
pub open spec fn user_stored(u: UserV, k: Seq<u8>, h: Seq<char>) -> UserV {
    UserV { id: Some(k), password: h, ..u }
}

/// The merge of a caller payload onto an existing record: profile fields,
/// reference lists and the update time come from the payload, while the
/// identifier, the stored password hash and the creation time stay.
pub open spec fn merged_user(prev: UserV, payload: UserV) -> UserV {
    UserV {
        id: prev.id,
        password: prev.password,
        created_at: prev.created_at,
        name: payload.name,
        lastname: payload.lastname,
        major: payload.major,
        email: payload.email,
        courses: payload.courses,
        watched_ids: payload.watched_ids,
        updated_at: payload.updated_at,
    }
}

/// Merge a caller payload onto an existing record. The password hash, the
/// identifier and the creation time are provably immune to this merge.
pub fn merge_user(existing: &User, payload: &User) -> (r: User)
    ensures
        r@ == merged_user(existing@, payload@),
{
    let mut r = payload.clone();
    r._id = match &existing._id {
        Some(o) => Some(o.clone()),
        None => None,
    };
    r.password = existing.password.clone();
    r.created_at = existing.created_at;
    r
}

/// Replace a payload's plaintext credential with its one-way, salted
/// hash; every other field is kept. Both the model store's insert and a
/// store run outside it take the record through this step, so no store
/// ever holds a plaintext password.
pub fn hash_user_password(u: &User) -> (r: Result<User, ApiServiceError>)
    ensures
        r matches Err(e) ==> (e is DatabaseError),
        r matches Ok(hu) ==> hu@ == (UserV { password: hu@.password, ..u@ }) && bcrypt_matches(
            u@.password,
            hu@.password,
        ) && bcrypt_hash_format(hu@.password),
{
    match hash_password(u.password.as_str()) {
        Some(h) => {
            let mut hu = u.clone();
            hu.password = h;
            Ok(hu)
        },
        None => Err(ApiServiceError::DatabaseError("password hashing failed".to_owned())),
    }
}

/// The user collection: an in-memory model of one store collection,
/// with store-assigned identifiers, hashed credentials, and merge updates
/// that preserve the stored password hash.
pub struct ApiService {
    entries: Vec<(Oid, User)>,
    next_id: u64,
    keys: Ghost<Seq<u64>>,
}

impl View for ApiService {
    type V = Seq<(Seq<u8>, UserV)>;

    closed spec fn view(&self) -> Seq<(Seq<u8>, UserV)> {
        self.entries@.map(|i: int, e: (Oid, User)| (e.0@, e.1@))
    }
}

impl ApiService {
    /// Internal consistency: every identifier was generated from a
    /// distinct counter value below the current one.
    pub closed spec fn wf(&self) -> bool {
        &&& self.keys@.len() == self.entries@.len()
        &&& forall|i: int|
            0 <= i < self.entries@.len() ==> (#[trigger] self.entries@[i]).0@ == oid_of_counter(
                self.keys@[i],
            ) && self.keys@[i] < self.next_id
        &&& forall|i: int, j: int|
            0 <= i < j < self.keys@.len() ==> #[trigger] self.keys@[i] != #[trigger] self.keys@[j]
    }

    /// How many identifiers the collection has issued so far.
    pub closed spec fn issued(&self) -> u64 {
        self.next_id
    }

    proof fn lemma_wf_distinct(&self)
        requires
            self.wf(),
        ensures
            distinct_keys(self@),
    {
        assert forall|i: int, j: int| 0 <= i < j < self@.len() implies (#[trigger] self@[i]).0 != (
        #[trigger] self@[j]).0 by {
            if self@[i].0 == self@[j].0 {
                lemma_oid_counter_injective(self.keys@[i], self.keys@[j]);
            }
        }
    }

    /// An empty collection.
    pub fn new() -> (s: ApiService)
        ensures
            s.wf(),
            s@ == Seq::<(Seq<u8>, UserV)>::empty(),
            s.issued() == 0,
    {
        let s = ApiService { entries: Vec::new(), next_id: 0, keys: Ghost(Seq::empty()) };
        proof {
            assert(s@ =~= Seq::<(Seq<u8>, UserV)>::empty());
        }
        s
    }

    /// The index of the entry under `key`, if any.
    fn find_index(&self, key: &Oid) -> (r: Option<usize>)
        requires
            self.wf(),
        ensures
            r matches Some(i) ==> i < self@.len() && self@[i as int].0 == key@ && lookup(
                self@,
                key@,
            ) == Some(self@[i as int].1),
            r is None ==> lookup(self@, key@) is None,
    {
        let n = self.entries.len();
        let mut i: usize = 0;
        while i < n
            invariant
                self.wf(),
                i <= n,
                n == self@.len(),
                forall|j: int| 0 <= j < i ==> (#[trigger] self@[j]).0 != key@,
            decreases n - i,
        {
            if self.entries[i].0.eq_id(key) {
                proof {
                    self.lemma_wf_distinct();
                    lemma_lookup_found(self@, i as int);
                }
                return Some(i);
            }
            i += 1;
        }
        proof {
            assert(!has_key(self@, key@));
            lemma_lookup_none_iff(self@, key@);
        }
        None
    }

    /// All records, in insertion order.
    pub fn get_all(&self) -> (r: Result<Vec<User>, ApiServiceError>)
        requires
            self.wf(),
        ensures
            r is Ok,
            r matches Ok(v) ==> v@.len() == self@.len() && forall|i: int|
                0 <= i < self@.len() ==> (#[trigger] v@[i])@ == self@[i].1,
    {
        let n = self.entries.len();
        let mut v: Vec<User> = Vec::new();
        let mut i: usize = 0;
        while i < n
            invariant
                self.wf(),
                i <= n,
                n == self@.len(),
                v@.len() == i,
                forall|j: int| 0 <= j < i ==> (#[trigger] v@[j])@ == self@[j].1,
            decreases n - i,
        {
            v.push(self.entries[i].1.clone());
            i += 1;
        }
        Ok(v)
    }

    /// Look a record up by its wire identifier. A malformed identifier is
    /// rejected before the store is consulted; otherwise the result mirrors
    /// the store contents exactly.
    pub fn get_by_id(&self, user_id: &str) -> (r: Result<Option<User>, ApiServiceError>)
        requires
            self.wf(),
        ensures
            r is Ok <==> valid_oid_str(user_id@),
            r matches Err(e) ==> e is InvalidObjectId,
            r matches Ok(opt) ==> {
                &&& opt is Some <==> lookup(self@, oid_decode(user_id@)) is Some
                &&& opt matches Some(c) ==> lookup(self@, oid_decode(user_id@)) == Some(c@)
            },
    {
        let oid = match parse_oid(user_id) {
            Ok(o) => o,
            Err(e) => {
                return Err(e);
            },
        };
        match self.find_index(&oid) {
            Some(i) => Ok(Some(self.entries[i].1.clone())),
            None => Ok(None),
        }
    }

    /// Insert a record under a fresh identifier, storing the given,
    /// already hashed, credential in place of the payload's password field.
    pub fn create_hashed(&mut self, u: &User, password_hash: String) -> (r: Result<
        Oid,
        ApiServiceError,
    >)
        requires
            old(self).wf(),
        ensures
            final(self).wf(),
            r is Ok <==> old(self).issued() < u64::MAX,
            r matches Err(e) ==> e is DatabaseError && final(self)@ == old(self)@
                && final(self).issued() == old(self).issued(),
            r matches Ok(oid) ==> {
                &&& oid.wf()
                &&& oid@ == oid_of_counter(old(self).issued())
                &&& lookup(old(self)@, oid@) is None
                &&& final(self)@ == old(self)@.push(
                    (oid@, user_stored(u@, oid@, password_hash@)),
                )
                &&& lookup(final(self)@, oid@) == Some(user_stored(u@, oid@, password_hash@))
                &&& forall|k2: Seq<u8>|
                    k2 != oid@ ==> #[trigger] lookup(final(self)@, k2) == lookup(old(self)@, k2)
                &&& final(self).issued() == old(self).issued() + 1
            },
    {
        if self.next_id == u64::MAX {
            return Err(ApiServiceError::DatabaseError("identifier space exhausted".to_owned()));
        }
        let n = self.next_id;
        let oid = Oid::from_counter(n);
        let mut record = u.clone();
        record._id = Some(oid.clone());
        record.password = password_hash;
        proof {
            assert forall|i: int| 0 <= i < self@.len() implies (#[trigger] self@[i]).0 != oid@ by {
                if self@[i].0 == oid@ {
                    lemma_oid_counter_injective(self.keys@[i], n);
                }
            }
            assert(!has_key(self@, oid@));
            lemma_lookup_none_iff(self@, oid@);
        }
        let ghost old_view = self@;
        let ghost old_keys = self.keys@;
        let ghost stored = record@;
        self.entries.push((oid.clone(), record));
        self.keys = Ghost(old_keys.push(n));
        self.next_id = n + 1;
        proof {
            assert forall|i: int|
                0 <= i < self.entries@.len() implies (#[trigger] self.entries@[i]).0@
                == oid_of_counter(self.keys@[i]) && self.keys@[i] < self.next_id by {
                if i < old_keys.len() {
                    assert(self.entries@[i] == old(self).entries@[i]);
                    assert(self.keys@[i] == old_keys[i]);
                } else {
                    assert(self.entries@[i].0@ == oid@);
                    assert(self.keys@[i] == n);
                }
            }
            assert forall|i: int, j: int|
                0 <= i < j < self.keys@.len() implies #[trigger] self.keys@[i]
                != #[trigger] self.keys@[j] by {
                if j < old_keys.len() {
                    assert(self.keys@[i] == old_keys[i] && self.keys@[j] == old_keys[j]);
                } else {
                    assert(0 <= i < old(self).entries@.len());
                    assert(old(self).next_id == n);
                    assert((old(self).entries@[i]).0@ == oid_of_counter(old(self).keys@[i])
                        && old(self).keys@[i] < old(self).next_id);
                    assert(self.keys@[i] == old_keys[i] && self.keys@[j] == n);
                }
            }
            assert(stored == user_stored(u@, oid@, password_hash@));
            assert(self@ =~= old_view.push((oid@, stored)));
            lemma_lookup_push(old_view, oid@, stored, oid@);
            assert forall|k2: Seq<u8>| k2 != oid@ implies #[trigger] lookup(self@, k2) == lookup(
                old_view,
                k2,
            ) by {
                lemma_lookup_push(old_view, oid@, stored, k2);
            }
        }
        Ok(oid)
    }

    /// Insert a record; the payload's plaintext password is hashed first,
    /// so the store never holds a plaintext credential. Fails only when the
    /// hashing call fails or the identifier space is exhausted.
    pub fn create(&mut self, u: &User) -> (r: Result<Oid, ApiServiceError>)
        requires
            old(self).wf(),
        ensures
            final(self).wf(),
            r matches Err(e) ==> e is DatabaseError && final(self)@ == old(self)@,
            old(self).issued() == u64::MAX ==> r is Err,
            r matches Ok(oid) ==> {
                &&& oid.wf()
                &&& oid@ == oid_of_counter(old(self).issued())
                &&& lookup(old(self)@, oid@) is None
                &&& exists|h: Seq<char>|
                    #[trigger] bcrypt_matches(u@.password, h) && final(self)@
                        == old(self)@.push((oid@, user_stored(u@, oid@, h)))
                &&& lookup(final(self)@, oid@) matches Some(su) && bcrypt_matches(
                    u@.password,
                    su.password,
                ) && bcrypt_hash_format(su.password) && su == user_stored(u@, oid@, su.password)
                &&& forall|k2: Seq<u8>|
                    k2 != oid@ ==> #[trigger] lookup(final(self)@, k2) == lookup(old(self)@, k2)
                &&& final(self).issued() == old(self).issued() + 1
            },
    {
        let h = match hash_password(u.password.as_str()) {
            Some(h) => h,
            None => {
                return Err(ApiServiceError::DatabaseError("password hashing failed".to_owned()));
            },
        };
        let ghost hv = h@;
        match self.create_hashed(u, h) {
            Ok(oid) => {
                proof {
                    assert(bcrypt_matches(u@.password, hv));
                    let su = user_stored(u@, oid@, hv);
                    assert(lookup(self@, oid@) == Some(su));
                    assert(su == user_stored(u@, oid@, su.password));
                }
                Ok(oid)
            },
            Err(e) => Err(e),
        }
    }

    /// Merge update: the existing record is fetched first; its password
    /// hash, identifier and creation time are preserved while the profile
    /// fields, reference lists and update time come from the payload. A
    /// missing base record is an explicit `NotFound` error, since there is
    /// nothing to merge onto. Returns how many records were modified: zero
    /// when the merged record equals the stored one, as the store reports
    /// a write of identical values.
    pub fn update(&mut self, updated_user: &User, user_id: &str) -> (r: Result<
        u64,
        ApiServiceError,
    >)
        requires
            old(self).wf(),
        ensures
            final(self).wf(),
            r is Ok <==> valid_oid_str(user_id@) && lookup(old(self)@, oid_decode(user_id@))
                is Some,
            !valid_oid_str(user_id@) ==> (r matches Err(e) && e is InvalidObjectId),
            valid_oid_str(user_id@) && lookup(old(self)@, oid_decode(user_id@)) is None
                ==> (r matches Err(e) && e is NotFound),
            r is Err ==> final(self)@ == old(self)@,
            r matches Ok(count) ==> {
                let k = oid_decode(user_id@);
                &&& final(self)@.len() == old(self)@.len()
                &&& lookup(old(self)@, k) matches Some(prev) && {
                    &&& count == (if prev == user_with_id(merged_user(prev, updated_user@), k) {
                        0u64
                    } else {
                        1u64
                    })
                    &&& lookup(final(self)@, k) == Some(
                        user_with_id(merged_user(prev, updated_user@), k),
                    )
                    &&& prev == user_with_id(merged_user(prev, updated_user@), k)
                        ==> final(self)@ == old(self)@
                    &&& (lookup(final(self)@, k) matches Some(now) && now.password
                        == prev.password && now.created_at == prev.created_at)
                }
                &&& forall|k2: Seq<u8>|
                    k2 != k ==> #[trigger] lookup(final(self)@, k2) == lookup(old(self)@, k2)
            },
    {
        let oid = match parse_oid(user_id) {
            Ok(o) => o,
            Err(e) => {
                return Err(e);
            },
        };
        match self.find_index(&oid) {
            Some(i) => {
                let mut record = merge_user(&self.entries[i].1, updated_user);
                record._id = Some(oid.clone());
                let unchanged = user_view_eq(&record, &self.entries[i].1);
                let ghost old_view = self@;
                proof {
                    self.lemma_wf_distinct();
                    assert(old_view[i as int].1 == self.entries@[i as int].1@);
                }
                self.entries.set(i, (oid, record));
                proof {
                    assert forall|j: int|
                        0 <= j < self.entries@.len() implies (#[trigger] self.entries@[j]).0@
                        == oid_of_counter(self.keys@[j]) && self.keys@[j] < self.next_id by {
                        if j != i {
                            assert(self.entries@[j] == old(self).entries@[j]);
                        } else {
                            assert(self.entries@[j].0@ == old_view[i as int].0);
                            assert((old(self).entries@[j]).0@ == oid_of_counter(
                                old(self).keys@[j],
                            ));
                        }
                    }
                    let k = oid_decode(user_id@);
                    let prev = old_view[i as int].1;
                    assert(record@ == user_with_id(merged_user(prev, updated_user@), k));
                    assert(self@ =~= old_view.update(i as int, (old_view[i as int].0, record@)));
                    lemma_lookup_update(old_view, i as int, record@, old_view[i as int].0);
                    assert forall|k2: Seq<u8>|
                        k2 != old_view[i as int].0 implies #[trigger] lookup(self@, k2) == lookup(
                        old_view,
                        k2,
                    ) by {
                        lemma_lookup_update(old_view, i as int, record@, k2);
                    }
                    if unchanged {
                        assert forall|j: int|
                            0 <= j < old_view.len() implies self@[j] == old_view[j] by {
                            if j == i {
                                assert(self@[j].0 == old_view[j].0 && self@[j].1 == old_view[j].1);
                                assert(self@[j] =~= old_view[j]);
                            }
                        }
                        assert(self@ =~= old_view);
                    }
                }
                if unchanged {
                    Ok(0)
                } else {
                    Ok(1)
                }
            },
            None => Err(ApiServiceError::NotFound),
        }
    }

    /// Hard-delete by wire identifier. Returns how many records were
    /// deleted (one or zero).
    pub fn delete(&mut self, user_id: &str) -> (r: Result<u64, ApiServiceError>)
        requires
            old(self).wf(),
        ensures
            final(self).wf(),
            r is Ok <==> valid_oid_str(user_id@),
            r matches Err(e) ==> e is InvalidObjectId && final(self)@ == old(self)@,
            r matches Ok(count) ==> {
                let k = oid_decode(user_id@);
                &&& count == (if lookup(old(self)@, k) is Some {
                    1u64
                } else {
                    0u64
                })
                &&& lookup(old(self)@, k) is None ==> final(self)@ == old(self)@
                &&& lookup(old(self)@, k) is Some ==> {
                    &&& final(self)@.len() == old(self)@.len() - 1
                    &&& lookup(final(self)@, k) is None
                    &&& forall|k2: Seq<u8>|
                        k2 != k ==> #[trigger] lookup(final(self)@, k2) == lookup(old(self)@, k2)
                }
            },
    {
        let oid = match parse_oid(user_id) {
            Ok(o) => o,
            Err(e) => {
                return Err(e);
            },
        };
        match self.find_index(&oid) {
            Some(i) => {
                let ghost old_view = self@;
                let ghost old_keys = self.keys@;
                proof {
                    self.lemma_wf_distinct();
                }
                self.entries.remove(i);
                self.keys = Ghost(old_keys.remove(i as int));
                proof {
                    assert forall|j: int|
                        0 <= j < self.entries@.len() implies (#[trigger] self.entries@[j]).0@
                        == oid_of_counter(self.keys@[j]) && self.keys@[j] < self.next_id by {
                        if j < i {
                            assert(self.entries@[j] == old(self).entries@[j]);
                            assert(self.keys@[j] == old_keys[j]);
                        } else {
                            assert(self.entries@[j] == old(self).entries@[j + 1]);
                            assert(self.keys@[j] == old_keys[j + 1]);
                        }
                    }
                    assert forall|j1: int, j2: int|
                        0 <= j1 < j2 < self.keys@.len() implies #[trigger] self.keys@[j1]
                        != #[trigger] self.keys@[j2] by {
                        let a = if j1 < i { j1 } else { j1 + 1 };
                        let b = if j2 < i { j2 } else { j2 + 1 };
                        assert(self.keys@[j1] == old_keys[a] && self.keys@[j2] == old_keys[b]);
                    }
                    assert(self@ =~= old_view.remove(i as int));
                    lemma_lookup_remove(old_view, i as int, old_view[i as int].0);
                    assert forall|k2: Seq<u8>|
                        k2 != old_view[i as int].0 implies #[trigger] lookup(self@, k2) == lookup(
                        old_view,
                        k2,
                    ) by {
                        lemma_lookup_remove(old_view, i as int, k2);
                    }
                }
                Ok(1)
            },
            None => Ok(0),
        }
    }
}

} // verus!
