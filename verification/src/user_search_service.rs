use vstd::prelude::*;

use crate::errors::ApiServiceError;
use crate::models::{user_views, User, UserSearchParams, UserV};
use crate::text::{contains_ci, str_contains_ci};

verus! {

/// A user matches when the provided email pattern occurs in the record's
/// email, ASCII-case-insensitively.
pub open spec fn user_matches(u: UserV, p: UserSearchParams) -> bool {
    p.email matches Some(e) && contains_ci(u.email, e@)
}

/// The user search: a stateless, single-field filter over the user records
/// of the store. The exposed contract is the full list of matching
/// records; an HTTP layer may reduce it to a mere existence flag.
pub struct ApiService {}

impl ApiService {
    pub fn new() -> ApiService {
        ApiService {  }
    }

    /// Search the given user records by email. The email field must be
    /// provided; an empty filter is rejected before the store is touched.
    pub fn search(&self, params: &UserSearchParams, users: &Vec<User>) -> (r: Result<
        Vec<User>,
        ApiServiceError,
    >)
        ensures
            r is Err <==> params.email is None,
            r matches Err(e) ==> e is EmptyQuery,
            r matches Ok(v) ==> user_views(v@) == user_views(users@).filter(
                |u: UserV| user_matches(u, *params),
            ),
    {
        if params.email.is_none() {
            return Err(ApiServiceError::EmptyQuery);
        }
        let n = users.len();
        let mut v: Vec<User> = Vec::new();
        let mut i: usize = 0;
        proof {
            assert(user_views(users@.subrange(0, 0)) =~= Seq::<UserV>::empty());
            assert(user_views(v@) =~= Seq::<UserV>::empty());
            assert(Seq::<UserV>::empty().filter(|u: UserV| user_matches(u, *params))
                =~= Seq::<UserV>::empty());
        }
        while i < n
            invariant
                i <= n,
                n == users@.len(),
                params.email is Some,
                user_views(v@) == user_views(users@.subrange(0, i as int)).filter(
                    |u: UserV| user_matches(u, *params),
                ),
            decreases n - i,
        {
            let ghost pred = |u: UserV| user_matches(u, *params);
            let ghost pre = user_views(users@.subrange(0, i as int));
            let ghost old_v = v@;
            let matched = match &params.email {
                Some(e) => str_contains_ci(users[i].email.as_str(), e.as_str()),
                None => false,
            };
            if matched {
                v.push(users[i].clone());
            }
            proof {
                reveal(Seq::filter);
                let post = user_views(users@.subrange(0, i as int + 1));
                assert(post.drop_last() =~= pre);
                assert(post.last() == users@[i as int]@);
                assert(post.filter(pred) == if pred(post.last()) {
                    post.drop_last().filter(pred).push(post.last())
                } else {
                    post.drop_last().filter(pred)
                });
                if pred(users@[i as int]@) {
                    assert(user_views(v@) =~= user_views(old_v).push(users@[i as int]@));
                } else {
                    assert(user_views(v@) =~= user_views(old_v));
                }
            }
            i += 1;
        }
        proof {
            assert(users@.subrange(0, n as int) =~= users@);
        }
        Ok(v)
    }
}

} // verus!
