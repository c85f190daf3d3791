use vstd::prelude::*;

use crate::errors::ApiServiceError;
use crate::models::{user_views, LoginRequest, User, UserV};
use crate::password::{bcrypt_matches, verify_password};
use crate::text::str_eq;

verus! {

/// The first record whose email equals the given one exactly.
pub open spec fn first_email_match(s: Seq<UserV>, email: Seq<char>) -> Option<UserV>
    decreases s.len(),
{
    if s.len() == 0 {
        None
    } else if s[0].email == email {
        Some(s[0])
    } else {
        first_email_match(s.drop_first(), email)
    }
}

/// What a login returns: the user found under the email, provided the
/// supplied plaintext verifies against the stored hash. A wrong password
/// and an unknown email both yield nothing, indistinguishably.
pub open spec fn login_outcome(s: Seq<UserV>, email: Seq<char>, password: Seq<char>) -> Option<
    UserV,
> {
    match first_email_match(s, email) {
        Some(u) => if bcrypt_matches(password, u.password) {
            Some(u)
        } else {
            None
        },
        None => None,
    }
}

proof fn lemma_first_email_none(s: Seq<UserV>, email: Seq<char>)
    requires
        forall|i: int| 0 <= i < s.len() ==> (#[trigger] s[i]).email != email,
    ensures
        first_email_match(s, email) is None,
    decreases s.len(),
{
    if s.len() > 0 {
        assert(forall|i: int|
            0 <= i < s.drop_first().len() ==> #[trigger] s.drop_first()[i] == s[i + 1]);
        lemma_first_email_none(s.drop_first(), email);
    }
}

proof fn lemma_first_email_at(s: Seq<UserV>, email: Seq<char>, i: int)
    requires
        0 <= i < s.len(),
        s[i].email == email,
        forall|j: int| 0 <= j < i ==> (#[trigger] s[j]).email != email,
    ensures
        first_email_match(s, email) == Some(s[i]),
    decreases s.len(),
{
    if i > 0 {
        assert(forall|j: int|
            0 <= j < s.drop_first().len() ==> #[trigger] s.drop_first()[j] == s[j + 1]);
        lemma_first_email_at(s.drop_first(), email, i - 1);
    }
}

/// The authentication service: a stateless credential check over the user
/// records of the store.
pub struct ApiService {}

impl ApiService {
    pub fn new() -> ApiService {
        ApiService {  }
    }

    /// Authenticate against the given user records: find the first record
    /// with the exact email, then verify the plaintext against its stored
    /// hash. Wrong password and unknown email are indistinguishable; a
    /// store failure would surface separately, never as a failed login.
    pub fn login(&self, credentials: &LoginRequest, users: &Vec<User>) -> (r: Result<
        Option<User>,
        ApiServiceError,
    >)
        ensures
            r is Ok,
            r matches Ok(opt) ==> {
                &&& opt is Some <==> login_outcome(
                    user_views(users@),
                    credentials.email@,
                    credentials.password@,
                ) is Some
                &&& opt matches Some(u) ==> login_outcome(
                    user_views(users@),
                    credentials.email@,
                    credentials.password@,
                ) == Some(u@)
            },
    {
        let n = users.len();
        let mut i: usize = 0;
        while i < n
            invariant
                i <= n,
                n == users@.len(),
                forall|j: int|
                    0 <= j < i ==> (#[trigger] user_views(users@)[j]).email != credentials.email@,
            decreases n - i,
        {
            if str_eq(users[i].email.as_str(), credentials.email.as_str()) {
                proof {
                    lemma_first_email_at(user_views(users@), credentials.email@, i as int);
                }
                if verify_password(credentials.password.as_str(), users[i].password.as_str()) {
                    return Ok(Some(users[i].clone()));
                } else {
                    return Ok(None);
                }
            }
            i += 1;
        }
        proof {
            lemma_first_email_none(user_views(users@), credentials.email@);
        }
        Ok(None)
    }
}

} // verus!
