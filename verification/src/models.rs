use vstd::prelude::*;

use crate::oid::Oid;
use crate::text::{clone_opt_string_vec, clone_string_vec, opt_string_vec_eq, str_eq,
    string_vec_eq};

verus! {

/// A course being tracked. The identifier is absent before insertion and
/// present, store-assigned, thereafter; timestamps are caller-supplied
/// millisecond counts.
pub struct Course {
    pub _id: Option<Oid>,
    pub title: String,
    pub platform: String,
    pub author: String,
    pub duration: i32,
    pub language: String,
    pub description: String,
    pub url: String,
    pub topics: Vec<String>,
    pub created_at: i64,
    pub updated_at: i64,
}

/// The mathematical content of a course record.
#[verifier::ext_equal]
pub ghost struct CourseV {
    pub id: Option<Seq<u8>>,
    pub title: Seq<char>,
    pub platform: Seq<char>,
    pub author: Seq<char>,
    pub duration: i32,
    pub language: Seq<char>,
    pub description: Seq<char>,
    pub url: Seq<char>,
    pub topics: Seq<Seq<char>>,
    pub created_at: i64,
    pub updated_at: i64,
}

impl View for Course {
    type V = CourseV;

    open spec fn view(&self) -> CourseV {
        CourseV {
            id: match self._id {
                Some(o) => Some(o@),
                None => None,
            },
            title: self.title@,
            platform: self.platform@,
            author: self.author@,
            duration: self.duration,
            language: self.language@,
            description: self.description@,
            url: self.url@,
            topics: self.topics.deep_view(),
            created_at: self.created_at,
            updated_at: self.updated_at,
        }
    }
}

impl Clone for Course {
    fn clone(&self) -> (r: Self)
        ensures
            r@ == self@,
    {
        Course {
            _id: match &self._id {
                Some(o) => Some(o.clone()),
                None => None,
            },
            title: self.title.clone(),
            platform: self.platform.clone(),
            author: self.author.clone(),
            duration: self.duration,
            language: self.language.clone(),
            description: self.description.clone(),
            url: self.url.clone(),
            topics: clone_string_vec(&self.topics),
            created_at: self.created_at,
            updated_at: self.updated_at,
        }
    }
}

/// A user account. The password field holds only the one-way hash; the
/// plaintext exists solely inside a login check.
pub struct User {
    pub _id: Option<Oid>,
    pub name: String,
    pub lastname: String,
    pub major: String,
    pub email: String,
    pub password: String,
    pub courses: Option<Vec<String>>,
    pub watched_ids: Option<Vec<String>>,
    pub created_at: i64,
    pub updated_at: i64,
}

/// The mathematical content of a user record.
#[verifier::ext_equal]
pub ghost struct UserV {
    pub id: Option<Seq<u8>>,
    pub name: Seq<char>,
    pub lastname: Seq<char>,
    pub major: Seq<char>,
    pub email: Seq<char>,
    pub password: Seq<char>,
    pub courses: Option<Seq<Seq<char>>>,
    pub watched_ids: Option<Seq<Seq<char>>>,
    pub created_at: i64,
    pub updated_at: i64,
}

impl View for User {
    type V = UserV;

    open spec fn view(&self) -> UserV {
        UserV {
            id: match self._id {
                Some(o) => Some(o@),
                None => None,
            },
            name: self.name@,
            lastname: self.lastname@,
            major: self.major@,
            email: self.email@,
            password: self.password@,
            courses: match self.courses {
                Some(v) => Some(v.deep_view()),
                None => None,
            },
            watched_ids: match self.watched_ids {
                Some(v) => Some(v.deep_view()),
                None => None,
            },
            created_at: self.created_at,
            updated_at: self.updated_at,
        }
    }
}

impl Clone for User {
    fn clone(&self) -> (r: Self)
        ensures
            r@ == self@,
    {
        User {
            _id: match &self._id {
                Some(o) => Some(o.clone()),
                None => None,
            },
            name: self.name.clone(),
            lastname: self.lastname.clone(),
            major: self.major.clone(),
            email: self.email.clone(),
            password: self.password.clone(),
            courses: clone_opt_string_vec(&self.courses),
            watched_ids: clone_opt_string_vec(&self.watched_ids),
            created_at: self.created_at,
            updated_at: self.updated_at,
        }
    }
}

/// A completion record: a weak reference to a course, with a soft-delete
/// flag managed by the caller.
pub struct Watched {
    pub _id: Option<Oid>,
    pub course_id: Oid,
    pub finished_at: i64,
    pub created_at: i64,
    pub updated_at: i64,
    pub archived: bool,
}

/// The mathematical content of a completion record.
#[verifier::ext_equal]
pub ghost struct WatchedV {
    pub id: Option<Seq<u8>>,
    pub course_id: Seq<u8>,
    pub finished_at: i64,
    pub created_at: i64,
    pub updated_at: i64,
    pub archived: bool,
}

impl View for Watched {
    type V = WatchedV;

    open spec fn view(&self) -> WatchedV {
        WatchedV {
            id: match self._id {
                Some(o) => Some(o@),
                None => None,
            },
            course_id: self.course_id@,
            finished_at: self.finished_at,
            created_at: self.created_at,
            updated_at: self.updated_at,
            archived: self.archived,
        }
    }
}

impl Clone for Watched {
    fn clone(&self) -> (r: Self)
        ensures
            r@ == self@,
    {
        Watched {
            _id: match &self._id {
                Some(o) => Some(o.clone()),
                None => None,
            },
            course_id: self.course_id.clone(),
            finished_at: self.finished_at,
            created_at: self.created_at,
            updated_at: self.updated_at,
            archived: self.archived,
        }
    }
}

/// Transient login credentials; never persisted.
pub struct LoginRequest {
    pub email: String,
    pub password: String,
}

/// Optional filter fields for the course search.
pub struct CourseSearchParams {
    pub title: Option<String>,
    pub author: Option<String>,
    pub platform: Option<String>,
    pub topics: Option<Vec<String>>,
}

/// Optional filter fields for the user search.
pub struct UserSearchParams {
    pub email: Option<String>,
}

/// Equality of two optional identifiers, by bytes.
fn opt_id_eq(a: &Option<Oid>, b: &Option<Oid>) -> (r: bool)
    ensures
        r == (match (a, b) {
            (Some(x), Some(y)) => x@ == y@,
            (None, None) => true,
            _ => false,
        }),
{
    match (a, b) {
        (Some(x), Some(y)) => x.eq_id(y),
        (None, None) => true,
        _ => false,
    }
}

/// Whether two course records hold the same content.
pub fn course_view_eq(a: &Course, b: &Course) -> (r: bool)
    ensures
        r == (a@ == b@),
{
    let r = opt_id_eq(&a._id, &b._id) && str_eq(a.title.as_str(), b.title.as_str()) && str_eq(
        a.platform.as_str(),
        b.platform.as_str(),
    ) && str_eq(a.author.as_str(), b.author.as_str()) && a.duration == b.duration && str_eq(
        a.language.as_str(),
        b.language.as_str(),
    ) && str_eq(a.description.as_str(), b.description.as_str()) && str_eq(
        a.url.as_str(),
        b.url.as_str(),
    ) && string_vec_eq(&a.topics, &b.topics) && a.created_at == b.created_at && a.updated_at
        == b.updated_at;
    proof {
        if r {
            assert(a@ =~= b@);
        }
    }
    r
}

/// Whether two user records hold the same content, the password hash
/// included.
pub fn user_view_eq(a: &User, b: &User) -> (r: bool)
    ensures
        r == (a@ == b@),
{
    let r = opt_id_eq(&a._id, &b._id) && str_eq(a.name.as_str(), b.name.as_str()) && str_eq(
        a.lastname.as_str(),
        b.lastname.as_str(),
    ) && str_eq(a.major.as_str(), b.major.as_str()) && str_eq(a.email.as_str(), b.email.as_str())
        && str_eq(a.password.as_str(), b.password.as_str()) && opt_string_vec_eq(
        &a.courses,
        &b.courses,
    ) && opt_string_vec_eq(&a.watched_ids, &b.watched_ids) && a.created_at == b.created_at
        && a.updated_at == b.updated_at;
    proof {
        if r {
            assert(a@ =~= b@);
        }
    }
    r
}

/// Whether two completion records hold the same content.
pub fn watched_view_eq(a: &Watched, b: &Watched) -> (r: bool)
    ensures
        r == (a@ == b@),
{
    let r = opt_id_eq(&a._id, &b._id) && a.course_id.eq_id(&b.course_id) && a.finished_at
        == b.finished_at && a.created_at == b.created_at && a.updated_at == b.updated_at
        && a.archived == b.archived;
    proof {
        if r {
            assert(a@ =~= b@);
        }
    }
    r
}

/// The views of a sequence of course records.
pub open spec fn course_views(s: Seq<Course>) -> Seq<CourseV> {
    s.map(|i: int, c: Course| c@)
}

/// The views of a sequence of user records.
pub open spec fn user_views(s: Seq<User>) -> Seq<UserV> {
    s.map(|i: int, u: User| u@)
}

} // verus!
