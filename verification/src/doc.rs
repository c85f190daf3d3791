use vstd::prelude::*;

use crate::models::{Course, CourseV, User, UserV, Watched, WatchedV};
use crate::oid::Oid;
use crate::text::{clone_string_vec, str_eq};

verus! {

/// A field value of a store document.
pub enum Value {
    Str(String),
    I32(i32),
    I64(i64),
    Bool(bool),
    StrArr(Vec<String>),
    Id(Oid),
}

/// The mathematical content of a field value.
#[verifier::ext_equal]
pub ghost enum ValueV {
    Str(Seq<char>),
    I32(i32),
    I64(i64),
    Bool(bool),
    StrArr(Seq<Seq<char>>),
    Id(Seq<u8>),
}

impl View for Value {
    type V = ValueV;

    open spec fn view(&self) -> ValueV {
        match self {
            Value::Str(s) => ValueV::Str(s@),
            Value::I32(n) => ValueV::I32(*n),
            Value::I64(n) => ValueV::I64(*n),
            Value::Bool(b) => ValueV::Bool(*b),
            Value::StrArr(v) => ValueV::StrArr(v.deep_view()),
            Value::Id(o) => ValueV::Id(o@),
        }
    }
}

/// A store document: named fields in a fixed writing order.
pub struct Document {
    pub pairs: Vec<(String, Value)>,
}

impl View for Document {
    type V = Seq<(Seq<char>, ValueV)>;

    open spec fn view(&self) -> Seq<(Seq<char>, ValueV)> {
        self.pairs@.map(|i: int, p: (String, Value)| (p.0@, p.1@))
    }
}

/// The document written for a course: every field but the identifier, in
/// canonical order.
pub open spec fn course_doc(c: CourseV) -> Seq<(Seq<char>, ValueV)> {
    seq![
        ("title"@, ValueV::Str(c.title)),
        ("platform"@, ValueV::Str(c.platform)),
        ("author"@, ValueV::Str(c.author)),
        ("duration"@, ValueV::I32(c.duration)),
        ("language"@, ValueV::Str(c.language)),
        ("description"@, ValueV::Str(c.description)),
        ("url"@, ValueV::Str(c.url)),
        ("topics"@, ValueV::StrArr(c.topics)),
        ("created_at"@, ValueV::I64(c.created_at)),
        ("updated_at"@, ValueV::I64(c.updated_at)),
    ]
}

/// Write a course as a document.
pub fn course_to_document(c: &Course) -> (d: Document)
    ensures
        d@ == course_doc(c@),
{
    let mut pairs: Vec<(String, Value)> = Vec::new();
    pairs.push(("title".to_owned(), Value::Str(c.title.clone())));
    pairs.push(("platform".to_owned(), Value::Str(c.platform.clone())));
    pairs.push(("author".to_owned(), Value::Str(c.author.clone())));
    pairs.push(("duration".to_owned(), Value::I32(c.duration)));
    pairs.push(("language".to_owned(), Value::Str(c.language.clone())));
    pairs.push(("description".to_owned(), Value::Str(c.description.clone())));
    pairs.push(("url".to_owned(), Value::Str(c.url.clone())));
    pairs.push(("topics".to_owned(), Value::StrArr(clone_string_vec(&c.topics))));
    pairs.push(("created_at".to_owned(), Value::I64(c.created_at)));
    pairs.push(("updated_at".to_owned(), Value::I64(c.updated_at)));
    let d = Document { pairs };
    proof {
        assert(d@ =~= course_doc(c@));
    }
    d
}

/// The course a document denotes, if it has exactly the canonical fields
/// in the canonical order; the identifier is absent before insertion.
pub open spec fn course_of_doc(d: Seq<(Seq<char>, ValueV)>) -> Option<CourseV> {
    if d.len() == 10 && d[0].0 == "title"@ && d[0].1 is Str && d[1].0 == "platform"@ && d[1].1
        is Str && d[2].0 == "author"@ && d[2].1 is Str && d[3].0 == "duration"@ && d[3].1 is I32
        && d[4].0 == "language"@ && d[4].1 is Str && d[5].0 == "description"@ && d[5].1 is Str
        && d[6].0 == "url"@ && d[6].1 is Str && d[7].0 == "topics"@ && d[7].1 is StrArr && d[8].0
        == "created_at"@ && d[8].1 is I64 && d[9].0 == "updated_at"@ && d[9].1 is I64 {
        Some(
            CourseV {
                id: None,
                title: d[0].1->Str_0,
                platform: d[1].1->Str_0,
                author: d[2].1->Str_0,
                duration: d[3].1->I32_0,
                language: d[4].1->Str_0,
                description: d[5].1->Str_0,
                url: d[6].1->Str_0,
                topics: d[7].1->StrArr_0,
                created_at: d[8].1->I64_0,
                updated_at: d[9].1->I64_0,
            },
        )
    } else {
        None
    }
}

/// Read a course back from a document in canonical form.
pub fn course_from_document(d: &Document) -> (r: Option<Course>)
    ensures
        r is Some <==> course_of_doc(d@) is Some,
        r matches Some(c) ==> course_of_doc(d@) == Some(c@),
{
    if d.pairs.len() != 10 {
        return None;
    }
    if !str_eq(d.pairs[0].0.as_str(), "title") {
        return None;
    }
    if !str_eq(d.pairs[1].0.as_str(), "platform") {
        return None;
    }
    if !str_eq(d.pairs[2].0.as_str(), "author") {
        return None;
    }
    if !str_eq(d.pairs[3].0.as_str(), "duration") {
        return None;
    }
    if !str_eq(d.pairs[4].0.as_str(), "language") {
        return None;
    }
    if !str_eq(d.pairs[5].0.as_str(), "description") {
        return None;
    }
    if !str_eq(d.pairs[6].0.as_str(), "url") {
        return None;
    }
    if !str_eq(d.pairs[7].0.as_str(), "topics") {
        return None;
    }
    if !str_eq(d.pairs[8].0.as_str(), "created_at") {
        return None;
    }
    if !str_eq(d.pairs[9].0.as_str(), "updated_at") {
        return None;
    }
    let title = match &d.pairs[0].1 {
        Value::Str(s) => s.clone(),
        _ => {
            return None;
        },
    };
    let platform = match &d.pairs[1].1 {
        Value::Str(s) => s.clone(),
        _ => {
            return None;
        },
    };
    let author = match &d.pairs[2].1 {
        Value::Str(s) => s.clone(),
        _ => {
            return None;
        },
    };
    let duration = match &d.pairs[3].1 {
        Value::I32(n) => *n,
        _ => {
            return None;
        },
    };
    let language = match &d.pairs[4].1 {
        Value::Str(s) => s.clone(),
        _ => {
            return None;
        },
    };
    let description = match &d.pairs[5].1 {
        Value::Str(s) => s.clone(),
        _ => {
            return None;
        },
    };
    let url = match &d.pairs[6].1 {
        Value::Str(s) => s.clone(),
        _ => {
            return None;
        },
    };
    let topics = match &d.pairs[7].1 {
        Value::StrArr(v) => clone_string_vec(v),
        _ => {
            return None;
        },
    };
    let created_at = match &d.pairs[8].1 {
        Value::I64(n) => *n,
        _ => {
            return None;
        },
    };
    let updated_at = match &d.pairs[9].1 {
        Value::I64(n) => *n,
        _ => {
            return None;
        },
    };
    Some(
        Course {
            _id: None,
            title,
            platform,
            author,
            duration,
            language,
            description,
            url,
            topics,
            created_at,
            updated_at,
        },
    )
}

/// Writing a course as a document and reading it back preserves every
/// field; only the identifier is handled specially, absent before insert.
pub proof fn lemma_course_doc_round_trip(c: CourseV)
    ensures
        course_of_doc(course_doc(c)) == Some(CourseV { id: None, ..c }),
{
    let d = course_doc(c);
    assert(d[0] == ("title"@, ValueV::Str(c.title)));
    assert(d[1] == ("platform"@, ValueV::Str(c.platform)));
    assert(d[2] == ("author"@, ValueV::Str(c.author)));
    assert(d[3] == ("duration"@, ValueV::I32(c.duration)));
    assert(d[4] == ("language"@, ValueV::Str(c.language)));
    assert(d[5] == ("description"@, ValueV::Str(c.description)));
    assert(d[6] == ("url"@, ValueV::Str(c.url)));
    assert(d[7] == ("topics"@, ValueV::StrArr(c.topics)));
    assert(d[8] == ("created_at"@, ValueV::I64(c.created_at)));
    assert(d[9] == ("updated_at"@, ValueV::I64(c.updated_at)));
}

/// The document written for a user: every field but the identifier; an
/// absent reference list is written as an empty one.
pub open spec fn user_doc(u: UserV) -> Seq<(Seq<char>, ValueV)> {
    seq![
        ("name"@, ValueV::Str(u.name)),
        ("lastname"@, ValueV::Str(u.lastname)),
        ("major"@, ValueV::Str(u.major)),
        ("email"@, ValueV::Str(u.email)),
        ("password"@, ValueV::Str(u.password)),
        (
            "courses"@,
            ValueV::StrArr(
                match u.courses {
                    Some(s) => s,
                    None => Seq::empty(),
                },
            ),
        ),
        (
            "watched_ids"@,
            ValueV::StrArr(
                match u.watched_ids {
                    Some(s) => s,
                    None => Seq::empty(),
                },
            ),
        ),
        ("created_at"@, ValueV::I64(u.created_at)),
        ("updated_at"@, ValueV::I64(u.updated_at)),
    ]
}

/// Write a user as a document; the password field carries the stored hash,
/// never a plaintext.
pub fn user_to_document(u: &User) -> (d: Document)
    ensures
        d@ == user_doc(u@),
{
    let courses = match &u.courses {
        Some(v) => clone_string_vec(v),
        None => Vec::new(),
    };
    let watched_ids = match &u.watched_ids {
        Some(v) => clone_string_vec(v),
        None => Vec::new(),
    };
    proof {
        if u.courses is None {
            assert(courses.deep_view() =~= Seq::<Seq<char>>::empty());
        }
        if u.watched_ids is None {
            assert(watched_ids.deep_view() =~= Seq::<Seq<char>>::empty());
        }
    }
    let mut pairs: Vec<(String, Value)> = Vec::new();
    pairs.push(("name".to_owned(), Value::Str(u.name.clone())));
    pairs.push(("lastname".to_owned(), Value::Str(u.lastname.clone())));
    pairs.push(("major".to_owned(), Value::Str(u.major.clone())));
    pairs.push(("email".to_owned(), Value::Str(u.email.clone())));
    pairs.push(("password".to_owned(), Value::Str(u.password.clone())));
    pairs.push(("courses".to_owned(), Value::StrArr(courses)));
    pairs.push(("watched_ids".to_owned(), Value::StrArr(watched_ids)));
    pairs.push(("created_at".to_owned(), Value::I64(u.created_at)));
    pairs.push(("updated_at".to_owned(), Value::I64(u.updated_at)));
    let d = Document { pairs };
    proof {
        assert(d@ =~= user_doc(u@));
    }
    d
}

/// The document written for a completion record: every field but the
/// identifier.
pub open spec fn watched_doc(w: WatchedV) -> Seq<(Seq<char>, ValueV)> {
    seq![
        ("course_id"@, ValueV::Id(w.course_id)),
        ("finished_at"@, ValueV::I64(w.finished_at)),
        ("created_at"@, ValueV::I64(w.created_at)),
        ("updated_at"@, ValueV::I64(w.updated_at)),
        ("archived"@, ValueV::Bool(w.archived)),
    ]
}

/// Write a completion record as a document.
pub fn watched_to_document(w: &Watched) -> (d: Document)
    ensures
        d@ == watched_doc(w@),
{
    let mut pairs: Vec<(String, Value)> = Vec::new();
    pairs.push(("course_id".to_owned(), Value::Id(w.course_id.clone())));
    pairs.push(("finished_at".to_owned(), Value::I64(w.finished_at)));
    pairs.push(("created_at".to_owned(), Value::I64(w.created_at)));
    pairs.push(("updated_at".to_owned(), Value::I64(w.updated_at)));
    pairs.push(("archived".to_owned(), Value::Bool(w.archived)));
    let d = Document { pairs };
    proof {
        assert(d@ =~= watched_doc(w@));
    }
    d
}

/// The user a document denotes, if it has exactly the canonical fields in
/// the canonical order; the identifier is absent before insertion, and the
/// reference lists are always present, documents carrying them as arrays.
pub open spec fn user_of_doc(d: Seq<(Seq<char>, ValueV)>) -> Option<UserV> {
    if d.len() == 9 && d[0].0 == "name"@ && d[0].1 is Str && d[1].0 == "lastname"@ && d[1].1
        is Str && d[2].0 == "major"@ && d[2].1 is Str && d[3].0 == "email"@ && d[3].1 is Str
        && d[4].0 == "password"@ && d[4].1 is Str && d[5].0 == "courses"@ && d[5].1 is StrArr
        && d[6].0 == "watched_ids"@ && d[6].1 is StrArr && d[7].0 == "created_at"@ && d[7].1
        is I64 && d[8].0 == "updated_at"@ && d[8].1 is I64 {
        Some(
            UserV {
                id: None,
                name: d[0].1->Str_0,
                lastname: d[1].1->Str_0,
                major: d[2].1->Str_0,
                email: d[3].1->Str_0,
                password: d[4].1->Str_0,
                courses: Some(d[5].1->StrArr_0),
                watched_ids: Some(d[6].1->StrArr_0),
                created_at: d[7].1->I64_0,
                updated_at: d[8].1->I64_0,
            },
        )
    } else {
        None
    }
}

/// Read a user back from a document in canonical form.
pub fn user_from_document(d: &Document) -> (r: Option<User>)
    ensures
        r is Some <==> user_of_doc(d@) is Some,
        r matches Some(u) ==> user_of_doc(d@) == Some(u@),
{
    if d.pairs.len() != 9 {
        return None;
    }
    if !str_eq(d.pairs[0].0.as_str(), "name") {
        return None;
    }
    if !str_eq(d.pairs[1].0.as_str(), "lastname") {
        return None;
    }
    if !str_eq(d.pairs[2].0.as_str(), "major") {
        return None;
    }
    if !str_eq(d.pairs[3].0.as_str(), "email") {
        return None;
    }
    if !str_eq(d.pairs[4].0.as_str(), "password") {
        return None;
    }
    if !str_eq(d.pairs[5].0.as_str(), "courses") {
        return None;
    }
    if !str_eq(d.pairs[6].0.as_str(), "watched_ids") {
        return None;
    }
    if !str_eq(d.pairs[7].0.as_str(), "created_at") {
        return None;
    }
    if !str_eq(d.pairs[8].0.as_str(), "updated_at") {
        return None;
    }
    let name = match &d.pairs[0].1 {
        Value::Str(s) => s.clone(),
        _ => {
            return None;
        },
    };
    let lastname = match &d.pairs[1].1 {
        Value::Str(s) => s.clone(),
        _ => {
            return None;
        },
    };
    let major = match &d.pairs[2].1 {
        Value::Str(s) => s.clone(),
        _ => {
            return None;
        },
    };
    let email = match &d.pairs[3].1 {
        Value::Str(s) => s.clone(),
        _ => {
            return None;
        },
    };
    let password = match &d.pairs[4].1 {
        Value::Str(s) => s.clone(),
        _ => {
            return None;
        },
    };
    let courses = match &d.pairs[5].1 {
        Value::StrArr(v) => clone_string_vec(v),
        _ => {
            return None;
        },
    };
    let watched_ids = match &d.pairs[6].1 {
        Value::StrArr(v) => clone_string_vec(v),
        _ => {
            return None;
        },
    };
    let created_at = match &d.pairs[7].1 {
        Value::I64(n) => *n,
        _ => {
            return None;
        },
    };
    let updated_at = match &d.pairs[8].1 {
        Value::I64(n) => *n,
        _ => {
            return None;
        },
    };
    Some(
        User {
            _id: None,
            name,
            lastname,
            major,
            email,
            password,
            courses: Some(courses),
            watched_ids: Some(watched_ids),
            created_at,
            updated_at,
        },
    )
}

/// A user record as its document denotes it: no identifier, and each
/// reference list present, an absent one having been written as empty.
pub open spec fn user_doc_form(u: UserV) -> UserV {
    UserV {
        id: None,
        courses: Some(
            match u.courses {
                Some(s) => s,
                None => Seq::empty(),
            },
        ),
        watched_ids: Some(
            match u.watched_ids {
                Some(s) => s,
                None => Seq::empty(),
            },
        ),
        ..u
    }
}

/// Writing a user as a document and reading it back preserves every field
/// up to the document form: the identifier is dropped, and an absent
/// reference list, written as an empty array, reads back present and empty.
pub proof fn lemma_user_doc_round_trip(u: UserV)
    ensures
        user_of_doc(user_doc(u)) == Some(user_doc_form(u)),
{
    let d = user_doc(u);
    assert(d[0] == ("name"@, ValueV::Str(u.name)));
    assert(d[1] == ("lastname"@, ValueV::Str(u.lastname)));
    assert(d[2] == ("major"@, ValueV::Str(u.major)));
    assert(d[3] == ("email"@, ValueV::Str(u.email)));
    assert(d[4] == ("password"@, ValueV::Str(u.password)));
    assert(d[7] == ("created_at"@, ValueV::I64(u.created_at)));
    assert(d[8] == ("updated_at"@, ValueV::I64(u.updated_at)));
}

/// The completion record a document denotes, if it has exactly the
/// canonical fields in the canonical order.
pub open spec fn watched_of_doc(d: Seq<(Seq<char>, ValueV)>) -> Option<WatchedV> {
    if d.len() == 5 && d[0].0 == "course_id"@ && d[0].1 is Id && d[1].0 == "finished_at"@
        && d[1].1 is I64 && d[2].0 == "created_at"@ && d[2].1 is I64 && d[3].0 == "updated_at"@
        && d[3].1 is I64 && d[4].0 == "archived"@ && d[4].1 is Bool {
        Some(
            WatchedV {
                id: None,
                course_id: d[0].1->Id_0,
                finished_at: d[1].1->I64_0,
                created_at: d[2].1->I64_0,
                updated_at: d[3].1->I64_0,
                archived: d[4].1->Bool_0,
            },
        )
    } else {
        None
    }
}

/// Read a completion record back from a document in canonical form.
pub fn watched_from_document(d: &Document) -> (r: Option<Watched>)
    ensures
        r is Some <==> watched_of_doc(d@) is Some,
        r matches Some(w) ==> watched_of_doc(d@) == Some(w@),
{
    if d.pairs.len() != 5 {
        return None;
    }
    if !str_eq(d.pairs[0].0.as_str(), "course_id") {
        return None;
    }
    if !str_eq(d.pairs[1].0.as_str(), "finished_at") {
        return None;
    }
    if !str_eq(d.pairs[2].0.as_str(), "created_at") {
        return None;
    }
    if !str_eq(d.pairs[3].0.as_str(), "updated_at") {
        return None;
    }
    if !str_eq(d.pairs[4].0.as_str(), "archived") {
        return None;
    }
    let course_id = match &d.pairs[0].1 {
        Value::Id(o) => o.clone(),
        _ => {
            return None;
        },
    };
    let finished_at = match &d.pairs[1].1 {
        Value::I64(n) => *n,
        _ => {
            return None;
        },
    };
    let created_at = match &d.pairs[2].1 {
        Value::I64(n) => *n,
        _ => {
            return None;
        },
    };
    let updated_at = match &d.pairs[3].1 {
        Value::I64(n) => *n,
        _ => {
            return None;
        },
    };
    let archived = match &d.pairs[4].1 {
        Value::Bool(b) => *b,
        _ => {
            return None;
        },
    };
    Some(Watched { _id: None, course_id, finished_at, created_at, updated_at, archived })
}

/// Writing a completion record as a document and reading it back preserves
/// every field; only the identifier is handled specially, absent before
/// insert.
pub proof fn lemma_watched_doc_round_trip(w: WatchedV)
    ensures
        watched_of_doc(watched_doc(w)) == Some(WatchedV { id: None, ..w }),
{
    let d = watched_doc(w);
    assert(d[0] == ("course_id"@, ValueV::Id(w.course_id)));
    assert(d[1] == ("finished_at"@, ValueV::I64(w.finished_at)));
    assert(d[2] == ("created_at"@, ValueV::I64(w.created_at)));
    assert(d[3] == ("updated_at"@, ValueV::I64(w.updated_at)));
    assert(d[4] == ("archived"@, ValueV::Bool(w.archived)));
}

} // verus!
