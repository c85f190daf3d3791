use vstd::prelude::*;

use crate::errors::ApiServiceError;
use crate::models::{course_views, Course, CourseSearchParams, CourseV};
use crate::text::{contains_ci, str_contains_ci, str_eq};

verus! {

/// No filter field was provided.
pub open spec fn params_empty(p: CourseSearchParams) -> bool {
    p.title is None && p.author is None && p.platform is None && p.topics is None
}

/// Some stored topic equals some wanted topic, exactly and case-sensitively.
pub open spec fn topic_match(topics: Seq<Seq<char>>, wanted: Seq<Seq<char>>) -> bool {
    exists|i: int, j: int|
        0 <= i < topics.len() && 0 <= j < wanted.len() && #[trigger] topics[i] == #[trigger] wanted[j]
}

/// A course matches if any provided field matches: text fields by
/// ASCII-case-insensitive substring, topics by exact membership. Filters
/// broaden the result rather than narrowing it.
pub open spec fn course_matches(c: CourseV, p: CourseSearchParams) -> bool {
    ||| (p.title matches Some(t) && contains_ci(c.title, t@))
    ||| (p.author matches Some(a) && contains_ci(c.author, a@))
    ||| (p.platform matches Some(f) && contains_ci(c.platform, f@))
    ||| (p.topics matches Some(ts) && topic_match(c.topics, ts.deep_view()))
}

/// A topic filter matches every course whose topic set contains one of the
/// wanted topics, by exact, case-sensitive string equality.
pub proof fn lemma_topic_membership(c: CourseV, p: CourseSearchParams, i: int, j: int)
    requires
        p.topics matches Some(ts) && 0 <= i < c.topics.len() && 0 <= j < ts.deep_view().len()
            && c.topics[i] == ts.deep_view()[j],
    ensures
        course_matches(c, p),
{
}

/// Exact membership test between stored and wanted topic lists.
fn topics_intersect(topics: &Vec<String>, wanted: &Vec<String>) -> (r: bool)
    ensures
        r == topic_match(topics.deep_view(), wanted.deep_view()),
{
    let n = topics.len();
    let m = wanted.len();
    let mut i: usize = 0;
    while i < n
        invariant
            i <= n,
            n == topics@.len(),
            m == wanted@.len(),
            forall|i2: int, j2: int|
                0 <= i2 < i && 0 <= j2 < m ==> #[trigger] topics.deep_view()[i2]
                    != #[trigger] wanted.deep_view()[j2],
        decreases n - i,
    {
        let mut j: usize = 0;
        while j < m
            invariant
                j <= m,
                i < n,
                n == topics@.len(),
                m == wanted@.len(),
                forall|j2: int|
                    0 <= j2 < j ==> topics.deep_view()[i as int] != #[trigger] wanted.deep_view()[j2],
            decreases m - j,
        {
            if str_eq(topics[i].as_str(), wanted[j].as_str()) {
                proof {
                    assert(topics.deep_view()[i as int] == wanted.deep_view()[j as int]);
                }
                return true;
            }
            j += 1;
        }
        i += 1;
    }
    false
}

/// Whether one course satisfies the filter.
fn matches_course(c: &Course, p: &CourseSearchParams) -> (r: bool)
    ensures
        r == course_matches(c@, *p),
{
    if let Some(t) = &p.title {
        if str_contains_ci(c.title.as_str(), t.as_str()) {
            return true;
        }
    }
    if let Some(a) = &p.author {
        if str_contains_ci(c.author.as_str(), a.as_str()) {
            return true;
        }
    }
    if let Some(f) = &p.platform {
        if str_contains_ci(c.platform.as_str(), f.as_str()) {
            return true;
        }
    }
    if let Some(ts) = &p.topics {
        if topics_intersect(&c.topics, ts) {
            return true;
        }
    }
    false
}

/// The course search: a stateless filter over the course records of the
/// store.
pub struct ApiService {}

impl ApiService {
    pub fn new() -> ApiService {
        ApiService {  }
    }

    /// Search the given course records. At least one filter field must be
    /// provided; an all-empty filter is rejected before the store is
    /// touched. The result keeps every matching record, in order.
    pub fn search(&self, params: &CourseSearchParams, courses: &Vec<Course>) -> (r: Result<
        Vec<Course>,
        ApiServiceError,
    >)
        ensures
            r is Err <==> params_empty(*params),
            r matches Err(e) ==> e is EmptyQuery,
            r matches Ok(v) ==> course_views(v@) == course_views(courses@).filter(
                |c: CourseV| course_matches(c, *params),
            ),
    {
        if params.title.is_none() && params.author.is_none() && params.platform.is_none()
            && params.topics.is_none() {
            return Err(ApiServiceError::EmptyQuery);
        }
        let n = courses.len();
        let mut v: Vec<Course> = Vec::new();
        let mut i: usize = 0;
        proof {
            assert(course_views(courses@.subrange(0, 0)) =~= Seq::<CourseV>::empty());
            assert(course_views(v@) =~= Seq::<CourseV>::empty());
            assert(Seq::<CourseV>::empty().filter(|c: CourseV| course_matches(c, *params))
                =~= Seq::<CourseV>::empty());
        }
        while i < n
            invariant
                i <= n,
                n == courses@.len(),
                course_views(v@) == course_views(courses@.subrange(0, i as int)).filter(
                    |c: CourseV| course_matches(c, *params),
                ),
            decreases n - i,
        {
            let ghost pred = |c: CourseV| course_matches(c, *params);
            let ghost pre = course_views(courses@.subrange(0, i as int));
            let ghost old_v = v@;
            if matches_course(&courses[i], params) {
                v.push(courses[i].clone());
            }
            proof {
                reveal(Seq::filter);
                let post = course_views(courses@.subrange(0, i as int + 1));
                assert(post.drop_last() =~= pre);
                assert(post.last() == courses@[i as int]@);
                assert(post.filter(pred) == if pred(post.last()) {
                    post.drop_last().filter(pred).push(post.last())
                } else {
                    post.drop_last().filter(pred)
                });
                if pred(courses@[i as int]@) {
                    assert(course_views(v@) =~= course_views(old_v).push(courses@[i as int]@));
                } else {
                    assert(course_views(v@) =~= course_views(old_v));
                }
            }
            i += 1;
        }
        proof {
            assert(courses@.subrange(0, n as int) =~= courses@);
        }
        Ok(v)
    }
}

} // verus!
