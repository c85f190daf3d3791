use learning_tracker::course_search_service::ApiService as CourseSearchService;
use learning_tracker::course_service::ApiService as CourseService;
use learning_tracker::errors::ApiServiceError;
use learning_tracker::models::{Course, CourseSearchParams};
use learning_tracker::oid::oid_to_hex;

fn course(title: &str, platform: &str, author: &str, topics: &[&str]) -> Course {
    Course {
        _id: None,
        title: title.to_string(),
        platform: platform.to_string(),
        author: author.to_string(),
        duration: 120,
        language: "en".to_string(),
        description: "a course".to_string(),
        url: "https://example.org".to_string(),
        topics: topics.iter().map(|t| t.to_string()).collect(),
        created_at: 1_700_000_000_000,
        updated_at: 1_700_000_001_000,
    }
}

#[test]
fn create_then_get_by_id_returns_the_record() {
    let mut service = CourseService::new();
    let input = course("Verified Rust", "edx", "Grace", &["rust", "proofs"]);
    let oid = service.create(&input).unwrap();
    let got = service.get_by_id(&oid_to_hex(&oid)).unwrap().unwrap();
    assert_eq!(got.title, input.title);
    assert_eq!(got.platform, input.platform);
    assert_eq!(got.author, input.author);
    assert_eq!(got.duration, input.duration);
    assert_eq!(got.language, input.language);
    assert_eq!(got.description, input.description);
    assert_eq!(got.url, input.url);
    assert_eq!(got.topics, input.topics);
    assert_eq!(got.created_at, input.created_at);
    assert_eq!(got.updated_at, input.updated_at);
    assert!(got._id.is_some());
}

#[test]
fn get_by_id_malformed_identifier_is_rejected() {
    let service = CourseService::new();
    let r = service.get_by_id("not-a-hex-identifier");
    assert!(matches!(r, Err(ApiServiceError::InvalidObjectId)));
}

#[test]
fn update_malformed_identifier_is_rejected() {
    let mut service = CourseService::new();
    let c = course("A", "B", "C", &[]);
    let r = service.update(&c, "zz");
    assert!(matches!(r, Err(ApiServiceError::InvalidObjectId)));
}

#[test]
fn delete_malformed_identifier_is_rejected() {
    let mut service = CourseService::new();
    let r = service.delete("0123");
    assert!(matches!(r, Err(ApiServiceError::InvalidObjectId)));
}

#[test]
fn get_by_id_unknown_identifier_is_none() {
    let service = CourseService::new();
    let r = service.get_by_id("0123456789abcdef01234567").unwrap();
    assert!(r.is_none());
}

#[test]
fn update_replaces_every_field() {
    let mut service = CourseService::new();
    let oid = service.create(&course("Old", "udemy", "Ada", &["c"])).unwrap();
    let hex = oid_to_hex(&oid);
    let replacement = course("New", "edx", "Grace", &["rust"]);
    let modified = service.update(&replacement, &hex).unwrap();
    assert_eq!(modified, 1);
    let got = service.get_by_id(&hex).unwrap().unwrap();
    assert_eq!(got.title, "New");
    assert_eq!(got.platform, "edx");
    assert_eq!(got.author, "Grace");
    assert_eq!(got.topics, vec!["rust".to_string()]);
}

#[test]
fn update_unknown_identifier_modifies_nothing() {
    let mut service = CourseService::new();
    let c = course("A", "B", "C", &[]);
    let modified = service.update(&c, "0123456789abcdef01234567").unwrap();
    assert_eq!(modified, 0);
}

#[test]
fn delete_removes_the_record() {
    let mut service = CourseService::new();
    let oid = service.create(&course("A", "B", "C", &[])).unwrap();
    let hex = oid_to_hex(&oid);
    assert_eq!(service.delete(&hex).unwrap(), 1);
    assert!(service.get_by_id(&hex).unwrap().is_none());
    assert_eq!(service.delete(&hex).unwrap(), 0);
}

#[test]
fn get_all_returns_records_in_insertion_order() {
    let mut service = CourseService::new();
    service.create(&course("First", "p", "a", &[])).unwrap();
    service.create(&course("Second", "p", "a", &[])).unwrap();
    let all = service.get_all().unwrap();
    assert_eq!(all.len(), 2);
    assert_eq!(all[0].title, "First");
    assert_eq!(all[1].title, "Second");
}

fn no_filter() -> CourseSearchParams {
    CourseSearchParams { title: None, author: None, platform: None, topics: None }
}

#[test]
fn search_with_no_filter_fields_is_an_empty_query() {
    let search = CourseSearchService::new();
    let r = search.search(&no_filter(), &Vec::new());
    assert!(matches!(r, Err(ApiServiceError::EmptyQuery)));
}

#[test]
fn search_by_topic_matches_topic_membership() {
    let search = CourseSearchService::new();
    let courses = vec![
        course("With rust", "p", "a", &["rust", "systems"]),
        course("Without", "p", "a", &["python"]),
        course("Also rust", "p", "a", &["rust"]),
    ];
    let params = CourseSearchParams { topics: Some(vec!["rust".to_string()]), ..no_filter() };
    let hits = search.search(&params, &courses).unwrap();
    assert_eq!(hits.len(), 2);
    assert_eq!(hits[0].title, "With rust");
    assert_eq!(hits[1].title, "Also rust");
}

#[test]
fn search_topic_match_is_case_sensitive() {
    let search = CourseSearchService::new();
    let courses = vec![course("C", "p", "a", &["Rust"])];
    let params = CourseSearchParams { topics: Some(vec!["rust".to_string()]), ..no_filter() };
    let hits = search.search(&params, &courses).unwrap();
    assert_eq!(hits.len(), 0);
}

#[test]
fn search_by_title_is_case_insensitive_substring() {
    let search = CourseSearchService::new();
    let courses = vec![
        course("Advanced RUST Programming", "p", "a", &[]),
        course("Gardening", "p", "a", &[]),
    ];
    let params = CourseSearchParams { title: Some("rust".to_string()), ..no_filter() };
    let hits = search.search(&params, &courses).unwrap();
    assert_eq!(hits.len(), 1);
    assert_eq!(hits[0].title, "Advanced RUST Programming");
}

#[test]
fn search_combines_fields_with_or() {
    let search = CourseSearchService::new();
    let courses = vec![
        course("Mathematics", "p", "Knuth", &[]),
        course("Algorithms", "p", "Dijkstra", &[]),
        course("Cooking", "p", "Child", &[]),
    ];
    let params = CourseSearchParams {
        title: Some("math".to_string()),
        author: Some("dijkstra".to_string()),
        ..no_filter()
    };
    let hits = search.search(&params, &courses).unwrap();
    assert_eq!(hits.len(), 2);
    assert_eq!(hits[0].title, "Mathematics");
    assert_eq!(hits[1].title, "Algorithms");
}

#[test]
fn create_assigns_distinct_identifiers() {
    let mut service = CourseService::new();
    let a = service.create(&course("A", "p", "x", &[])).unwrap();
    let b = service.create(&course("B", "p", "x", &[])).unwrap();
    assert_ne!(oid_to_hex(&a), oid_to_hex(&b));
    let got_a = service.get_by_id(&oid_to_hex(&a)).unwrap().unwrap();
    let got_b = service.get_by_id(&oid_to_hex(&b)).unwrap().unwrap();
    assert_eq!(got_a.title, "A");
    assert_eq!(got_b.title, "B");
}

#[test]
fn identical_update_modifies_nothing() {
    let mut service = CourseService::new();
    let input = course("Stable", "edx", "Grace", &["rust"]);
    let oid = service.create(&input).unwrap();
    let hex = oid_to_hex(&oid);
    assert_eq!(service.update(&input, &hex).unwrap(), 0);
    let mut changed = course("Stable", "edx", "Grace", &["rust"]);
    changed.duration = 999;
    assert_eq!(service.update(&changed, &hex).unwrap(), 1);
    assert_eq!(service.update(&changed, &hex).unwrap(), 0);
    let got = service.get_by_id(&hex).unwrap().unwrap();
    assert_eq!(got.duration, 999);
}
