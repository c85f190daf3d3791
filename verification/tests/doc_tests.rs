use learning_tracker::doc::{course_from_document, course_to_document, user_from_document,
    user_to_document, watched_from_document, watched_to_document, Document, Value};
use learning_tracker::errors::ApiServiceError;
use learning_tracker::models::{Course, User, Watched};
use learning_tracker::oid::{oid_to_hex, parse_oid};
use learning_tracker::watched_service::ApiService as WatchedService;

fn course() -> Course {
    Course {
        _id: None,
        title: "Verified Systems".to_string(),
        platform: "edx".to_string(),
        author: "Grace".to_string(),
        duration: 240,
        language: "en".to_string(),
        description: "proofs all the way down".to_string(),
        url: "https://example.org/vs".to_string(),
        topics: vec!["rust".to_string(), "verification".to_string()],
        created_at: 1_700_000_000_000,
        updated_at: 1_700_000_001_000,
    }
}

#[test]
fn course_document_round_trip_preserves_every_field() {
    let input = course();
    let doc = course_to_document(&input);
    let back = course_from_document(&doc).expect("canonical document parses");
    assert!(back._id.is_none());
    assert_eq!(back.title, input.title);
    assert_eq!(back.platform, input.platform);
    assert_eq!(back.author, input.author);
    assert_eq!(back.duration, input.duration);
    assert_eq!(back.language, input.language);
    assert_eq!(back.description, input.description);
    assert_eq!(back.url, input.url);
    assert_eq!(back.topics, input.topics);
    assert_eq!(back.created_at, input.created_at);
    assert_eq!(back.updated_at, input.updated_at);
}

#[test]
fn course_document_has_canonical_fields() {
    let doc = course_to_document(&course());
    assert_eq!(doc.pairs.len(), 10);
    assert_eq!(doc.pairs[0].0, "title");
    assert_eq!(doc.pairs[3].0, "duration");
    match &doc.pairs[3].1 {
        Value::I32(n) => assert_eq!(*n, 240),
        _ => panic!("duration should be a 32-bit integer field"),
    }
    match &doc.pairs[7].1 {
        Value::StrArr(topics) => assert_eq!(topics.len(), 2),
        _ => panic!("topics should be a string-array field"),
    }
}

#[test]
fn malformed_document_is_rejected() {
    let mut doc = course_to_document(&course());
    doc.pairs.remove(4);
    assert!(course_from_document(&doc).is_none());

    let empty = Document { pairs: Vec::new() };
    assert!(course_from_document(&empty).is_none());
}

#[test]
fn document_with_wrong_key_is_rejected() {
    let mut doc = course_to_document(&course());
    doc.pairs[0].0 = "headline".to_string();
    assert!(course_from_document(&doc).is_none());
}

#[test]
fn user_document_writes_the_hash_and_both_lists() {
    let u = User {
        _id: None,
        name: "Ada".to_string(),
        lastname: "Lovelace".to_string(),
        major: "CS".to_string(),
        email: "ada@example.org".to_string(),
        password: "$2b$somehash".to_string(),
        courses: Some(vec!["0123456789abcdef01234567".to_string()]),
        watched_ids: None,
        created_at: 1,
        updated_at: 2,
    };
    let doc = user_to_document(&u);
    assert_eq!(doc.pairs.len(), 9);
    assert_eq!(doc.pairs[4].0, "password");
    match &doc.pairs[4].1 {
        Value::Str(s) => assert_eq!(s, "$2b$somehash"),
        _ => panic!("password should be a string field"),
    }
    match &doc.pairs[5].1 {
        Value::StrArr(v) => assert_eq!(v.len(), 1),
        _ => panic!("courses should be a string-array field"),
    }
    match &doc.pairs[6].1 {
        Value::StrArr(v) => assert!(v.is_empty()),
        _ => panic!("watched_ids should be a string-array field"),
    }
}

#[test]
fn watched_document_and_service_round_trip() {
    let course_oid = parse_oid("0123456789abcdef01234567").unwrap();
    let w = Watched {
        _id: None,
        course_id: course_oid,
        finished_at: 10,
        created_at: 11,
        updated_at: 12,
        archived: false,
    };
    let doc = watched_to_document(&w);
    assert_eq!(doc.pairs.len(), 5);
    assert_eq!(doc.pairs[0].0, "course_id");
    match &doc.pairs[4].1 {
        Value::Bool(b) => assert!(!b),
        _ => panic!("archived should be a boolean field"),
    }

    let mut service = WatchedService::new();
    let oid = service.create(&w).unwrap();
    let hex = oid_to_hex(&oid);
    let got = service.get_by_id(&hex).unwrap().unwrap();
    assert_eq!(oid_to_hex(&got.course_id), "0123456789abcdef01234567");
    assert!(!got.archived);

    let mut archived = got;
    archived.archived = true;
    assert_eq!(service.update(&archived, &hex).unwrap(), 1);
    assert_eq!(service.update(&archived, &hex).unwrap(), 0);
    let again = service.get_by_id(&hex).unwrap().unwrap();
    assert!(again.archived);
    assert_eq!(service.delete(&hex).unwrap(), 1);
}

#[test]
fn user_document_round_trip_normalizes_absent_lists() {
    let u = User {
        _id: None,
        name: "Ada".to_string(),
        lastname: "Lovelace".to_string(),
        major: "CS".to_string(),
        email: "ada@example.org".to_string(),
        password: "$2b$somehash".to_string(),
        courses: Some(vec!["0123456789abcdef01234567".to_string()]),
        watched_ids: None,
        created_at: 7,
        updated_at: 8,
    };
    let doc = user_to_document(&u);
    let back = user_from_document(&doc).expect("canonical document parses");
    assert!(back._id.is_none());
    assert_eq!(back.name, u.name);
    assert_eq!(back.lastname, u.lastname);
    assert_eq!(back.major, u.major);
    assert_eq!(back.email, u.email);
    assert_eq!(back.password, u.password);
    assert_eq!(back.courses, u.courses);
    assert_eq!(back.watched_ids, Some(vec![]));
    assert_eq!(back.created_at, u.created_at);
    assert_eq!(back.updated_at, u.updated_at);
}

#[test]
fn watched_document_round_trip_preserves_every_field() {
    let w = Watched {
        _id: None,
        course_id: parse_oid("00112233445566778899aabb").unwrap(),
        finished_at: 1,
        created_at: 2,
        updated_at: 3,
        archived: true,
    };
    let doc = watched_to_document(&w);
    let back = watched_from_document(&doc).expect("canonical document parses");
    assert!(back._id.is_none());
    assert_eq!(oid_to_hex(&back.course_id), "00112233445566778899aabb");
    assert_eq!(back.finished_at, 1);
    assert_eq!(back.created_at, 2);
    assert_eq!(back.updated_at, 3);
    assert!(back.archived);

    let mut truncated = watched_to_document(&w);
    truncated.pairs.pop();
    assert!(watched_from_document(&truncated).is_none());
}

#[test]
fn watched_service_rejects_malformed_identifier() {
    let service = WatchedService::new();
    let r = service.get_by_id("xyz");
    assert!(matches!(r, Err(ApiServiceError::InvalidObjectId)));
}
