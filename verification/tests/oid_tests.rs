use learning_tracker::course_service::ApiService as CourseService;
use learning_tracker::errors::ApiServiceError;
use learning_tracker::models::Course;
use learning_tracker::oid::{oid_to_hex, parse_oid};

fn sample_course() -> Course {
    Course {
        _id: None,
        title: "Systems Programming".to_string(),
        platform: "udemy".to_string(),
        author: "Ada".to_string(),
        duration: 300,
        language: "en".to_string(),
        description: "low level".to_string(),
        url: "https://example.org/sys".to_string(),
        topics: vec!["rust".to_string(), "os".to_string()],
        created_at: 1_700_000_000_000,
        updated_at: 1_700_000_000_000,
    }
}

#[test]
fn parse_valid_lowercase_hex() {
    let r = parse_oid("0123456789abcdef01234567");
    assert!(r.is_ok());
}

#[test]
fn parse_valid_uppercase_hex() {
    let r = parse_oid("0123456789ABCDEF01234567");
    assert!(r.is_ok());
}

#[test]
fn parse_rejects_short_string() {
    let r = parse_oid("0123456789abcdef0123456");
    assert!(matches!(r, Err(ApiServiceError::InvalidObjectId)));
}

#[test]
fn parse_rejects_long_string() {
    let r = parse_oid("0123456789abcdef012345678");
    assert!(matches!(r, Err(ApiServiceError::InvalidObjectId)));
}

#[test]
fn parse_rejects_non_hex_character() {
    let r = parse_oid("0123456789abcdef0123456g");
    assert!(matches!(r, Err(ApiServiceError::InvalidObjectId)));
}

#[test]
fn parse_rejects_empty_string() {
    let r = parse_oid("");
    assert!(matches!(r, Err(ApiServiceError::InvalidObjectId)));
}

#[test]
fn parse_rejects_non_ascii_string() {
    let r = parse_oid("0123456789abcdef0123456\u{00e9}");
    assert!(matches!(r, Err(ApiServiceError::InvalidObjectId)));
}

#[test]
fn hex_round_trip_through_store() {
    let mut service = CourseService::new();
    let oid = service.create(&sample_course()).unwrap();
    let hex = oid_to_hex(&oid);
    assert_eq!(hex.len(), 24);
    assert!(hex.chars().all(|c| c.is_ascii_hexdigit()));
    let back = parse_oid(&hex).unwrap();
    assert_eq!(oid_to_hex(&back), hex);
}
