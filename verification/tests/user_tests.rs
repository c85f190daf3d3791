use learning_tracker::auth_service::ApiService as AuthService;
use learning_tracker::errors::ApiServiceError;
use learning_tracker::models::{LoginRequest, User, UserSearchParams};
use learning_tracker::oid::oid_to_hex;
use learning_tracker::user_search_service::ApiService as UserSearchService;
use learning_tracker::user_service::{merge_user, ApiService as UserService};

fn user(name: &str, email: &str, password: &str) -> User {
    User {
        _id: None,
        name: name.to_string(),
        lastname: "Example".to_string(),
        major: "CS".to_string(),
        email: email.to_string(),
        password: password.to_string(),
        courses: Some(vec!["0123456789abcdef01234567".to_string()]),
        watched_ids: None,
        created_at: 1_700_000_000_000,
        updated_at: 1_700_000_001_000,
    }
}

#[test]
fn create_stores_a_hash_not_the_plaintext() {
    let mut service = UserService::new();
    let input = user("Ada", "ada@example.org", "hunter2");
    let oid = service.create(&input).unwrap();
    let stored = service.get_by_id(&oid_to_hex(&oid)).unwrap().unwrap();
    assert_ne!(stored.password, "hunter2");
    assert!(stored.password.starts_with("$2"));
    assert_eq!(stored.email, input.email);
    assert_eq!(stored.name, input.name);
    assert_eq!(stored.courses, input.courses);
}

#[test]
fn update_preserves_the_stored_password_hash() {
    let mut service = UserService::new();
    let oid = service.create(&user("Ada", "ada@example.org", "hunter2")).unwrap();
    let hex = oid_to_hex(&oid);
    let hash_before = service.get_by_id(&hex).unwrap().unwrap().password;

    let mut payload = user("Ada Louise", "ada@example.net", "a-different-password");
    payload.updated_at = 1_700_000_999_000;
    let modified = service.update(&payload, &hex).unwrap();
    assert_eq!(modified, 1);

    let after = service.get_by_id(&hex).unwrap().unwrap();
    assert_eq!(after.password, hash_before);
    assert_eq!(after.name, "Ada Louise");
    assert_eq!(after.email, "ada@example.net");
    assert_eq!(after.updated_at, 1_700_000_999_000);
    assert_eq!(after.created_at, 1_700_000_000_000);
}

#[test]
fn update_unknown_identifier_is_not_found() {
    let mut service = UserService::new();
    let payload = user("Ada", "ada@example.org", "pw");
    let r = service.update(&payload, "0123456789abcdef01234567");
    assert!(matches!(r, Err(ApiServiceError::NotFound)));
}

#[test]
fn user_update_malformed_identifier_is_rejected() {
    let mut service = UserService::new();
    let payload = user("Ada", "ada@example.org", "pw");
    let r = service.update(&payload, "nope");
    assert!(matches!(r, Err(ApiServiceError::InvalidObjectId)));
}

#[test]
fn merge_keeps_protected_fields() {
    let existing = User { password: "$2b$fakehash".to_string(), ..user("Old", "old@example.org", "x") };
    let payload = user("New", "new@example.org", "plaintext");
    let merged = merge_user(&existing, &payload);
    assert_eq!(merged.password, "$2b$fakehash");
    assert_eq!(merged.created_at, existing.created_at);
    assert_eq!(merged.name, "New");
    assert_eq!(merged.email, "new@example.org");
    assert_eq!(merged.updated_at, payload.updated_at);
}

#[test]
fn delete_removes_the_user() {
    let mut service = UserService::new();
    let oid = service.create(&user("Ada", "ada@example.org", "pw")).unwrap();
    let hex = oid_to_hex(&oid);
    assert_eq!(service.delete(&hex).unwrap(), 1);
    assert!(service.get_by_id(&hex).unwrap().is_none());
}

#[test]
fn login_with_correct_credentials_returns_the_user() {
    let mut service = UserService::new();
    service.create(&user("Ada", "ada@example.org", "hunter2")).unwrap();
    let users = service.get_all().unwrap();
    let auth = AuthService::new();
    let r = auth
        .login(
            &LoginRequest { email: "ada@example.org".to_string(), password: "hunter2".to_string() },
            &users,
        )
        .unwrap();
    let found = r.expect("expected a successful login");
    assert_eq!(found.email, "ada@example.org");
    assert_eq!(found.name, "Ada");
}

#[test]
fn login_with_wrong_password_returns_none() {
    let mut service = UserService::new();
    service.create(&user("Ada", "ada@example.org", "hunter2")).unwrap();
    let users = service.get_all().unwrap();
    let auth = AuthService::new();
    let r = auth
        .login(
            &LoginRequest { email: "ada@example.org".to_string(), password: "wrong".to_string() },
            &users,
        )
        .unwrap();
    assert!(r.is_none());
}

#[test]
fn login_with_unknown_email_returns_none() {
    let auth = AuthService::new();
    let users: Vec<User> = Vec::new();
    let r = auth
        .login(
            &LoginRequest { email: "who@example.org".to_string(), password: "pw".to_string() },
            &users,
        )
        .unwrap();
    assert!(r.is_none());
}

#[test]
fn user_search_without_email_is_an_empty_query() {
    let search = UserSearchService::new();
    let r = search.search(&UserSearchParams { email: None }, &Vec::new());
    assert!(matches!(r, Err(ApiServiceError::EmptyQuery)));
}

#[test]
fn user_search_matches_email_case_insensitively() {
    let search = UserSearchService::new();
    let users = vec![
        user("Ada", "Ada.Lovelace@Example.org", "x"),
        user("Bob", "bob@elsewhere.net", "x"),
    ];
    let hits = search
        .search(&UserSearchParams { email: Some("lovelace@example".to_string()) }, &users)
        .unwrap();
    assert_eq!(hits.len(), 1);
    assert_eq!(hits[0].name, "Ada");
}

#[test]
fn identical_merge_update_modifies_nothing() {
    let mut service = UserService::new();
    let input = user("Ada", "ada@example.org", "hunter2");
    let oid = service.create(&input).unwrap();
    let hex = oid_to_hex(&oid);
    // The merge preserves the stored hash and creation time, so a payload
    // that repeats the stored profile changes nothing, whatever password
    // it carries.
    assert_eq!(service.update(&input, &hex).unwrap(), 0);
    let mut changed = user("Ada Louise", "ada@example.org", "ignored");
    changed.updated_at = input.updated_at;
    assert_eq!(service.update(&changed, &hex).unwrap(), 1);
    assert_eq!(service.update(&changed, &hex).unwrap(), 0);
}
