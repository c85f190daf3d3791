use learning_tracker::auth_service::ApiService as AuthService;
use learning_tracker::course_service::ApiService as CourseService;
use learning_tracker::models::{Course, CourseSearchParams};
use learning_tracker::user_service::ApiService as UserService;
use learning_tracker::watched_service::ApiService as WatchedService;
use learning_tracker::{ApiServiceError, AppState, ServiceManager};

#[test]
fn manager_assembles_one_service_per_entity() {
    let mut manager = ServiceManager::new(
        AuthService::new(),
        CourseService::new(),
        UserService::new(),
        WatchedService::new(),
    );
    let c = Course {
        _id: None,
        title: "Through the manager".to_string(),
        platform: "p".to_string(),
        author: "a".to_string(),
        duration: 1,
        language: "en".to_string(),
        description: "d".to_string(),
        url: "u".to_string(),
        topics: vec![],
        created_at: 0,
        updated_at: 0,
    };
    manager.course_service.create(&c).unwrap();
    let all = manager.course_service.get_all().unwrap();
    assert_eq!(all.len(), 1);
    assert_eq!(all[0].title, "Through the manager");

    let params = CourseSearchParams {
        title: Some("manager".to_string()),
        author: None,
        platform: None,
        topics: None,
    };
    let hits = manager.course_search_service.search(&params, &all).unwrap();
    assert_eq!(hits.len(), 1);

    let state = AppState { service_manager: manager };
    assert_eq!(state.service_manager.course_service.get_all().unwrap().len(), 1);
}

#[test]
fn error_messages_name_each_kind() {
    assert_eq!(ApiServiceError::InvalidObjectId.message(), "Invalid ObjectId format");
    assert_eq!(ApiServiceError::NotFound.message(), "Record not found");
    assert_eq!(
        ApiServiceError::EmptyQuery.message(),
        "At least one search parameter must be provided"
    );
    assert_eq!(ApiServiceError::DatabaseError("boom".to_string()).message(), "Database error");
}
