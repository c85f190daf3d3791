use vstd::prelude::*;

use crate::auth_service::ApiService as AuthService;
use crate::course_search_service::ApiService as CourseSearchService;
use crate::course_service::ApiService as CourseService;
use crate::user_search_service::ApiService as UserSearchService;
use crate::user_service::ApiService as UserService;
use crate::watched_service::ApiService as WatchedService;

verus! {

/// One immutable service instance per entity, constructed once at startup
/// and shared by every request handler.
pub struct ServiceManager {
    pub auth_service: AuthService,
    pub course_service: CourseService,
    pub user_service: UserService,
    pub watched_service: WatchedService,
    pub course_search_service: CourseSearchService,
    pub user_search_service: UserSearchService,
}

impl ServiceManager {
    /// Assemble the per-entity services; the stateless search services are
    /// constructed here.
    pub fn new(
        auth_service: AuthService,
        course_service: CourseService,
        user_service: UserService,
        watched_service: WatchedService,
    ) -> (r: ServiceManager)
        ensures
            r.auth_service == auth_service,
            r.course_service == course_service,
            r.user_service == user_service,
            r.watched_service == watched_service,
    {
        ServiceManager {
            auth_service,
            course_service,
            user_service,
            watched_service,
            course_search_service: CourseSearchService::new(),
            user_search_service: UserSearchService::new(),
        }
    }
}

/// The application state a request handler receives.
pub struct AppState {
    pub service_manager: ServiceManager,
}

} // verus!
