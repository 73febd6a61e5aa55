//! The request-shaped entry points: parse the caller's raw parameters,
//! consult the authorization decision, and drive the query and command
//! services.
//!
//! The listing path is the critical enforcement point: a caller that is
//! not an administrator has the owner filter forced to its own identity,
//! whatever filter it attempted to pass, so it can never receive another
//! identity's tasks.

use vstd::prelude::*;

use crate::error::ApiError;
use crate::error::ApiErrorView;
use crate::ids::parse_datetime;
use crate::ids::parse_uuid;
use crate::ids::spec_parse_datetime;
use crate::ids::spec_parse_uuid;
use crate::pagination::PaginatedResponse;
use crate::pagination::PaginationParams;
use crate::pagination::SortBy;
use crate::pagination::SortDir;
use crate::pagination::TaskFilters;
use crate::pagination::TaskFiltersView;
use crate::pagination::TaskQueryParams;
use crate::query::lemma_member_of_filter;
use crate::query::spec_sorted;
use crate::query::spec_task_matches;
use crate::query::spec_views;
use crate::task::CreateTaskRequest;
use crate::task::Task;
use crate::task::TaskStatus;
use crate::task::TaskView;
use crate::task_repository::TaskRepository;
use crate::task_repository::spec_has_task_id;
use crate::task_repository::spec_owned_by;
use crate::task_repository::spec_tasks_wf;
use crate::task_service::TaskService;
use crate::task_service::spec_service_wf;
use crate::task_service::spec_task_request_valid;
use crate::text::spec_lower;
use crate::text::spec_trim;
use crate::text::str_eq;
use crate::text::to_lower_str;
use crate::text::trim_str;
use crate::token::CurrentUser;
use crate::token::can_access;
use crate::user::User;
use crate::user::UserRole;
use crate::user::CreateUserRequest;
use crate::user_repository::UserRepository;
use crate::user_repository::spec_has_user_id;
use crate::user_repository::spec_users_wf;
use crate::user_service::UserService;
use crate::user_service::spec_user_request_valid;

verus! {

/// The path parameter of a by-id task request.
#[derive(Debug)]
pub struct TaskIdPath {
    pub id: String,
}

/// The path parameter of a by-id identity request.
#[derive(Debug)]
pub struct UserIdPath {
    pub id: String,
}

/// The simple listing query: at most an owner to list for.
#[derive(Debug)]
pub struct TasksQuery {
    pub user_id: Option<String>,
}

/// The dynamic listing query: the simple owner parameter beside the
/// optional pagination and filter parameters; any of the latter switches
/// the request to the paginated shape.
#[derive(Debug)]
pub struct DynamicTaskQuery {
    pub user_id: Option<String>,
    pub page: Option<u32>,
    pub limit: Option<u32>,
    pub sort_by: Option<String>,
    pub sort_direction: Option<String>,
    pub status: Option<String>,
    pub created_after: Option<String>,
    pub created_before: Option<String>,
    pub search: Option<String>,
}

/// The two listing response shapes, decided once by the presence of any
/// pagination-related parameter.
#[derive(Debug)]
pub enum TaskQueryResponse {
    Simple(Vec<Task>),
    Paginated(PaginatedResponse<Task>),
}

/// The status a request string names, after lower-casing.
pub open spec fn spec_parse_status(s: Seq<char>) -> Option<TaskStatus> {
    if spec_lower(s) == "todo"@ {
        Some(TaskStatus::Todo)
    } else if spec_lower(s) == "in_progress"@ {
        Some(TaskStatus::InProgress)
    } else if spec_lower(s) == "done"@ {
        Some(TaskStatus::Done)
    } else {
        None
    }
}

/// Exec counterpart of `spec_parse_status`.
pub fn parse_status(s: &str) -> (r: Option<TaskStatus>)
    ensures
        r == spec_parse_status(s@),
{
    let lowered = to_lower_str(s);
    if str_eq(lowered.as_str(), "todo") {
        Some(TaskStatus::Todo)
    } else if str_eq(lowered.as_str(), "in_progress") {
        Some(TaskStatus::InProgress)
    } else if str_eq(lowered.as_str(), "done") {
        Some(TaskStatus::Done)
    } else {
        None
    }
}

/// Whether the dynamic query carries any pagination-related parameter.
pub open spec fn spec_wants_pagination(q: &DynamicTaskQuery) -> bool {
    ||| q.page is Some
    ||| q.limit is Some
    ||| q.sort_by is Some
    ||| q.sort_direction is Some
    ||| q.status is Some
    ||| q.created_after is Some
    ||| q.created_before is Some
    ||| q.search is Some
}

/// The page a dynamic query asks for, after the default.
pub open spec fn spec_effective_page(q: &DynamicTaskQuery) -> u32 {
    match q.page {
        Some(p) => p,
        None => 1u32,
    }
}

/// The page size a dynamic query asks for, after the default.
pub open spec fn spec_effective_limit(q: &DynamicTaskQuery) -> u32 {
    match q.limit {
        Some(l) => l,
        None => 20u32,
    }
}

/// The sort column name a dynamic query asks for, after the default.
pub open spec fn spec_effective_sort_by(q: &DynamicTaskQuery) -> Seq<char> {
    match q.sort_by {
        Some(s) => s@,
        None => "created_at"@,
    }
}

/// The sort direction name a dynamic query asks for, after the default.
pub open spec fn spec_effective_sort_dir(q: &DynamicTaskQuery) -> Seq<char> {
    match q.sort_direction {
        Some(s) => s@,
        None => "desc"@,
    }
}

/// The filters a dynamic query resolves to for this caller.  The owner
/// filter of a caller that is not an administrator is that caller's own
/// identity, whatever owner the request named.
pub open spec fn spec_effective_filters(q: &DynamicTaskQuery, u: &CurrentUser) -> TaskFiltersView {
    TaskFiltersView {
        status: match q.status {
            Some(s) => spec_parse_status(s@),
            None => None,
        },
        user_id: if u.role == UserRole::Admin {
            match q.user_id {
                Some(s) => spec_parse_uuid(s@),
                None => None,
            }
        } else {
            Some(u.id)
        },
        created_after: match q.created_after {
            Some(s) => spec_parse_datetime(s@),
            None => None,
        },
        created_before: match q.created_before {
            Some(s) => spec_parse_datetime(s@),
            None => None,
        },
        search: match q.search {
            Some(s) => if spec_trim(s@).len() > 0 {
                Some(spec_trim(s@))
            } else {
                None
            },
            None => None,
        },
    }
}

/// Every raw parameter of the dynamic query that this caller's conversion
/// reads parses.
pub open spec fn spec_query_convertible(q: &DynamicTaskQuery, u: &CurrentUser) -> bool {
    &&& (match q.status {
        Some(s) => spec_parse_status(s@) is Some,
        None => true,
    })
    &&& (u.role == UserRole::Admin ==> match q.user_id {
        Some(s) => spec_parse_uuid(s@) is Some,
        None => true,
    })
    &&& (match q.created_after {
        Some(s) => spec_parse_datetime(s@) is Some,
        None => true,
    })
    &&& (match q.created_before {
        Some(s) => spec_parse_datetime(s@) is Some,
        None => true,
    })
}

/// The effective pagination parameters pass validation.
pub open spec fn spec_effective_params_valid(q: &DynamicTaskQuery) -> bool {
    &&& spec_effective_page(q) >= 1
    &&& 1 <= spec_effective_limit(q) <= 100
    &&& crate::pagination::spec_parse_sort_by(spec_effective_sort_by(q)) is Some
    &&& crate::pagination::spec_parse_sort_dir(spec_effective_sort_dir(q)) is Some
}

/// Creates a task owned by the authenticated caller; the request body's
/// owner field is ignored.
pub fn create_task(
    svc: &mut TaskService,
    tasks: &mut TaskRepository,
    users: &UserRepository,
    current_user: &CurrentUser,
    request: CreateTaskRequest,
) -> (r: Result<Task, ApiError>)
    requires
        spec_tasks_wf(old(tasks)@),
        spec_service_wf(old(svc), old(tasks)@),
    ensures
        spec_tasks_wf(final(tasks)@),
        spec_service_wf(final(svc), final(tasks)@),
        !spec_task_request_valid(&request) ==> (r matches Err(e) && e@
            == crate::task_service::spec_task_request_error(&request)),
        spec_task_request_valid(&request) && !spec_has_user_id(users@, current_user.id) ==> (
        r matches Err(e) && e@ == (ApiErrorView::UserNotFound { id: current_user.id })),
        spec_task_request_valid(&request) && spec_has_user_id(users@, current_user.id) ==> (
        r matches Err(e) ==> e@ is InternalError),
        r matches Ok(t) ==> {
            &&& t.user_id == current_user.id
            &&& t.title@ == request.title@
            &&& t.status == TaskStatus::Todo
            &&& (match (t.description, request.description) {
                (Some(a), Some(b)) => a@ == b@,
                (None, None) => true,
                _ => false,
            })
            &&& crate::task_repository::spec_slug_of_title(t.slug@, request.title@)
            &&& (!crate::task_repository::spec_slug_taken(
                old(tasks)@,
                crate::slug::spec_slugify(request.title@),
            ) ==> t.slug@ == crate::slug::spec_slugify(request.title@))
            &&& final(tasks)@ == old(tasks)@.push(t@)
            &&& match (
                crate::task_service::spec_service_cache(old(svc)),
                crate::task_service::spec_service_cache(final(svc)),
            ) {
                (Some(m0), Some(m1)) => m1 == m0.remove(
                    crate::cache::CacheKey::AllTasks,
                ).remove(crate::cache::CacheKey::UserTasks(current_user.id)).insert(
                    crate::cache::CacheKey::Task(t.id),
                    crate::cache::CachedValueView::One(t@),
                ),
                (None, None) => true,
                _ => false,
            }
        },
        r is Err ==> final(tasks)@ == old(tasks)@ && crate::task_service::spec_service_cache(
            final(svc),
        ) == crate::task_service::spec_service_cache(old(svc)),
{
    svc.create_task(tasks, users, request, current_user.id)
}

/// Fetches a task by its raw path identifier, then authorizes: the owner
/// or an administrator sees the task; any other authenticated caller is
/// told `Forbidden`, never shown the data.
pub fn get_task(
    svc: &mut TaskService,
    tasks: &TaskRepository,
    current_user: &CurrentUser,
    id_str: &str,
) -> (r: Result<Task, ApiError>)
    requires
        spec_tasks_wf(tasks@),
        spec_service_wf(old(svc), tasks@),
    ensures
        spec_service_wf(final(svc), tasks@),
        spec_parse_uuid(id_str@) is None ==> (r matches Err(e) && e@ is BadRequest),
        spec_parse_uuid(id_str@) is Some && !spec_has_task_id(tasks@, spec_parse_uuid(id_str@)->0)
            ==> (r matches Err(e) && e@ == (ApiErrorView::TaskNotFound {
            id: spec_parse_uuid(id_str@)->0,
        })),
        r matches Ok(t) ==> {
            &&& spec_parse_uuid(id_str@) == Some(t.id)
            &&& exists|i: int| 0 <= i < tasks@.len() && #[trigger] tasks@[i] == t@
            &&& (current_user.role == UserRole::Admin || current_user.id == t.user_id)
        },
        current_user.role != UserRole::Admin ==> forall|i: int|
            0 <= i < tasks@.len() && spec_parse_uuid(id_str@) == Some(
                (#[trigger] tasks@[i]).id,
            ) && tasks@[i].user_id != current_user.id ==> (r matches Err(e) && e@
                == ApiErrorView::Forbidden("You can only view your own tasks"@)),
        spec_parse_uuid(id_str@) is Some && spec_has_task_id(tasks@, spec_parse_uuid(id_str@)->0)
            && current_user.role == UserRole::Admin ==> r is Ok,
        forall|i: int|
            0 <= i < tasks@.len() && spec_parse_uuid(id_str@) == Some((#[trigger] tasks@[i]).id)
                && tasks@[i].user_id == current_user.id ==> r is Ok,
{
    let id = match parse_uuid(id_str) {
        Some(id) => id,
        None => {
            let mut m = String::from_str("Invalid task ID format: ");
            m.append(id_str);
            return Err(ApiError::BadRequest(m));
        },
    };
    let task = match svc.get_task(tasks, id) {
        Ok(t) => t,
        Err(e) => {
            return Err(e);
        },
    };
    if !can_access(current_user, task.user_id) {
        proof {
            let i = choose|i: int| 0 <= i < tasks@.len() && #[trigger] tasks@[i] == task@;
            assert(tasks@[i].id == id);
            assert forall|j: int|
                0 <= j < tasks@.len() && (#[trigger] tasks@[j]).id == id implies tasks@[j]
                == tasks@[i] by {
                if j != i {
                    assert(tasks@[j].id != tasks@[i].id);
                }
            }
        }
        return Err(ApiError::forbidden("You can only view your own tasks"));
    }
    proof {
        let i = choose|i: int| 0 <= i < tasks@.len() && #[trigger] tasks@[i] == task@;
        assert forall|j: int|
            0 <= j < tasks@.len() && (#[trigger] tasks@[j]).id == id implies tasks@[j]
            == tasks@[i] by {
            if j != i {
                assert(tasks@[j].id != tasks@[i].id);
            }
        }
        assert(tasks@[i].id == id);
    }
    Ok(task)
}

/// Builds the effective query of a dynamic listing request.  For a caller
/// that is not an administrator the owner filter is forced to the
/// caller's identity, whatever owner the request named — the critical
/// authorization enforcement of the listing path.
pub fn convert_to_task_query_params(params: DynamicTaskQuery, current_user: &CurrentUser) -> (r:
    Result<TaskQueryParams, ApiError>)
    ensures
        r matches Ok(qp) ==> {
            &&& qp.pagination.page == spec_effective_page(&params)
            &&& qp.pagination.limit == spec_effective_limit(&params)
            &&& qp.pagination.sort_by@ == spec_effective_sort_by(&params)
            &&& qp.pagination.sort_direction@ == spec_effective_sort_dir(&params)
            &&& qp.filters@ == spec_effective_filters(&params, current_user)
        },
        r is Ok <==> spec_query_convertible(&params, current_user),
        r matches Err(e) ==> e@ is BadRequest,
{
    let pagination = PaginationParams {
        page: match params.page {
            Some(p) => p,
            None => 1,
        },
        limit: match params.limit {
            Some(l) => l,
            None => 20,
        },
        sort_by: match params.sort_by {
            Some(s) => s,
            None => String::from_str("created_at"),
        },
        sort_direction: match params.sort_direction {
            Some(s) => s,
            None => String::from_str("desc"),
        },
    };
    let status: Option<TaskStatus> = match &params.status {
        Some(s) => match parse_status(s.as_str()) {
            Some(st) => Some(st),
            None => {
                return Err(ApiError::bad_request("Invalid status. Must be: todo, in_progress, done"));
            },
        },
        None => None,
    };
    let user_id: Option<u128> = if matches!(current_user.role, UserRole::Admin) {
        match &params.user_id {
            Some(s) => match parse_uuid(s.as_str()) {
                Some(id) => Some(id),
                None => {
                    return Err(ApiError::bad_request("Invalid user ID format"));
                },
            },
            None => None,
        }
    } else {
        Some(current_user.id)
    };
    let created_after: Option<i64> = match &params.created_after {
        Some(s) => match parse_datetime(s.as_str()) {
            Some(t) => Some(t),
            None => {
                return Err(
                    ApiError::bad_request("Invalid created_after date format. Use ISO 8601"),
                );
            },
        },
        None => None,
    };
    let created_before: Option<i64> = match &params.created_before {
        Some(s) => match parse_datetime(s.as_str()) {
            Some(t) => Some(t),
            None => {
                return Err(
                    ApiError::bad_request("Invalid created_before date format. Use ISO 8601"),
                );
            },
        },
        None => None,
    };
    let search: Option<String> = match &params.search {
        Some(s) => {
            let trimmed = trim_str(s.as_str());
            if trimmed.as_str().is_empty() {
                None
            } else {
                Some(trimmed)
            }
        },
        None => None,
    };
    Ok(
        TaskQueryParams {
            pagination,
            filters: TaskFilters { status, user_id, created_after, created_before, search },
        },
    )
}

/// The dynamic listing entry point.  With any pagination-related
/// parameter present the request takes the paginated shape, with the
/// owner filter forced for callers that are not administrators; without
/// one, it lists one owner's tasks (self, unless an administrator) or,
/// for administrators only, every task.  Either way a caller that is not
/// an administrator only ever receives tasks it owns.
pub fn get_tasks(
    svc: &mut TaskService,
    tasks: &TaskRepository,
    users: &UserRepository,
    current_user: &CurrentUser,
    params: DynamicTaskQuery,
) -> (r: Result<TaskQueryResponse, ApiError>)
    requires
        spec_service_wf(old(svc), tasks@),
        tasks@.len() <= u32::MAX,
    ensures
        spec_service_wf(final(svc), tasks@),
        spec_wants_pagination(&params) ==> match r {
            Ok(resp) => match resp {
                TaskQueryResponse::Paginated(p) => {
                    let f = spec_effective_filters(&params, current_user);
                    let filtered = tasks@.filter(|t: TaskView| spec_task_matches(t, f));
                    &&& p.pagination.page == spec_effective_page(&params)
                    &&& p.pagination.limit == spec_effective_limit(&params)
                    &&& p.pagination.total == filtered.len()
                    &&& p.pagination.total_pages == crate::pagination::spec_total_pages(
                        filtered.len() as int,
                        spec_effective_limit(&params) as int,
                    )
                    &&& p.pagination.has_next == (p.pagination.page < p.pagination.total_pages)
                    &&& p.pagination.has_prev == (p.pagination.page > 1)
                    &&& exists|sorted: Seq<TaskView>|
                        {
                            &&& #[trigger] spec_sorted(
                                sorted,
                                crate::pagination::spec_parse_sort_by(
                                    spec_effective_sort_by(&params),
                                )->0,
                                crate::pagination::spec_parse_sort_dir(
                                    spec_effective_sort_dir(&params),
                                )->0,
                            )
                            &&& sorted.to_multiset() == filtered.to_multiset()
                            &&& spec_views(p.data@) == crate::query::spec_page(
                                sorted,
                                (spec_effective_page(&params) - 1) * spec_effective_limit(&params),
                                spec_effective_limit(&params) as int,
                            )
                        }
                },
                TaskQueryResponse::Simple(_) => false,
            },
            Err(_) => true,
        },
        spec_wants_pagination(&params) && spec_query_convertible(&params, current_user)
            && spec_effective_params_valid(&params) ==> r is Ok,
        !spec_wants_pagination(&params) ==> match r {
            Ok(resp) => match resp {
                TaskQueryResponse::Simple(v) => match params.user_id {
                    Some(s) => spec_parse_uuid(s@) matches Some(uid) && spec_sorted(
                        spec_views(v@),
                        SortBy::CreatedAt,
                        SortDir::Desc,
                    ) && spec_views(v@).to_multiset() == tasks@.filter(
                        spec_owned_by(uid),
                    ).to_multiset(),
                    None => current_user.role == UserRole::Admin && spec_sorted(
                        spec_views(v@),
                        SortBy::CreatedAt,
                        SortDir::Desc,
                    ) && spec_views(v@).to_multiset() == tasks@.to_multiset(),
                },
                TaskQueryResponse::Paginated(_) => false,
            },
            Err(_) => true,
        },
        !spec_wants_pagination(&params) && params.user_id is None && current_user.role
            != UserRole::Admin ==> (r matches Err(e) && e@ == ApiErrorView::Forbidden(
            "Only administrators can view all tasks"@,
        )),
        !spec_wants_pagination(&params) && params.user_id is None && current_user.role
            == UserRole::Admin ==> r is Ok,
        !spec_wants_pagination(&params) && (match params.user_id {
            Some(s) => spec_parse_uuid(s@) is None,
            None => false,
        }) ==> (r matches Err(e) && e@ is BadRequest),
        !spec_wants_pagination(&params) && current_user.role != UserRole::Admin && (
        match params.user_id {
            Some(s) => spec_parse_uuid(s@) is Some && spec_parse_uuid(s@)->0 != current_user.id,
            None => false,
        }) ==> (r matches Err(e) && e@ == ApiErrorView::Forbidden(
            "You can only view your own tasks"@,
        )),
        !spec_wants_pagination(&params) && (match params.user_id {
            Some(s) => spec_parse_uuid(s@) is Some && (current_user.role == UserRole::Admin
                || spec_parse_uuid(s@)->0 == current_user.id) && !spec_has_user_id(
                users@,
                spec_parse_uuid(s@)->0,
            ),
            None => false,
        }) ==> (r matches Err(e) && (match params.user_id {
            Some(s) => e@ == (ApiErrorView::UserNotFound { id: spec_parse_uuid(s@)->0 }),
            None => false,
        })),
        !spec_wants_pagination(&params) && (match params.user_id {
            Some(s) => spec_parse_uuid(s@) is Some && (current_user.role == UserRole::Admin
                || spec_parse_uuid(s@)->0 == current_user.id) && spec_has_user_id(
                users@,
                spec_parse_uuid(s@)->0,
            ),
            None => false,
        }) ==> r is Ok,
        current_user.role != UserRole::Admin ==> match r {
            Ok(resp) => match resp {
                TaskQueryResponse::Simple(v) => forall|i: int|
                    0 <= i < v@.len() ==> (#[trigger] v@[i]@).user_id == current_user.id,
                TaskQueryResponse::Paginated(p) => forall|i: int|
                    0 <= i < p.data@.len() ==> (#[trigger] p.data@[i]@).user_id == current_user.id,
            },
            Err(_) => true,
        },
{
    let wants_pagination: bool = params.page.is_some() || params.limit.is_some()
        || params.sort_by.is_some() || params.sort_direction.is_some() || params.status.is_some()
        || params.created_after.is_some() || params.created_before.is_some()
        || params.search.is_some();
    if wants_pagination {
        let is_admin = matches!(current_user.role, UserRole::Admin);
        let query_params = match convert_to_task_query_params(params, current_user) {
            Ok(qp) => qp,
            Err(e) => {
                return Err(e);
            },
        };
        let ghost g_page = query_params.pagination.page;
        let ghost g_limit = query_params.pagination.limit;
        let ghost g_sort_by = query_params.pagination.sort_by@;
        let ghost g_sort_dir = query_params.pagination.sort_direction@;
        let ghost g_filters = query_params.filters@;
        let result = match svc.get_tasks_paginated(tasks, query_params) {
            Ok(p) => p,
            Err(e) => {
                return Err(e);
            },
        };
        proof {
            if !is_admin {
                let filters = g_filters;
                let filtered = tasks@.filter(|t: TaskView| spec_task_matches(t, filters));
                assert(exists|sorted: Seq<TaskView>|
                    {
                        &&& #[trigger] spec_sorted(
                            sorted,
                            crate::pagination::spec_parse_sort_by(g_sort_by)->0,
                            crate::pagination::spec_parse_sort_dir(g_sort_dir)->0,
                        )
                        &&& sorted.to_multiset() == filtered.to_multiset()
                        &&& spec_views(result.data@) == crate::query::spec_page(
                            sorted,
                            ((g_page - 1) * g_limit) as int,
                            g_limit as int,
                        )
                    });
                let sorted = choose|sorted: Seq<TaskView>|
                    {
                        &&& #[trigger] spec_sorted(
                            sorted,
                            crate::pagination::spec_parse_sort_by(g_sort_by)->0,
                            crate::pagination::spec_parse_sort_dir(g_sort_dir)->0,
                        )
                        &&& sorted.to_multiset() == filtered.to_multiset()
                        &&& spec_views(result.data@) == crate::query::spec_page(
                            sorted,
                            ((g_page - 1) * g_limit) as int,
                            g_limit as int,
                        )
                    };
                let off = ((g_page - 1) * g_limit) as int;
                let start: int = if off <= sorted.len() {
                    off
                } else {
                    sorted.len() as int
                };
                assert forall|i: int|
                    0 <= i < result.data@.len() implies (#[trigger] result.data@[i]@).user_id
                    == current_user.id by {
                    assert(spec_views(result.data@)[i] == result.data@[i]@);
                    assert(spec_views(result.data@)[i] == sorted[start + i]);
                    assert(sorted.contains(sorted[start + i]));
                    assert(sorted.contains(result.data@[i]@));
                    lemma_member_of_filter(
                        sorted,
                        tasks@,
                        |t: TaskView| spec_task_matches(t, filters),
                        result.data@[i]@,
                    );
                }
            }
        }
        return Ok(TaskQueryResponse::Paginated(result));
    }
    match params.user_id {
        Some(user_id_str) => {
            let user_id = match parse_uuid(user_id_str.as_str()) {
                Some(id) => id,
                None => {
                    let mut m = String::from_str("Invalid user ID format: ");
                    m.append(user_id_str.as_str());
                    return Err(ApiError::BadRequest(m));
                },
            };
            if !can_access(current_user, user_id) {
                return Err(ApiError::forbidden("You can only view your own tasks"));
            }
            let v = match svc.get_tasks_by_user(tasks, users, user_id) {
                Ok(v) => v,
                Err(e) => {
                    return Err(e);
                },
            };
            proof {
                if current_user.role != UserRole::Admin {
                    assert forall|i: int|
                        0 <= i < v@.len() implies (#[trigger] v@[i]@).user_id
                        == current_user.id by {
                        assert(spec_views(v@)[i] == v@[i]@);
                        assert(spec_views(v@).contains(v@[i]@));
                        lemma_member_of_filter(
                            spec_views(v@),
                            tasks@,
                            spec_owned_by(user_id),
                            v@[i]@,
                        );
                    }
                }
            }
            Ok(TaskQueryResponse::Simple(v))
        },
        None => {
            if !matches!(current_user.role, UserRole::Admin) {
                return Err(ApiError::forbidden("Only administrators can view all tasks"));
            }
            let v = match svc.get_all_tasks(tasks) {
                Ok(v) => v,
                Err(e) => {
                    return Err(e);
                },
            };
            Ok(TaskQueryResponse::Simple(v))
        },
    }
}

/// Creates a bare identity; only administrators may.
pub fn create_user(
    user_service: &UserService,
    users: &mut UserRepository,
    current_user: &CurrentUser,
    request: CreateUserRequest,
) -> (r: Result<User, ApiError>)
    requires
        spec_users_wf(old(users)@),
    ensures
        spec_users_wf(final(users)@),
        current_user.role != UserRole::Admin ==> (r matches Err(e) && e@
            == ApiErrorView::Forbidden("Only administrators can create user accounts"@)
            && final(users)@ == old(users)@),
        current_user.role == UserRole::Admin && !spec_user_request_valid(&request) ==> (
        r matches Err(e) && e@ is ValidationError),
        r matches Ok(u) ==> current_user.role == UserRole::Admin && u.name@ == request.name@
            && u.email@ == request.email@,
        r is Err ==> final(users)@ == old(users)@,
{
    if !matches!(current_user.role, UserRole::Admin) {
        return Err(ApiError::forbidden("Only administrators can create user accounts"));
    }
    user_service.create_user(users, request)
}

/// Reads an identity by its raw path identifier; the profile's owner or
/// an administrator may, anyone else is told `Forbidden` before any
/// lookup happens.
pub fn get_user(
    user_service: &UserService,
    users: &UserRepository,
    current_user: &CurrentUser,
    id_str: &str,
) -> (r: Result<User, ApiError>)
    ensures
        spec_parse_uuid(id_str@) is None ==> (r matches Err(e) && e@ is BadRequest),
        spec_parse_uuid(id_str@) is Some && current_user.role != UserRole::Admin && spec_parse_uuid(
            id_str@,
        )->0 != current_user.id ==> (r matches Err(e) && e@ == ApiErrorView::Forbidden(
            "You can only view your own profile"@,
        )),
        r matches Ok(u) ==> {
            &&& spec_parse_uuid(id_str@) == Some(u.id)
            &&& (current_user.role == UserRole::Admin || current_user.id == u.id)
            &&& exists|i: int| 0 <= i < users@.len() && #[trigger] users@[i].user == u@
        },
        spec_parse_uuid(id_str@) is Some && (current_user.role == UserRole::Admin
            || spec_parse_uuid(id_str@)->0 == current_user.id) && !spec_has_user_id(
            users@,
            spec_parse_uuid(id_str@)->0,
        ) ==> (r matches Err(e) && e@ == (ApiErrorView::UserNotFound {
            id: spec_parse_uuid(id_str@)->0,
        })),
        spec_parse_uuid(id_str@) is Some && (current_user.role == UserRole::Admin
            || spec_parse_uuid(id_str@)->0 == current_user.id) && spec_has_user_id(
            users@,
            spec_parse_uuid(id_str@)->0,
        ) ==> r is Ok,
{
    let id = match parse_uuid(id_str) {
        Some(id) => id,
        None => {
            let mut m = String::from_str("Invalid user ID format: ");
            m.append(id_str);
            return Err(ApiError::BadRequest(m));
        },
    };
    if !can_access(current_user, id) {
        return Err(ApiError::forbidden("You can only view your own profile"));
    }
    match user_service.get_user(users, id) {
        Ok(u) => {
            proof {
                let i = choose|i: int| 0 <= i < users@.len() && #[trigger] users@[i].user == u@;
                assert(users@[i].user.id == id);
            }
            Ok(u)
        },
        Err(e) => Err(e),
    }
}

} // verus!
