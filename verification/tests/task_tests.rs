use note_task_api::ApiError;
use note_task_api::AuthConfig;
use note_task_api::AuthService;
use note_task_api::CreateTaskRequest;
use note_task_api::CurrentUser;
use note_task_api::DynamicTaskQuery;
use note_task_api::LoginRequest;
use note_task_api::RedisCache;
use note_task_api::RegisterRequest;
use note_task_api::TaskQueryResponse;
use note_task_api::TaskRepository;
use note_task_api::TaskService;
use note_task_api::TaskStatus;
use note_task_api::UserRepository;
use note_task_api::UserRole;
use note_task_api::authenticate_request;
use note_task_api::create_task;
use note_task_api::get_task;
use note_task_api::get_tasks;
use note_task_api::uuid_to_string;
use note_task_api::CacheKey;
use note_task_api::CachedValue;
use note_task_api::Task;

fn auth_cfg() -> AuthConfig {
    AuthConfig {
        jwt_secret: String::from("unit-test-signing-secret"),
        issuer: String::from("note-task-api"),
        audience: String::from("note-clients"),
        expiry_minutes: 60,
    }
}

fn register(users: &mut UserRepository, name: &str, email: &str) -> note_task_api::User {
    AuthService::new(auth_cfg())
        .register(users, RegisterRequest {
            name: String::from(name),
            email: String::from(email),
            password: String::from("Abcdef12"),
        })
        .unwrap()
}

fn current(user: &note_task_api::User) -> CurrentUser {
    CurrentUser { id: user.id, email: user.email.clone(), role: user.role }
}

fn admin() -> CurrentUser {
    CurrentUser { id: 424242, email: String::from("root@x.com"), role: UserRole::Admin }
}

fn task_req(title: &str, description: Option<&str>) -> CreateTaskRequest {
    CreateTaskRequest {
        title: String::from(title),
        description: description.map(String::from),
        user_id: 0,
    }
}

fn no_query() -> DynamicTaskQuery {
    DynamicTaskQuery {
        user_id: None,
        page: None,
        limit: None,
        sort_by: None,
        sort_direction: None,
        status: None,
        created_after: None,
        created_before: None,
        search: None,
    }
}

#[test]
fn create_then_read_back_by_id() {
    let mut users = UserRepository::new();
    let ann = register(&mut users, "Ann", "ann@x.com");
    let mut tasks = TaskRepository::new();
    let mut svc = TaskService::new(Some(RedisCache::new(300)));
    let created = create_task(&mut svc, &mut tasks, &users, &current(&ann), task_req(
        "Buy milk",
        Some("two litres"),
    ))
    .unwrap();
    assert!(matches!(created.status, TaskStatus::Todo));
    assert_eq!(created.slug, "buy-milk");
    assert_eq!(created.user_id, ann.id);
    let fetched =
        get_task(&mut svc, &tasks, &current(&ann), &uuid_to_string(created.id)).unwrap();
    assert_eq!(fetched.id, created.id);
    assert_eq!(fetched.title, "Buy milk");
    assert_eq!(fetched.description.as_deref(), Some("two litres"));
}

#[test]
fn non_owner_read_is_forbidden_not_hidden() {
    let mut users = UserRepository::new();
    let ann = register(&mut users, "Ann", "ann@x.com");
    let bob = register(&mut users, "Bob", "bob@x.com");
    let mut tasks = TaskRepository::new();
    let mut svc = TaskService::new(None);
    let created =
        create_task(&mut svc, &mut tasks, &users, &current(&ann), task_req("Buy milk", None))
            .unwrap();
    let err = get_task(&mut svc, &tasks, &current(&bob), &uuid_to_string(created.id))
        .unwrap_err();
    match err {
        ApiError::Forbidden(m) => assert_eq!(m, "You can only view your own tasks"),
        other => panic!("expected Forbidden, got {:?}", other),
    }
}

#[test]
fn admin_reads_regardless_of_ownership() {
    let mut users = UserRepository::new();
    let ann = register(&mut users, "Ann", "ann@x.com");
    let mut tasks = TaskRepository::new();
    let mut svc = TaskService::new(Some(RedisCache::new(300)));
    let created =
        create_task(&mut svc, &mut tasks, &users, &current(&ann), task_req("Buy milk", None))
            .unwrap();
    let fetched =
        get_task(&mut svc, &tasks, &current(&ann), &uuid_to_string(created.id)).unwrap();
    assert_eq!(fetched.id, created.id);
    let via_admin = get_task(&mut svc, &tasks, &admin(), &uuid_to_string(created.id)).unwrap();
    assert_eq!(via_admin.id, created.id);
    let all = get_tasks(&mut svc, &tasks, &users, &admin(), no_query()).unwrap();
    match all {
        TaskQueryResponse::Simple(v) => {
            assert_eq!(v.len(), 1);
            assert_eq!(v[0].id, created.id);
        },
        other => panic!("expected the simple shape, got {:?}", other),
    }
}

#[test]
fn aggregates_are_invalidated_on_create() {
    let mut users = UserRepository::new();
    let ann = register(&mut users, "Ann", "ann@x.com");
    let mut tasks = TaskRepository::new();
    let mut svc = TaskService::new(Some(RedisCache::new(300)));
    // Populate the aggregate caches with the pre-creation snapshots.
    let before_all = get_tasks(&mut svc, &tasks, &users, &admin(), no_query()).unwrap();
    match before_all {
        TaskQueryResponse::Simple(v) => assert_eq!(v.len(), 0),
        other => panic!("expected the simple shape, got {:?}", other),
    }
    let mut mine = no_query();
    mine.user_id = Some(uuid_to_string(ann.id));
    match get_tasks(&mut svc, &tasks, &users, &current(&ann), mine).unwrap() {
        TaskQueryResponse::Simple(v) => assert_eq!(v.len(), 0),
        other => panic!("expected the simple shape, got {:?}", other),
    }
    // Create, then read the aggregates again: the stale snapshots are gone.
    let created =
        create_task(&mut svc, &mut tasks, &users, &current(&ann), task_req("Buy milk", None))
            .unwrap();
    match get_tasks(&mut svc, &tasks, &users, &admin(), no_query()).unwrap() {
        TaskQueryResponse::Simple(v) => {
            assert_eq!(v.len(), 1);
            assert_eq!(v[0].id, created.id);
        },
        other => panic!("expected the simple shape, got {:?}", other),
    }
    let mut mine2 = no_query();
    mine2.user_id = Some(uuid_to_string(ann.id));
    match get_tasks(&mut svc, &tasks, &users, &current(&ann), mine2).unwrap() {
        TaskQueryResponse::Simple(v) => {
            assert_eq!(v.len(), 1);
            assert_eq!(v[0].id, created.id);
        },
        other => panic!("expected the simple shape, got {:?}", other),
    }
    // And the by-id entry was pre-populated with the fresh value.
    let fetched =
        get_task(&mut svc, &tasks, &current(&ann), &uuid_to_string(created.id)).unwrap();
    assert_eq!(fetched.slug, "buy-milk");
}

#[test]
fn create_validation_and_owner_checks() {
    let mut users = UserRepository::new();
    let ann = register(&mut users, "Ann", "ann@x.com");
    let mut tasks = TaskRepository::new();
    let mut svc = TaskService::new(None);
    let empty =
        create_task(&mut svc, &mut tasks, &users, &current(&ann), task_req("   ", None));
    match empty {
        Err(ApiError::ValidationError(m)) => assert_eq!(m, "Title cannot be empty"),
        other => panic!("expected ValidationError, got {:?}", other),
    }
    let long_title = "x".repeat(201);
    let too_long =
        create_task(&mut svc, &mut tasks, &users, &current(&ann), task_req(&long_title, None));
    match too_long {
        Err(ApiError::ValidationError(m)) => assert_eq!(m, "Title cannot exceed 200 characters"),
        other => panic!("expected ValidationError, got {:?}", other),
    }
    let long_desc = "d".repeat(1001);
    let desc_too_long = create_task(&mut svc, &mut tasks, &users, &current(&ann), task_req(
        "ok",
        Some(&long_desc),
    ));
    match desc_too_long {
        Err(ApiError::ValidationError(m)) => {
            assert_eq!(m, "Description cannot exceed 1000 characters")
        },
        other => panic!("expected ValidationError, got {:?}", other),
    }
    let ghost_owner = CurrentUser { id: 555, email: String::from("x@x.com"), role: UserRole::User };
    let unknown =
        create_task(&mut svc, &mut tasks, &users, &ghost_owner, task_req("hello", None));
    match unknown {
        Err(ApiError::UserNotFound { id }) => assert_eq!(id, 555),
        other => panic!("expected UserNotFound, got {:?}", other),
    }
}

#[test]
fn missing_task_and_bad_identifiers() {
    let mut users = UserRepository::new();
    let ann = register(&mut users, "Ann", "ann@x.com");
    let tasks = TaskRepository::new();
    let mut svc = TaskService::new(None);
    let bad = get_task(&mut svc, &tasks, &current(&ann), "not-a-uuid").unwrap_err();
    match bad {
        ApiError::BadRequest(m) => assert_eq!(m, "Invalid task ID format: not-a-uuid"),
        other => panic!("expected BadRequest, got {:?}", other),
    }
    let missing = get_task(
        &mut svc,
        &tasks,
        &current(&ann),
        "00000000-0000-0000-0000-00000000beef",
    )
    .unwrap_err();
    assert!(matches!(missing, ApiError::TaskNotFound { .. }));
}

#[test]
fn listing_all_requires_admin() {
    let mut users = UserRepository::new();
    let ann = register(&mut users, "Ann", "ann@x.com");
    let tasks = TaskRepository::new();
    let mut svc = TaskService::new(None);
    let err = get_tasks(&mut svc, &tasks, &users, &current(&ann), no_query()).unwrap_err();
    match err {
        ApiError::Forbidden(m) => assert_eq!(m, "Only administrators can view all tasks"),
        other => panic!("expected Forbidden, got {:?}", other),
    }
}

#[test]
fn paginated_listing_filters_sorts_and_pages() {
    let mut users = UserRepository::new();
    let ann = register(&mut users, "Ann", "ann@x.com");
    let mut tasks = TaskRepository::new();
    let mut svc = TaskService::new(None);
    for title in ["delta", "alpha", "echo", "bravo", "charlie"] {
        create_task(&mut svc, &mut tasks, &users, &current(&ann), task_req(title, None)).unwrap();
    }
    let mut q = no_query();
    q.page = Some(2);
    q.limit = Some(2);
    q.sort_by = Some(String::from("title"));
    q.sort_direction = Some(String::from("asc"));
    let resp = match get_tasks(&mut svc, &tasks, &users, &current(&ann), q).unwrap() {
        TaskQueryResponse::Paginated(p) => p,
        other => panic!("expected the paginated shape, got {:?}", other),
    };
    assert_eq!(resp.pagination.total, 5);
    assert_eq!(resp.pagination.total_pages, 3);
    assert_eq!(resp.pagination.page, 2);
    assert!(resp.pagination.has_next);
    assert!(resp.pagination.has_prev);
    let titles: Vec<&str> = resp.data.iter().map(|t| t.title.as_str()).collect();
    assert_eq!(titles, vec!["charlie", "delta"]);
}

#[test]
fn paginated_search_is_case_insensitive() {
    let mut users = UserRepository::new();
    let ann = register(&mut users, "Ann", "ann@x.com");
    let mut tasks = TaskRepository::new();
    let mut svc = TaskService::new(None);
    create_task(&mut svc, &mut tasks, &users, &current(&ann), task_req(
        "Water the Plants",
        None,
    ))
    .unwrap();
    create_task(&mut svc, &mut tasks, &users, &current(&ann), task_req(
        "Feed the cat",
        Some("Wet food, PLANTS of it"),
    ))
    .unwrap();
    create_task(&mut svc, &mut tasks, &users, &current(&ann), task_req("Pay rent", None))
        .unwrap();
    let mut q = no_query();
    q.search = Some(String::from("plants"));
    let resp = match get_tasks(&mut svc, &tasks, &users, &current(&ann), q).unwrap() {
        TaskQueryResponse::Paginated(p) => p,
        other => panic!("expected the paginated shape, got {:?}", other),
    };
    assert_eq!(resp.pagination.total, 2);
}

#[test]
fn bad_pagination_parameters_are_rejected() {
    let mut users = UserRepository::new();
    let ann = register(&mut users, "Ann", "ann@x.com");
    let tasks = TaskRepository::new();
    let mut svc = TaskService::new(None);
    let mut q = no_query();
    q.limit = Some(0);
    let err = get_tasks(&mut svc, &tasks, &users, &current(&ann), q).unwrap_err();
    match err {
        ApiError::BadRequest(m) => assert_eq!(m, "Limit must be between 1 and 100"),
        other => panic!("expected BadRequest, got {:?}", other),
    }
    let mut q2 = no_query();
    q2.status = Some(String::from("paused"));
    let err2 = get_tasks(&mut svc, &tasks, &users, &current(&ann), q2).unwrap_err();
    match err2 {
        ApiError::BadRequest(m) => assert_eq!(m, "Invalid status. Must be: todo, in_progress, done"),
        other => panic!("expected BadRequest, got {:?}", other),
    }
}

#[test]
fn end_to_end_register_login_create_and_list() {
    let config = auth_cfg();
    let auth = AuthService::new(config.clone());
    let mut users = UserRepository::new();
    let ann = auth
        .register(&mut users, RegisterRequest {
            name: String::from("Ann"),
            email: String::from("ann@x.com"),
            password: String::from("Abcdef12"),
        })
        .unwrap();
    assert!(matches!(ann.role, UserRole::User));
    let token = auth
        .login(&users, LoginRequest {
            email: String::from("ann@x.com"),
            password: String::from("Abcdef12"),
        })
        .unwrap();
    let caller =
        authenticate_request(&config, Some(&format!("Bearer {}", token.token))).unwrap();
    assert_eq!(caller.email, "ann@x.com");
    assert_eq!(caller.id, ann.id);

    let mut tasks = TaskRepository::new();
    let mut svc = TaskService::new(Some(RedisCache::new(300)));
    let created =
        create_task(&mut svc, &mut tasks, &users, &caller, task_req("Buy milk", None)).unwrap();
    assert!(matches!(created.status, TaskStatus::Todo));
    assert_eq!(created.slug, "buy-milk");
    assert_eq!(created.user_id, ann.id);

    // Even a request that asks for everything comes back scoped to Ann:
    // the owner filter is forced for callers that are not administrators.
    let mut grab_all = no_query();
    grab_all.page = Some(1);
    grab_all.limit = Some(50);
    let resp = match get_tasks(&mut svc, &tasks, &users, &caller, grab_all).unwrap() {
        TaskQueryResponse::Paginated(p) => p,
        other => panic!("expected the paginated shape, got {:?}", other),
    };
    assert_eq!(resp.pagination.total, 1);
    assert_eq!(resp.data.len(), 1);
    assert_eq!(resp.data[0].id, created.id);
    assert_eq!(resp.data[0].user_id, ann.id);
}

#[test]
fn owner_filter_cannot_be_bypassed_by_a_client_filter() {
    let mut users = UserRepository::new();
    let ann = register(&mut users, "Ann", "ann@x.com");
    let bob = register(&mut users, "Bob", "bob@x.com");
    let mut tasks = TaskRepository::new();
    let mut svc = TaskService::new(None);
    create_task(&mut svc, &mut tasks, &users, &current(&ann), task_req("Ann's task", None))
        .unwrap();
    let bobs =
        create_task(&mut svc, &mut tasks, &users, &current(&bob), task_req("Bob's task", None))
            .unwrap();
    // Ann names Bob as the owner filter in a paginated query; the filter
    // is forced back to Ann herself.
    let mut q = no_query();
    q.page = Some(1);
    q.user_id = Some(uuid_to_string(bob.id));
    let resp = match get_tasks(&mut svc, &tasks, &users, &current(&ann), q).unwrap() {
        TaskQueryResponse::Paginated(p) => p,
        other => panic!("expected the paginated shape, got {:?}", other),
    };
    assert_eq!(resp.pagination.total, 1);
    assert_eq!(resp.data[0].user_id, ann.id);
    assert_ne!(resp.data[0].id, bobs.id);
    // In the simple shape the same attempt is refused outright.
    let mut q2 = no_query();
    q2.user_id = Some(uuid_to_string(bob.id));
    let err = get_tasks(&mut svc, &tasks, &users, &current(&ann), q2).unwrap_err();
    assert!(matches!(err, ApiError::Forbidden(_)));
}

#[test]
fn status_and_date_filters_constrain_the_listing() {
    let mut users = UserRepository::new();
    let ann = register(&mut users, "Ann", "ann@x.com");
    let mut tasks = TaskRepository::new();
    let mut svc = TaskService::new(None);
    create_task(&mut svc, &mut tasks, &users, &current(&ann), task_req("one", None)).unwrap();
    create_task(&mut svc, &mut tasks, &users, &current(&ann), task_req("two", None)).unwrap();

    let mut by_status = no_query();
    by_status.status = Some(String::from("DONE"));
    let resp = match get_tasks(&mut svc, &tasks, &users, &current(&ann), by_status).unwrap() {
        TaskQueryResponse::Paginated(p) => p,
        other => panic!("expected the paginated shape, got {:?}", other),
    };
    assert_eq!(resp.pagination.total, 0);

    let mut todo_only = no_query();
    todo_only.status = Some(String::from("todo"));
    let resp2 = match get_tasks(&mut svc, &tasks, &users, &current(&ann), todo_only).unwrap() {
        TaskQueryResponse::Paginated(p) => p,
        other => panic!("expected the paginated shape, got {:?}", other),
    };
    assert_eq!(resp2.pagination.total, 2);

    let mut future = no_query();
    future.created_after = Some(String::from("2999-01-01T00:00:00Z"));
    let resp3 = match get_tasks(&mut svc, &tasks, &users, &current(&ann), future).unwrap() {
        TaskQueryResponse::Paginated(p) => p,
        other => panic!("expected the paginated shape, got {:?}", other),
    };
    assert_eq!(resp3.pagination.total, 0);

    let mut bad_date = no_query();
    bad_date.created_after = Some(String::from("tomorrow"));
    let err = get_tasks(&mut svc, &tasks, &users, &current(&ann), bad_date).unwrap_err();
    match err {
        ApiError::BadRequest(m) => {
            assert_eq!(m, "Invalid created_after date format. Use ISO 8601")
        },
        other => panic!("expected BadRequest, got {:?}", other),
    }
}

#[test]
fn cache_stores_replaces_and_deletes() {
    let t = |id: u128, title: &str| Task {
        id,
        title: String::from(title),
        description: None,
        slug: String::from(title),
        status: TaskStatus::Todo,
        user_id: 1,
        created_at: 0,
        updated_at: 0,
    };
    let mut cache = RedisCache::new(300);
    assert!(cache.get(CacheKey::Task(9)).is_none());
    cache.set(CacheKey::Task(9), CachedValue::One(t(9, "first")));
    match cache.get(CacheKey::Task(9)) {
        Some(CachedValue::One(found)) => assert_eq!(found.title, "first"),
        other => panic!("expected the single-task value, got {:?}", other),
    }
    cache.set_with_ttl(CacheKey::Task(9), CachedValue::One(t(9, "second")), 60);
    match cache.get(CacheKey::Task(9)) {
        Some(CachedValue::One(found)) => assert_eq!(found.title, "second"),
        other => panic!("expected the single-task value, got {:?}", other),
    }
    cache.del(CacheKey::Task(9));
    assert!(cache.get(CacheKey::Task(9)).is_none());
    // Deleting an absent key changes nothing.
    cache.del(CacheKey::AllTasks);
    let recycled = cache.with_ttl(30);
    assert_eq!(recycled.default_ttl_secs, 30);
}
