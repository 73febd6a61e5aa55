use note_task_api::ApiError;
use note_task_api::AuthConfig;
use note_task_api::AuthService;
use note_task_api::LoginRequest;
use note_task_api::RegisterRequest;
use note_task_api::UserRepository;
use note_task_api::UserRole;
use note_task_api::Validator;
use note_task_api::authenticate_request;
use note_task_api::require_admin;
use note_task_api::token_expiry;
use note_task_api::CurrentUser;

fn cfg() -> AuthConfig {
    AuthConfig {
        jwt_secret: String::from("unit-test-signing-secret"),
        issuer: String::from("note-task-api"),
        audience: String::from("note-clients"),
        expiry_minutes: 60,
    }
}

fn register_req(name: &str, email: &str, password: &str) -> RegisterRequest {
    RegisterRequest {
        name: String::from(name),
        email: String::from(email),
        password: String::from(password),
    }
}

#[test]
fn register_sets_role_user_and_normalizes_email() {
    let auth = AuthService::new(cfg());
    let mut users = UserRepository::new();
    let user = auth
        .register(&mut users, register_req("Ann", "  Ann@X.com ", "Abcdef12"))
        .unwrap();
    assert!(matches!(user.role, UserRole::User));
    assert_eq!(user.email, "ann@x.com");
    assert_eq!(user.name, "Ann");
}

#[test]
fn register_rejects_taken_email() {
    let auth = AuthService::new(cfg());
    let mut users = UserRepository::new();
    auth.register(&mut users, register_req("Ann", "ann@x.com", "Abcdef12")).unwrap();
    let err = auth
        .register(&mut users, register_req("Another", "ann@x.com", "Abcdef12"))
        .unwrap_err();
    match err {
        ApiError::EmailAlreadyExists { email } => assert_eq!(email, "ann@x.com"),
        other => panic!("expected EmailAlreadyExists, got {:?}", other),
    }
}

#[test]
fn register_rejects_weak_passwords_and_bad_emails() {
    let auth = AuthService::new(cfg());
    let mut users = UserRepository::new();
    let weak = auth.register(&mut users, register_req("Ann", "ann@x.com", "abcdefgh"));
    assert!(matches!(weak, Err(ApiError::ValidationError(_))));
    let bad_email = auth.register(&mut users, register_req("Ann", "not-an-email", "Abcdef12"));
    assert!(matches!(bad_email, Err(ApiError::ValidationError(_))));
    let short = auth.register(&mut users, register_req("Ann", "ann@x.com", "Ab1"));
    assert!(matches!(short, Err(ApiError::ValidationError(_))));
}

#[test]
fn login_issues_a_token_whose_claims_carry_the_identity() {
    let auth = AuthService::new(cfg());
    let mut users = UserRepository::new();
    let user = auth.register(&mut users, register_req("Ann", "ann@x.com", "Abcdef12")).unwrap();
    let token = auth
        .login(&users, LoginRequest {
            email: String::from("ann@x.com"),
            password: String::from("Abcdef12"),
        })
        .unwrap();
    let header = format!("Bearer {}", token.token);
    let current = authenticate_request(&cfg(), Some(&header)).unwrap();
    assert_eq!(current.id, user.id);
    assert_eq!(current.email, "ann@x.com");
    assert!(matches!(current.role, UserRole::User));
}

#[test]
fn wrong_password_and_unknown_email_are_indistinguishable() {
    let auth = AuthService::new(cfg());
    let mut users = UserRepository::new();
    auth.register(&mut users, register_req("Ann", "ann@x.com", "Abcdef12")).unwrap();
    let wrong_password = auth
        .login(&users, LoginRequest {
            email: String::from("ann@x.com"),
            password: String::from("Wrong999"),
        })
        .unwrap_err();
    let unknown_email = auth
        .login(&users, LoginRequest {
            email: String::from("bob@x.com"),
            password: String::from("Abcdef12"),
        })
        .unwrap_err();
    let m1 = match wrong_password {
        ApiError::ValidationError(m) => m,
        other => panic!("expected ValidationError, got {:?}", other),
    };
    let m2 = match unknown_email {
        ApiError::ValidationError(m) => m,
        other => panic!("expected ValidationError, got {:?}", other),
    };
    assert_eq!(m1, m2);
    assert_eq!(m1, "Invalid email or password");
}

#[test]
fn token_verification_rejects_bad_inputs() {
    let auth = AuthService::new(cfg());
    let mut users = UserRepository::new();
    auth.register(&mut users, register_req("Ann", "ann@x.com", "Abcdef12")).unwrap();
    let token = auth
        .login(&users, LoginRequest {
            email: String::from("ann@x.com"),
            password: String::from("Abcdef12"),
        })
        .unwrap();

    let missing = authenticate_request(&cfg(), None).unwrap_err();
    assert!(matches!(missing, ApiError::Unauthorized(_)));

    let not_bearer = authenticate_request(&cfg(), Some(&format!("Token {}", token.token)));
    assert!(matches!(not_bearer, Err(ApiError::Unauthorized(_))));

    let garbage = authenticate_request(&cfg(), Some("Bearer not.a.token"));
    assert!(matches!(garbage, Err(ApiError::Unauthorized(_))));

    let mut other = cfg();
    other.jwt_secret = String::from("another-signing-secret");
    let wrong_secret =
        authenticate_request(&other, Some(&format!("Bearer {}", token.token)));
    assert!(matches!(wrong_secret, Err(ApiError::Unauthorized(_))));

    let mut wrong_aud = cfg();
    wrong_aud.audience = String::from("someone-else");
    let bad_aud = authenticate_request(&wrong_aud, Some(&format!("Bearer {}", token.token)));
    assert!(matches!(bad_aud, Err(ApiError::Unauthorized(_))));
}

#[test]
fn email_validation_accepts_and_rejects_the_expected_shapes() {
    assert!(Validator::is_valid_email("ann@x.com"));
    assert!(Validator::is_valid_email("a.b+c_d%e-f@sub.domain-x.org"));
    assert!(Validator::is_valid_email(" ann@x.com "));
    assert!(!Validator::is_valid_email("@x.com"));
    assert!(!Validator::is_valid_email("ann@.com"));
    assert!(!Validator::is_valid_email("ann@x"));
    assert!(!Validator::is_valid_email("ann@x.c"));
    assert!(!Validator::is_valid_email("ann x@x.com"));
    assert!(!Validator::is_valid_email("ann@x.co1"));
    assert!(!Validator::is_valid_email(""));
}

#[test]
fn password_strength_requires_all_three_classes() {
    assert!(Validator::is_strong_password("Abcdef12"));
    assert!(!Validator::is_strong_password("abcdef12"));
    assert!(!Validator::is_strong_password("ABCDEF12"));
    assert!(!Validator::is_strong_password("Abcdefgh"));
}

#[test]
fn admin_gate_refuses_plain_users() {
    let user = CurrentUser { id: 1, email: String::from("ann@x.com"), role: UserRole::User };
    match require_admin(&user) {
        Err(ApiError::Forbidden(m)) => assert_eq!(m, "Admin access required"),
        other => panic!("expected Forbidden, got {:?}", other),
    }
    let boss = CurrentUser { id: 2, email: String::from("root@x.com"), role: UserRole::Admin };
    assert!(require_admin(&boss).is_ok());
}

#[test]
fn token_expiry_adds_the_configured_lifetime() {
    assert_eq!(token_expiry(1_700_000_000, 60).unwrap(), 1_700_003_600);
    assert_eq!(token_expiry(0, 0).unwrap(), 0);
    assert!(matches!(token_expiry(i64::MAX, 60), Err(ApiError::InternalError(_))));
    assert!(matches!(token_expiry(-100_000, 1), Err(ApiError::InternalError(_))));
}
