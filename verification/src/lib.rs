//! A task-tracking backend core: stateless token-based identity and
//! role-based authorization, a cache-aside layer in front of the task
//! store with explicit invalidation on writes, a dynamic filter/sort/
//! paginate listing engine, and a collision-probing slug generator.
//!
//! The stores and the cache are verified in-memory models of the external
//! systems they stand for; the process boundary under `app` performs the
//! actual transport and hands the library plain values.

mod auth_service;
mod cache;
mod config;
mod error;
mod extractors;
mod handlers;
mod ids;
mod pagination;
mod password;
mod query;
mod requests;
mod slug;
mod task;
mod task_repository;
mod task_service;
mod text;
mod token;
mod user;
mod user_repository;
mod user_service;
mod validation;

pub use auth_service::AuthService;
pub use auth_service::token_expiry;
pub use cache::CacheEntry;
pub use cache::CacheKey;
pub use cache::CachedValue;
pub use cache::CachedValueView;
pub use cache::RedisCache;
pub use cache::all_tasks_key;
pub use cache::task_key;
pub use cache::user_tasks_key;
pub use config::AppConfig;
pub use config::AuthConfig;
pub use config::DatabaseConfig;
pub use config::LoggingConfig;
pub use config::RedisConfig;
pub use config::ServerConfig;
pub use error::ApiError;
pub use error::ApiErrorView;
pub use extractors::extract_field_name;
pub use extractors::parse_serde_error;
pub use extractors::validate_json_structure;
pub use handlers::DynamicTaskQuery;
pub use handlers::TaskIdPath;
pub use handlers::TaskQueryResponse;
pub use handlers::TasksQuery;
pub use handlers::UserIdPath;
pub use handlers::convert_to_task_query_params;
pub use handlers::create_task;
pub use handlers::create_user;
pub use handlers::get_task;
pub use handlers::get_tasks;
pub use handlers::get_user;
pub use handlers::parse_status;
pub use ids::parse_datetime;
pub use ids::parse_uuid;
pub use ids::uuid_to_string;
pub use pagination::PaginatedResponse;
pub use pagination::PaginationMeta;
pub use pagination::PaginationParams;
pub use pagination::SortBy;
pub use pagination::SortDir;
pub use pagination::TaskFilters;
pub use pagination::TaskFiltersView;
pub use pagination::TaskQueryParams;
pub use pagination::parse_sort_by;
pub use pagination::parse_sort_dir;
pub use query::clone_tasks;
pub use query::contains_sub;
pub use query::filter_tasks;
pub use query::page_slice;
pub use query::sort_tasks;
pub use query::str_lex_le;
pub use query::task_le;
pub use query::task_matches;
pub use requests::LoginRequest;
pub use requests::RegisterRequest;
pub use requests::TokenResponse;
pub use slug::generate_random_suffix;
pub use slug::lemma_slugify_idempotent;
pub use slug::slugify;
pub use task::CreateTaskRequest;
pub use task::Task;
pub use task::TaskStatus;
pub use task::TaskView;
pub use task_repository::CreateTaskRequestInternal;
pub use task_repository::TaskRepository;
pub use task_repository::lemma_created_slugs_distinct;
pub use task_service::TaskService;
pub use task_service::lemma_no_stale_listing;
pub use text::str_eq;
pub use text::to_lower_str;
pub use text::trim_str;
pub use token::Claims;
pub use token::ClaimsView;
pub use token::CurrentUser;
pub use token::authenticate_request;
pub use token::can_access;
pub use token::current_user_from_claims;
pub use token::extract_bearer;
pub use token::require_admin;
pub use user::CreateUserRequest;
pub use user::User;
pub use user::UserRole;
pub use user::UserView;
pub use user::parse_role;
pub use user::role_to_string;
pub use user_repository::UserRecord;
pub use user_repository::UserRecordView;
pub use user_repository::UserRepository;
pub use user_service::UserService;
pub use validation::Validator;
