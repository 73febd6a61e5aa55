use note_task_api::ApiError;
use note_task_api::PaginationMeta;
use note_task_api::PaginationParams;

fn params(page: u32, limit: u32) -> PaginationParams {
    PaginationParams {
        page,
        limit,
        sort_by: String::from("created_at"),
        sort_direction: String::from("desc"),
    }
}

#[test]
fn forty_five_rows_at_twenty_per_page_make_three_pages() {
    let meta = PaginationMeta::new(&params(1, 20), 45);
    assert_eq!(meta.total_pages, 3);
    assert_eq!(meta.total, 45);
    assert_eq!(meta.limit, 20);
}

#[test]
fn last_page_has_prev_but_no_next() {
    let meta = PaginationMeta::new(&params(3, 20), 45);
    assert!(!meta.has_next);
    assert!(meta.has_prev);
}

#[test]
fn first_page_has_no_prev() {
    let meta = PaginationMeta::new(&params(1, 20), 45);
    assert!(meta.has_next);
    assert!(!meta.has_prev);
}

#[test]
fn middle_page_has_both_neighbours() {
    let meta = PaginationMeta::new(&params(2, 20), 45);
    assert!(meta.has_next);
    assert!(meta.has_prev);
}

#[test]
fn exact_division_and_empty_sets() {
    assert_eq!(PaginationMeta::new(&params(1, 20), 40).total_pages, 2);
    assert_eq!(PaginationMeta::new(&params(1, 20), 0).total_pages, 0);
    assert_eq!(PaginationMeta::new(&params(1, 1), 1).total_pages, 1);
}

#[test]
fn validate_accepts_defaults() {
    assert!(params(1, 20).validate().is_ok());
}

#[test]
fn validate_rejects_page_zero() {
    assert_eq!(params(0, 20).validate().unwrap_err(), "Page must be greater than 0");
}

#[test]
fn validate_rejects_bad_limits() {
    assert_eq!(params(1, 0).validate().unwrap_err(), "Limit must be between 1 and 100");
    assert_eq!(params(1, 101).validate().unwrap_err(), "Limit must be between 1 and 100");
    assert!(params(1, 100).validate().is_ok());
}

#[test]
fn validate_rejects_bad_sort_fields() {
    let mut p = params(1, 20);
    p.sort_by = String::from("owner");
    assert_eq!(p.validate().unwrap_err(), "Invalid sort field");
    let mut q = params(1, 20);
    q.sort_direction = String::from("up");
    assert_eq!(q.validate().unwrap_err(), "Sort direction must be 'asc' or 'desc'");
}

#[test]
fn offset_counts_preceding_rows() {
    assert_eq!(params(1, 20).offset(), 0);
    assert_eq!(params(3, 20).offset(), 40);
}

#[test]
fn error_kinds_map_to_their_status_codes() {
    assert_eq!(ApiError::TaskNotFound { id: 1 }.status_code(), 404);
    assert_eq!(ApiError::bad_request("x").status_code(), 400);
    assert_eq!(ApiError::validation_error("x").status_code(), 400);
    assert_eq!(ApiError::EmailAlreadyExists { email: String::from("a@x.co") }.status_code(), 409);
    assert_eq!(ApiError::conflict("x").status_code(), 409);
    assert_eq!(ApiError::forbidden("x").status_code(), 403);
    assert_eq!(ApiError::unauthorized("x").status_code(), 401);
    assert_eq!(ApiError::internal_error("x").status_code(), 500);
    assert_eq!(ApiError::not_found("x").status_code(), 404);
}
