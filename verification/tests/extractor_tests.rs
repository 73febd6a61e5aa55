use note_task_api::all_tasks_key;
use note_task_api::extract_field_name;
use note_task_api::parse_datetime;
use note_task_api::parse_serde_error;
use note_task_api::parse_uuid;
use note_task_api::task_key;
use note_task_api::user_tasks_key;
use note_task_api::uuid_to_string;
use note_task_api::validate_json_structure;

#[test]
fn field_names_are_read_between_delimiters() {
    assert_eq!(extract_field_name("missing field `email`").as_deref(), Some("email"));
    assert_eq!(extract_field_name("bad value at \"user_id\" there").as_deref(), Some("user_id"));
    assert_eq!(extract_field_name("`spaced out` name"), None);
    assert_eq!(extract_field_name("no delimiters here"), None);
    assert_eq!(extract_field_name("one `unclosed"), None);
    assert_eq!(extract_field_name("empty `` name"), None);
}

#[test]
fn serde_errors_become_friendly_messages() {
    assert_eq!(
        parse_serde_error("missing field `email` at line 1"),
        "Missing required field: email"
    );
    assert_eq!(parse_serde_error("missing field somewhere"), "Missing required field in request");
    assert_eq!(
        parse_serde_error("invalid type: string \"abc\", expected u32"),
        "Invalid data type for field: abc"
    );
    assert_eq!(
        parse_serde_error("invalid value: integer `-3`, expected u32"),
        "Invalid value in request"
    );
    assert_eq!(
        parse_serde_error("invalid value for `title` here"),
        "Invalid value for field: title"
    );
    assert_eq!(parse_serde_error("something odd about `title` here"), "Invalid data for field: title");
    assert_eq!(parse_serde_error("totally opaque failure"), "totally opaque failure");
}

#[test]
fn json_structure_reports_the_missing_field() {
    let provided = vec![String::from("name"), String::from("email")];
    let required = vec![String::from("name"), String::from("email")];
    assert_eq!(validate_json_structure(&provided, &required), None);
    let required2 = vec![String::from("name"), String::from("password")];
    assert_eq!(
        validate_json_structure(&provided, &required2).as_deref(),
        Some("Missing required field: password")
    );
}

#[test]
fn identifiers_round_trip_through_their_text_form() {
    let id: u128 = 0x0123_4567_89ab_cdef_0123_4567_89ab_cdef;
    let text = uuid_to_string(id);
    assert_eq!(text, "01234567-89ab-cdef-0123-456789abcdef");
    assert_eq!(parse_uuid(&text), Some(id));
    assert_eq!(parse_uuid("not-a-uuid"), None);
    assert_eq!(parse_uuid(""), None);
}

#[test]
fn cache_keys_are_deterministic_functions_of_identity() {
    let id: u128 = 7;
    assert_eq!(task_key(id), format!("task:{}", uuid_to_string(id)));
    assert_eq!(user_tasks_key(id), format!("user_tasks:{}", uuid_to_string(id)));
    assert_eq!(all_tasks_key(), "tasks:all");
}

#[test]
fn timestamps_parse_from_rfc3339() {
    assert_eq!(parse_datetime("2024-01-01T00:00:00Z"), Some(1704067200));
    assert_eq!(parse_datetime("2024-01-01T01:00:00+01:00"), Some(1704067200));
    assert_eq!(parse_datetime("yesterday"), None);
}
