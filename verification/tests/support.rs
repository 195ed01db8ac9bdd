use sys_config::config::{decide_add, decide_batch_delete, decide_delete, decide_update};
use sys_config::error::AppError;
use sys_config::utils::pagination::PageRequest;
use sys_config::utils::response::Response;
use sys_config::utils::text::{str_contains, str_eq};

#[test]
fn success_envelope_has_code_zero_and_data() {
    let r = Response::success(41i32);
    assert_eq!(r.code, 0);
    assert_eq!(r.message, "success");
    assert_eq!(r.data, Some(41));
}

#[test]
fn error_envelope_has_no_data() {
    let r: Response<i32> = Response::error(500, "boom".to_string());
    assert_eq!(r.code, 500);
    assert_eq!(r.message, "boom");
    assert_eq!(r.data, None);
}

#[test]
fn page_offset_is_one_based() {
    assert_eq!(PageRequest { current_page: 1, page_size: 10 }.offset(), 0);
    assert_eq!(PageRequest { current_page: 3, page_size: 7 }.offset(), 14);
}

#[test]
fn error_messages_render_with_their_kind() {
    assert_eq!(
        AppError::NotFound("x".to_string()).message(),
        "Not Found: x"
    );
    assert_eq!(
        AppError::BadRequest("y".to_string()).message(),
        "Bad Request: y"
    );
    assert_eq!(
        AppError::InternalError("z".to_string()).message(),
        "Internal Error: z"
    );
    assert_eq!(AppError::DatabaseNotConnected.message(), "Database not connected");
}

#[test]
fn storage_errors_translate_by_kind() {
    assert_eq!(
        AppError::from_storage(true, "ignored".to_string()),
        AppError::NotFound("Record not found".to_string())
    );
    assert_eq!(
        AppError::from_storage(false, "io broke".to_string()),
        AppError::InternalError("io broke".to_string())
    );
}

#[test]
fn create_decision_rejects_taken_keys() {
    assert_eq!(
        decide_add(true).unwrap_err(),
        AppError::BadRequest("param key already exists".to_string())
    );
    assert!(decide_add(false).is_ok());
}

#[test]
fn update_decision_covers_every_case() {
    let new_key = "sys.b".to_string();
    assert_eq!(
        decide_update(&None, &new_key).unwrap_err(),
        AppError::NotFound("param not found".to_string())
    );
    let builtin = Some(("Y".to_string(), "sys.a".to_string()));
    assert_eq!(
        decide_update(&builtin, &new_key).unwrap_err(),
        AppError::BadRequest("built-in parameters cannot have their key renamed".to_string())
    );
    assert!(decide_update(&builtin, &"sys.a".to_string()).is_ok());
    let normal = Some(("N".to_string(), "sys.a".to_string()));
    assert!(decide_update(&normal, &new_key).is_ok());
}

#[test]
fn delete_decision_protects_builtins_only() {
    assert_eq!(
        decide_delete(&Some("Y".to_string())).unwrap_err(),
        AppError::BadRequest("built-in parameters cannot be deleted".to_string())
    );
    assert!(decide_delete(&Some("N".to_string())).is_ok());
    assert!(decide_delete(&None).is_ok());
}

#[test]
fn batch_decision_blocks_on_any_builtin() {
    assert_eq!(
        decide_batch_delete(&vec!["N".to_string(), "Y".to_string()]).unwrap_err(),
        AppError::BadRequest("selection contains built-in parameters".to_string())
    );
    assert!(decide_batch_delete(&vec!["N".to_string(), "N".to_string()]).is_ok());
    assert!(decide_batch_delete(&Vec::new()).is_ok());
}

#[test]
fn string_equality_is_by_characters() {
    assert!(str_eq("Y", "Y"));
    assert!(!str_eq("Y", "N"));
    assert!(!str_eq("Y", "YY"));
    assert!(str_eq("", ""));
}

#[test]
fn substring_search_finds_inner_runs() {
    assert!(str_contains("hello", "ell"));
    assert!(str_contains("hello", ""));
    assert!(str_contains("hello", "hello"));
    assert!(!str_contains("hello", "hellos"));
    assert!(!str_contains("", "a"));
    assert!(!str_contains("upload.max", "lang"));
    assert!(str_contains("upload.max", "load"));
}
