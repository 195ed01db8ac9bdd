use sys_config::config::{ConfigQuery, ConfigStore, SysConfig};
use sys_config::error::AppError;
use sys_config::utils::pagination::PageRequest;

fn cfg(name: &str, key: &str, value: &str, type_: &str, status: &str) -> SysConfig {
    SysConfig {
        id: None,
        param_name: name.to_string(),
        param_key: key.to_string(),
        param_value: value.to_string(),
        type_: type_.to_string(),
        status: status.to_string(),
        remark: None,
        create_time: None,
        update_time: None,
    }
}

fn query(name: Option<&str>, key: Option<&str>) -> ConfigQuery {
    ConfigQuery {
        param_name: name.map(|s| s.to_string()),
        param_key: key.map(|s| s.to_string()),
    }
}

fn page(current_page: u64, page_size: u64) -> PageRequest {
    PageRequest { current_page, page_size }
}

fn store_with(rows: &[(&str, &str, &str, &str, &str)]) -> ConfigStore {
    let mut store = ConfigStore::new();
    for (name, key, value, type_, status) in rows {
        SysConfig::add(&mut store, &cfg(name, key, value, type_, status)).unwrap();
    }
    store
}

fn list_keys(store: &ConfigStore, q: &ConfigQuery, p: &PageRequest) -> Vec<String> {
    SysConfig::get_list(store, q, p)
        .unwrap()
        .records
        .iter()
        .map(|r| r.param_key.clone())
        .collect()
}

#[test]
fn page_never_exceeds_size_and_total_counts_all_pages() {
    let store = store_with(&[
        ("a", "k.a", "1", "N", "0"),
        ("b", "k.b", "2", "N", "0"),
        ("c", "k.c", "3", "N", "0"),
        ("d", "k.d", "4", "N", "0"),
        ("e", "k.e", "5", "N", "0"),
    ]);
    for current in 1..=4u64 {
        let resp = SysConfig::get_list(&store, &query(None, None), &page(current, 2)).unwrap();
        assert_eq!(resp.total, 5);
        assert!(resp.records.len() <= 2);
        assert_eq!(resp.current_page, current);
        assert_eq!(resp.page_size, 2);
    }
    let third = SysConfig::get_list(&store, &query(None, None), &page(3, 2)).unwrap();
    assert_eq!(third.records.len(), 1);
    let past_end = SysConfig::get_list(&store, &query(None, None), &page(4, 2)).unwrap();
    assert_eq!(past_end.records.len(), 0);
    assert_eq!(past_end.total, 5);
}

#[test]
fn listing_is_newest_first_with_exact_pages() {
    let store = store_with(&[
        ("a", "k.a", "1", "N", "0"),
        ("b", "k.b", "2", "N", "0"),
        ("c", "k.c", "3", "N", "0"),
        ("d", "k.d", "4", "N", "0"),
        ("e", "k.e", "5", "N", "0"),
    ]);
    assert_eq!(
        list_keys(&store, &query(None, None), &page(1, 10)),
        vec!["k.e", "k.d", "k.c", "k.b", "k.a"]
    );
    assert_eq!(list_keys(&store, &query(None, None), &page(1, 2)), vec!["k.e", "k.d"]);
    assert_eq!(list_keys(&store, &query(None, None), &page(2, 2)), vec!["k.c", "k.b"]);
    assert_eq!(list_keys(&store, &query(None, None), &page(3, 2)), vec!["k.a"]);
}

#[test]
fn name_filter_matches_substring_only() {
    let store = store_with(&[
        ("foo one", "k.1", "1", "N", "0"),
        ("other", "k.2", "2", "N", "0"),
        ("xfoox", "k.3", "3", "N", "0"),
    ]);
    let resp =
        SysConfig::get_list(&store, &query(Some("foo"), None), &page(1, 10)).unwrap();
    assert_eq!(resp.total, 2);
    let names: Vec<String> = resp.records.iter().map(|r| r.param_name.clone()).collect();
    assert_eq!(names, vec!["xfoox", "foo one"]);
    assert!(names.iter().all(|n| n.contains("foo")));
}

#[test]
fn absent_filter_returns_all_rows() {
    let store = store_with(&[
        ("foo", "k.1", "1", "N", "0"),
        ("bar", "k.2", "2", "N", "0"),
    ]);
    let resp = SysConfig::get_list(&store, &query(None, None), &page(1, 10)).unwrap();
    assert_eq!(resp.total, 2);
    assert_eq!(resp.records.len(), 2);
}

#[test]
fn get_value_ignores_disabled_rows() {
    let store = store_with(&[("dark", "feature.dark", "on", "N", "1")]);
    assert_eq!(SysConfig::get_value(&store, "feature.dark").unwrap(), None);
}

#[test]
fn get_value_returns_enabled_value() {
    let store = store_with(&[
        ("dark", "feature.dark", "on", "N", "0"),
        ("lang", "ui.lang", "en", "N", "0"),
    ]);
    assert_eq!(
        SysConfig::get_value(&store, "feature.dark").unwrap(),
        Some("on".to_string())
    );
    assert_eq!(SysConfig::get_value(&store, "missing").unwrap(), None);
}

#[test]
fn get_value_on_empty_store_is_absent() {
    let store = ConfigStore::new();
    assert_eq!(SysConfig::get_value(&store, "anything").unwrap(), None);
}

#[test]
fn create_duplicate_key_fails_fresh_key_becomes_visible() {
    let mut store = store_with(&[("first", "K", "1", "N", "0")]);
    let err = SysConfig::add(&mut store, &cfg("second", "K", "2", "N", "0")).unwrap_err();
    assert_eq!(err, AppError::BadRequest("param key already exists".to_string()));

    SysConfig::add(&mut store, &cfg("fresh", "K2", "9", "N", "0")).unwrap();
    let resp = SysConfig::get_list(&store, &query(None, Some("K2")), &page(1, 10)).unwrap();
    assert_eq!(resp.total, 1);
    assert_eq!(resp.records[0].param_value, "9");
    assert_eq!(SysConfig::get_value(&store, "K2").unwrap(), Some("9".to_string()));
}

#[test]
fn update_cannot_rename_builtin_key() {
    let mut store = store_with(&[("sys", "sys.a", "1", "Y", "0")]);
    let id = SysConfig::get_list(&store, &query(None, None), &page(1, 10)).unwrap().records[0].id;
    let mut change = cfg("sys", "sys.b", "1", "Y", "0");
    change.id = id;
    let err = SysConfig::update(&mut store, &change).unwrap_err();
    assert_eq!(
        err,
        AppError::BadRequest("built-in parameters cannot have their key renamed".to_string())
    );
    let after = SysConfig::get_list(&store, &query(None, None), &page(1, 10)).unwrap();
    assert_eq!(after.records[0].param_key, "sys.a");
}

#[test]
fn update_builtin_value_changes_only_the_value() {
    let mut store = store_with(&[("sys", "sys.a", "1", "Y", "0")]);
    let before = SysConfig::get_list(&store, &query(None, None), &page(1, 10)).unwrap();
    let mut change = cfg("sys", "sys.a", "2", "Y", "0");
    change.id = before.records[0].id;
    SysConfig::update(&mut store, &change).unwrap();
    let after = SysConfig::get_list(&store, &query(None, None), &page(1, 10)).unwrap();
    assert_eq!(after.records[0].param_value, "2");
    assert_eq!(after.records[0].param_key, "sys.a");
    assert_eq!(after.records[0].param_name, "sys");
    assert_eq!(after.records[0].type_, "Y");
    assert_eq!(after.records[0].id, before.records[0].id);
    assert_eq!(after.records[0].create_time, before.records[0].create_time);
    assert_eq!(SysConfig::get_value(&store, "sys.a").unwrap(), Some("2".to_string()));
}

#[test]
fn update_without_id_is_bad_request() {
    let mut store = store_with(&[("a", "k.a", "1", "N", "0")]);
    let err = SysConfig::update(&mut store, &cfg("a", "k.a", "2", "N", "0")).unwrap_err();
    assert_eq!(err, AppError::BadRequest("param id must not be empty".to_string()));
}

#[test]
fn update_of_absent_row_is_not_found() {
    let mut store = store_with(&[("a", "k.a", "1", "N", "0")]);
    let mut change = cfg("a", "k.a", "2", "N", "0");
    change.id = Some(999);
    let err = SysConfig::update(&mut store, &change).unwrap_err();
    assert_eq!(err, AppError::NotFound("param not found".to_string()));
}

#[test]
fn update_never_mutates_type_flag() {
    let mut store = store_with(&[("user", "u.k", "1", "N", "0")]);
    let id = SysConfig::get_list(&store, &query(None, None), &page(1, 10)).unwrap().records[0].id;
    let mut change = cfg("user", "u.k2", "2", "Y", "1");
    change.id = id;
    SysConfig::update(&mut store, &change).unwrap();
    let after = SysConfig::get_list(&store, &query(None, None), &page(1, 10)).unwrap();
    assert_eq!(after.records[0].type_, "N");
    assert_eq!(after.records[0].param_key, "u.k2");
    assert_eq!(after.records[0].status, "1");
}

#[test]
fn delete_builtin_fails_and_row_remains() {
    let mut store = store_with(&[("sys", "sys.a", "1", "Y", "0")]);
    let id = SysConfig::get_list(&store, &query(None, None), &page(1, 10)).unwrap().records[0]
        .id
        .unwrap();
    let err = SysConfig::delete(&mut store, id).unwrap_err();
    assert_eq!(err, AppError::BadRequest("built-in parameters cannot be deleted".to_string()));
    let after = SysConfig::get_list(&store, &query(None, None), &page(1, 10)).unwrap();
    assert_eq!(after.total, 1);
}

#[test]
fn delete_of_absent_id_is_a_noop_success() {
    let mut store = store_with(&[("a", "k.a", "1", "N", "0")]);
    SysConfig::delete(&mut store, 12345).unwrap();
    let after = SysConfig::get_list(&store, &query(None, None), &page(1, 10)).unwrap();
    assert_eq!(after.total, 1);
}

#[test]
fn batch_delete_with_builtin_blocks_everything() {
    let mut store = store_with(&[
        ("sys", "sys.a", "1", "Y", "0"),
        ("user", "u.k", "2", "N", "0"),
    ]);
    let listed = SysConfig::get_list(&store, &query(None, None), &page(1, 10)).unwrap();
    let ids: Vec<i64> = listed.records.iter().map(|r| r.id.unwrap()).collect();
    let err = SysConfig::batch_delete(&mut store, &ids).unwrap_err();
    assert_eq!(
        err,
        AppError::BadRequest("selection contains built-in parameters".to_string())
    );
    let after = SysConfig::get_list(&store, &query(None, None), &page(1, 10)).unwrap();
    assert_eq!(after.total, 2);
}

#[test]
fn batch_delete_of_normal_rows_removes_them_all() {
    let mut store = store_with(&[
        ("a", "k.a", "1", "N", "0"),
        ("b", "k.b", "2", "N", "0"),
        ("c", "k.c", "3", "N", "0"),
    ]);
    let listed = SysConfig::get_list(&store, &query(None, None), &page(1, 10)).unwrap();
    let ids: Vec<i64> = listed
        .records
        .iter()
        .filter(|r| r.param_key != "k.b")
        .map(|r| r.id.unwrap())
        .collect();
    SysConfig::batch_delete(&mut store, &ids).unwrap();
    assert_eq!(list_keys(&store, &query(None, None), &page(1, 10)), vec!["k.b"]);
}

#[test]
fn create_list_delete_round_trip() {
    let mut store = ConfigStore::new();
    SysConfig::add(
        &mut store,
        &cfg("Max Upload", "upload.max", "10", "N", "0"),
    )
    .unwrap();

    let listed =
        SysConfig::get_list(&store, &query(None, Some("upload")), &page(1, 10)).unwrap();
    assert_eq!(listed.total, 1);
    assert_eq!(listed.records.len(), 1);
    assert_eq!(listed.records[0].param_name, "Max Upload");
    assert_eq!(listed.records[0].param_key, "upload.max");
    assert_eq!(listed.records[0].param_value, "10");

    let id = listed.records[0].id.unwrap();
    SysConfig::delete(&mut store, id).unwrap();

    let again =
        SysConfig::get_list(&store, &query(None, Some("upload")), &page(1, 10)).unwrap();
    assert_eq!(again.records.len(), 0);
    assert_eq!(again.total, 0);
}

#[test]
fn uniqueness_is_checked_at_create_time_only() {
    // the pre-write existence check guards create; update performs none
    let mut store = store_with(&[
        ("a", "k.a", "1", "N", "0"),
        ("b", "k.b", "2", "N", "0"),
    ]);
    let id = SysConfig::get_list(&store, &query(None, Some("k.b")), &page(1, 10))
        .unwrap()
        .records[0]
        .id;
    let mut change = cfg("b", "k.a", "2", "N", "0");
    change.id = id;
    SysConfig::update(&mut store, &change).unwrap();
    let keys = list_keys(&store, &query(None, None), &page(1, 10));
    assert_eq!(keys, vec!["k.a", "k.a"]);
}

#[test]
fn key_filter_matches_substring() {
    let store = store_with(&[
        ("a", "upload.max", "10", "N", "0"),
        ("b", "ui.lang", "en", "N", "0"),
    ]);
    let resp = SysConfig::get_list(&store, &query(None, Some("load")), &page(1, 10)).unwrap();
    assert_eq!(resp.total, 1);
    assert_eq!(resp.records[0].param_key, "upload.max");
}
