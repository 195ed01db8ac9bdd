use sys_config::config::{ConfigStore, SysConfig};
use sys_config::error::AppError;
use sys_config::handlers::config::{
    add_config, batch_delete_config, delete_config, get_config_list, get_config_value,
    update_config,
};
use sys_config::AppState;

fn cfg(name: &str, key: &str, value: &str, type_: &str, status: &str) -> SysConfig {
    SysConfig {
        id: None,
        param_name: name.to_string(),
        param_key: key.to_string(),
        param_value: value.to_string(),
        type_: type_.to_string(),
        status: status.to_string(),
        remark: None,
        create_time: None,
        update_time: None,
    }
}

fn connected() -> AppState {
    AppState { pool: Some(ConfigStore::new()) }
}

#[test]
fn every_command_fails_while_disconnected() {
    let mut state = AppState { pool: None };
    assert_eq!(
        get_config_list(&state, None, None, 1, 10).unwrap_err(),
        AppError::DatabaseNotConnected
    );
    assert_eq!(
        add_config(&mut state, cfg("a", "k", "1", "N", "0")).unwrap_err(),
        AppError::DatabaseNotConnected
    );
    assert_eq!(
        update_config(&mut state, cfg("a", "k", "1", "N", "0")).unwrap_err(),
        AppError::DatabaseNotConnected
    );
    assert_eq!(delete_config(&mut state, 1).unwrap_err(), AppError::DatabaseNotConnected);
    assert_eq!(
        batch_delete_config(&mut state, vec![1, 2]).unwrap_err(),
        AppError::DatabaseNotConnected
    );
    assert_eq!(
        get_config_value(&state, "k".to_string()).unwrap_err(),
        AppError::DatabaseNotConnected
    );
}

#[test]
fn add_then_list_through_the_envelope() {
    let mut state = connected();
    let created = add_config(&mut state, cfg("Max Upload", "upload.max", "10", "N", "0")).unwrap();
    assert_eq!(created.code, 0);
    assert_eq!(created.message, "success");
    assert_eq!(created.data, Some(()));

    let listed = get_config_list(&state, None, Some("upload".to_string()), 1, 10).unwrap();
    assert_eq!(listed.code, 0);
    assert_eq!(listed.message, "success");
    let pr = listed.data.unwrap();
    assert_eq!(pr.total, 1);
    assert_eq!(pr.records[0].param_key, "upload.max");
    assert_eq!(pr.current_page, 1);
    assert_eq!(pr.page_size, 10);
}

#[test]
fn duplicate_key_surfaces_bad_request_through_handler() {
    let mut state = connected();
    add_config(&mut state, cfg("a", "K", "1", "N", "0")).unwrap();
    let err = add_config(&mut state, cfg("b", "K", "2", "N", "0")).unwrap_err();
    assert_eq!(err, AppError::BadRequest("param key already exists".to_string()));
}

#[test]
fn value_lookup_through_handler_respects_status() {
    let mut state = connected();
    add_config(&mut state, cfg("on", "k.on", "1", "N", "0")).unwrap();
    add_config(&mut state, cfg("off", "k.off", "2", "N", "9")).unwrap();
    let on = get_config_value(&state, "k.on".to_string()).unwrap();
    assert_eq!(on.data, Some(Some("1".to_string())));
    let off = get_config_value(&state, "k.off".to_string()).unwrap();
    assert_eq!(off.data, Some(None));
}

#[test]
fn update_and_delete_through_handlers() {
    let mut state = connected();
    add_config(&mut state, cfg("a", "k.a", "1", "N", "0")).unwrap();
    let id = get_config_list(&state, None, None, 1, 10).unwrap().data.unwrap().records[0].id;

    let mut change = cfg("a2", "k.a", "2", "N", "0");
    change.id = id;
    let updated = update_config(&mut state, change).unwrap();
    assert_eq!(updated.code, 0);
    let listed = get_config_list(&state, None, None, 1, 10).unwrap().data.unwrap();
    assert_eq!(listed.records[0].param_name, "a2");
    assert_eq!(listed.records[0].param_value, "2");

    delete_config(&mut state, id.unwrap()).unwrap();
    let empty = get_config_list(&state, None, None, 1, 10).unwrap().data.unwrap();
    assert_eq!(empty.total, 0);
}

#[test]
fn batch_delete_through_handler_is_all_or_nothing() {
    let mut state = connected();
    add_config(&mut state, cfg("sys", "sys.a", "1", "Y", "0")).unwrap();
    add_config(&mut state, cfg("user", "u.k", "2", "N", "0")).unwrap();
    let ids: Vec<i64> = get_config_list(&state, None, None, 1, 10)
        .unwrap()
        .data
        .unwrap()
        .records
        .iter()
        .map(|r| r.id.unwrap())
        .collect();
    let err = batch_delete_config(&mut state, ids).unwrap_err();
    assert_eq!(err, AppError::BadRequest("selection contains built-in parameters".to_string()));
    let total = get_config_list(&state, None, None, 1, 10).unwrap().data.unwrap().total;
    assert_eq!(total, 2);
}
