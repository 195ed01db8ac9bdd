//! The inbound command layer for the configuration store: each command
//! borrows the shared store handle, fails with `DatabaseNotConnected` while
//! the handle is unset, delegates to the store, and wraps success in the
//! response envelope.

use crate::config::{
    batch_blocked, created_row, delete_blocked, has_id, key_taken, lookup_value, matching_desc,
    msg_batch_builtin, msg_builtin_delete, msg_builtin_rename, msg_id_required, msg_key_exists,
    msg_not_found, opt_str_view, page_of, query_view, remove_by_id, remove_by_ids, row_views,
    update_blocked, updated_row, ConfigQuery, SysConfig,
};
use crate::error::{is_bad_request, is_not_found, AppError};
use crate::utils::pagination::{PageRequest, PageResponse};
use crate::utils::response::Response;
use crate::AppState;
use vstd::prelude::*;

verus! {

/// Lists one page of the rows matching the optional substring filters,
/// newest first, together with the total match count.
pub fn get_config_list(
    state: &AppState,
    param_name: Option<String>,
    param_key: Option<String>,
    current_page: u64,
    page_size: u64,
) -> (r: Result<Response<PageResponse<SysConfig>>, AppError>)
    requires
        current_page >= 1,
        page_size >= 1,
        (current_page - 1) * page_size <= u64::MAX,
    ensures
        state.pool is None ==> (r matches Err(e) && e == AppError::DatabaseNotConnected),
        state.pool matches Some(s) ==> (r matches Ok(resp) && (resp.data matches Some(pr)
            && resp.code == 0 && resp.message@ == "success"@ && pr.total == matching_desc(
            s@,
            query_view(param_name, param_key),
        ).len() && row_views(pr.records@) == page_of(
            matching_desc(s@, query_view(param_name, param_key)),
            (current_page - 1) * page_size,
            page_size as int,
        ) && pr.records@.len() <= page_size && pr.current_page == current_page && pr.page_size
            == page_size)),
{
    match &state.pool {
        None => Err(AppError::DatabaseNotConnected),
        Some(store) => {
            let query = ConfigQuery { param_name, param_key };
            let page_request = PageRequest { current_page, page_size };
            match SysConfig::get_list(store, &query, &page_request) {
                Ok(result) => Ok(Response::success(result)),
                Err(e) => Err(e),
            }
        },
    }
}

/// Creates a row, rejecting a key that is already present.
pub fn add_config(state: &mut AppState, config: SysConfig) -> (r: Result<Response<()>, AppError>)
    requires
        old(state).pool matches Some(s) ==> s.wf() && s.clock < i64::MAX,
    ensures
        old(state).pool is None ==> (r matches Err(e) && e == AppError::DatabaseNotConnected
            && final(state).pool is None),
        old(state).pool matches Some(s) ==> (final(state).pool matches Some(s2) && s2.wf() && (
        key_taken(s@, config@.param_key) ==> (r matches Err(e) && is_bad_request(
            e,
            msg_key_exists(),
        ) && s2@ == s@ && s2.clock == s.clock)) && (!key_taken(s@, config@.param_key) ==> (
        r matches Ok(resp) && resp.code == 0 && resp.message@ == "success"@ && resp.data == Some(())
            && s2@ == s@.push(created_row(config@, s.clock as int)) && s2.clock == s.clock + 1))),
{
    match state.pool.as_mut() {
        None => Err(AppError::DatabaseNotConnected),
        Some(store) => {
            match SysConfig::add(store, &config) {
                Ok(()) => Ok(Response::success(())),
                Err(e) => Err(e),
            }
        },
    }
}

/// Updates a row in place, protecting a built-in row's key.
pub fn update_config(state: &mut AppState, config: SysConfig) -> (r: Result<Response<()>, AppError>)
    requires
        old(state).pool matches Some(s) ==> s.wf() && s.clock < i64::MAX,
    ensures
        old(state).pool is None ==> (r matches Err(e) && e == AppError::DatabaseNotConnected
            && final(state).pool is None),
        old(state).pool matches Some(s) ==> (final(state).pool matches Some(s2) && s2.wf() && (
        config.id is None ==> (r matches Err(e) && is_bad_request(e, msg_id_required()) && s2@ == s@
            && s2.clock == s.clock)) && ((config.id matches Some(v) && !has_id(s@, v as int)) ==> (
        r matches Err(e) && is_not_found(e, msg_not_found()) && s2@ == s@ && s2.clock == s.clock))
            && ((config.id matches Some(v) && update_blocked(s@, v as int, config@.param_key)) ==> (
        r matches Err(e) && is_bad_request(e, msg_builtin_rename()) && s2@ == s@ && s2.clock
            == s.clock)) && ((config.id matches Some(v) && has_id(s@, v as int) && !update_blocked(
            s@,
            v as int,
            config@.param_key,
        )) ==> (r matches Ok(resp) && resp.code == 0 && resp.message@ == "success"@ && resp.data
            == Some(()) && s2.clock == s.clock + 1 && exists|i: int|
            0 <= i < s@.len() && (#[trigger] s@[i]).id == Some(config.id->Some_0 as int) && s2@
                == s@.update(i, updated_row(s@[i], config@, s.clock as int))))),
{
    match state.pool.as_mut() {
        None => Err(AppError::DatabaseNotConnected),
        Some(store) => {
            match SysConfig::update(store, &config) {
                Ok(()) => Ok(Response::success(())),
                Err(e) => Err(e),
            }
        },
    }
}

/// Deletes one row, protecting built-in rows; an absent id is a no-op.
pub fn delete_config(state: &mut AppState, id: i64) -> (r: Result<Response<()>, AppError>)
    requires
        old(state).pool matches Some(s) ==> s.wf(),
    ensures
        old(state).pool is None ==> (r matches Err(e) && e == AppError::DatabaseNotConnected
            && final(state).pool is None),
        old(state).pool matches Some(s) ==> (final(state).pool matches Some(s2) && s2.wf()
            && s2.clock == s.clock && (delete_blocked(s@, id as int) ==> (r matches Err(e)
            && is_bad_request(e, msg_builtin_delete()) && s2@ == s@)) && (!delete_blocked(
            s@,
            id as int,
        ) ==> (r matches Ok(resp) && resp.code == 0 && resp.message@ == "success"@ && resp.data
            == Some(()) && s2@ == remove_by_id(s@, id as int)))),
{
    match state.pool.as_mut() {
        None => Err(AppError::DatabaseNotConnected),
        Some(store) => {
            match SysConfig::delete(store, id) {
                Ok(()) => Ok(Response::success(())),
                Err(e) => Err(e),
            }
        },
    }
}

/// Deletes a batch of rows, all or nothing: one built-in row in the
/// selection blocks the whole batch.
pub fn batch_delete_config(state: &mut AppState, ids: Vec<i64>) -> (r: Result<
    Response<()>,
    AppError,
>)
    requires
        old(state).pool matches Some(s) ==> s.wf(),
    ensures
        old(state).pool is None ==> (r matches Err(e) && e == AppError::DatabaseNotConnected
            && final(state).pool is None),
        old(state).pool matches Some(s) ==> (final(state).pool matches Some(s2) && s2.wf()
            && s2.clock == s.clock && (batch_blocked(s@, ids@) ==> (r matches Err(e)
            && is_bad_request(e, msg_batch_builtin()) && s2@ == s@)) && (!batch_blocked(s@, ids@)
            ==> (r matches Ok(resp) && resp.code == 0 && resp.message@ == "success"@ && resp.data
            == Some(()) && s2@ == remove_by_ids(s@, ids@)))),
{
    match state.pool.as_mut() {
        None => Err(AppError::DatabaseNotConnected),
        Some(store) => {
            match SysConfig::batch_delete(store, ids.as_slice()) {
                Ok(()) => Ok(Response::success(())),
                Err(e) => Err(e),
            }
        },
    }
}

/// Looks a key's value up; only an enabled row answers, and an absent or
/// disabled key is a success carrying no value.
pub fn get_config_value(state: &AppState, key: String) -> (r: Result<
    Response<Option<String>>,
    AppError,
>)
    ensures
        state.pool is None ==> (r matches Err(e) && e == AppError::DatabaseNotConnected),
        state.pool matches Some(s) ==> (r matches Ok(resp) && (resp.data matches Some(v)
            && resp.code == 0 && resp.message@ == "success"@ && opt_str_view(v) == lookup_value(
            s@,
            key@,
        ))),
{
    match &state.pool {
        None => Err(AppError::DatabaseNotConnected),
        Some(store) => {
            match SysConfig::get_value(store, key.as_str()) {
                Ok(value) => Ok(Response::success(value)),
                Err(e) => Err(e),
            }
        },
    }
}

} // verus!
