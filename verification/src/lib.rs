//! Backend for a system-configuration table: paginated listing with
//! substring filters, creation with key uniqueness, update and deletion with
//! built-in-parameter protection, and key-based value lookup, together with
//! the response envelope and the mock authentication endpoints.
//!
//! The persisted table is modelled by [`config::ConfigStore`]; the shell that
//! owns the real connection lives outside this crate and drives the same
//! rules through the decision functions in [`config`].

pub mod config;
pub mod error;
pub mod handlers;
pub mod utils;

use vstd::prelude::*;

verus! {

/// Shared application state: the store handle, absent until the connect
/// step has run. Every operation on an unset handle fails with
/// `AppError::DatabaseNotConnected`.
pub struct AppState {
    pub pool: Option<config::ConfigStore>,
}

} // verus!
