pub mod auth;
pub mod config;
