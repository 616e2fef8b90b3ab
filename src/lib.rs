pub mod app_error;
pub mod address;
pub mod codec;
pub mod signature;
pub mod clock;
pub mod entropy;
pub mod challenge;
pub mod rate_limiter;
pub mod jwt;
pub mod security_events;
pub mod users;
pub mod auth;
pub mod config;
pub mod error;
pub mod server_utils;
