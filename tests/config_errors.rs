use wallet_auth::app_error::{AppError, AuthErrorKind};
use wallet_auth::config::{get_serializable_frontend_config, Database, FrontendConfig, Server};
use wallet_auth::error::AppError as TokenError;

#[test]
fn database_settings_are_checked_in_order() {
    let ok = Database { url: "postgres://x".to_string(), max_connections: 5, timeout: 10 };
    assert!(ok.validate_db().is_ok());
    let empty = Database { url: String::new(), max_connections: 0, timeout: 0 };
    assert_eq!(empty.validate_db().unwrap_err(), AppError::DatabaseError("Database URL is empty".to_string()));
    let no_pool = Database { url: "u".to_string(), max_connections: 0, timeout: 1 };
    assert_eq!(
        no_pool.validate_db().unwrap_err(),
        AppError::DatabaseError("Max connections must be greater than 0".to_string())
    );
    let no_timeout = Database { url: "u".to_string(), max_connections: 1, timeout: 0 };
    assert_eq!(
        no_timeout.validate_db().unwrap_err(),
        AppError::DatabaseError("Timeout must be greater than 0".to_string())
    );
}

#[test]
fn server_settings_are_checked() {
    let ok = Server { host: "0.0.0.0".to_string(), port: 8080, domain: "example.com".to_string() };
    assert!(ok.validate_server().is_ok());
    let no_host = Server { host: String::new(), port: 8080, domain: String::new() };
    assert_eq!(no_host.validate_server().unwrap_err(), AppError::ServerError("Server host is empty".to_string()));
    let no_port = Server { host: "h".to_string(), port: 0, domain: String::new() };
    assert!(matches!(no_port.validate_server(), Err(AppError::ServerError(_))));
}

#[test]
fn frontend_config_carries_the_token() {
    let f = FrontendConfig { api_url: "/api".to_string(), dev_server_port: 5173, assets_path: "dist".to_string(), debug: true };
    let s = get_serializable_frontend_config(&f, "tok".to_string());
    assert_eq!(s.csrf_token, "tok");
    assert_eq!(s.api_url, "/api");
    assert_eq!(s.dev_server_port, 5173);
    assert_eq!(s.assets_path, "dist");
    assert!(s.debug);
}

#[test]
fn errors_map_to_status_codes_and_messages() {
    assert_eq!(AppError::ConfigError("x".to_string()).status_code(), 400);
    assert_eq!(AppError::DatabaseError("x".to_string()).status_code(), 500);
    assert_eq!(AppError::SignalError("x".to_string()).status_code(), 503);
    assert_eq!(AppError::AuthError(AuthErrorKind::TokenExpired).status_code(), 401);
    assert_eq!(AppError::AuthError(AuthErrorKind::InvalidIdentity).status_code(), 400);
    let limited = AppError::RateLimited { identifier: "ip:login".to_string(), count: 3, window_seconds: 60 };
    assert_eq!(limited.status_code(), 429);
    assert_eq!(limited.message(), "Rate limit exceeded for ip:login: 3 attempts in the last 60 seconds");
    assert_eq!(AppError::ConfigError("bad".to_string()).message(), "Config Error: bad");
    assert_eq!(AppError::OtherError("o".to_string()).message(), "Other Error: o");
    let negative = AppError::RateLimited { identifier: "k".to_string(), count: -1, window_seconds: -5 };
    assert_eq!(negative.message(), "Rate limit exceeded for k: -1 attempts in the last -5 seconds");
}

#[test]
fn token_service_errors() {
    assert_eq!(TokenError::InvalidToken.status_code(), 401);
    assert_eq!(TokenError::InternalServerError.status_code(), 500);
    assert_eq!(TokenError::TokenExpired.message(), "Token expired");
    assert_eq!(TokenError::InvalidCredentials.message(), "Invalid credentials");
}
