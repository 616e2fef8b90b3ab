use vstd::prelude::*;
use vstd::string::*;

use crate::app_error::AppError;

verus! {

/// Database settings.
#[derive(Debug)]
pub struct Database {
    pub url: String,
    pub max_connections: u32,
    pub timeout: u64,
}

/// Server settings; `domain` is what challenges name.
#[derive(Debug)]
pub struct Server {
    pub host: String,
    pub port: u16,
    pub domain: String,
}

/// Chain settings.
#[derive(Debug)]
pub struct Ethereum {
    pub rpc_url: String,
    pub private_key: Option<String>,
    pub contract_address: String,
    pub chain_id: u32,
}

/// Token settings.
#[derive(Debug)]
pub struct Auth {
    pub jwt_secret: String,
    pub token_expires_in: u64,
}

/// Settings handed to the browser front end.
#[derive(Debug)]
pub struct FrontendConfig {
    pub api_url: String,
    pub dev_server_port: u16,
    pub assets_path: String,
    pub debug: bool,
}

/// All settings.
#[derive(Debug)]
pub struct AppConfig {
    pub database: Database,
    pub server: Server,
    pub ethereum: Ethereum,
    pub auth: Auth,
    pub frontend: FrontendConfig,
}

/// The front-end settings with the page's CSRF token, as the page receives them.
#[derive(Debug)]
pub struct SerializableFrontendConfig {
    pub csrf_token: String,
    pub api_url: String,
    pub dev_server_port: u16,
    pub assets_path: String,
    pub debug: bool,
}

/// Settings of the simple token service: secret, lifetime in minutes, port.
#[derive(Debug)]
pub struct Config {
    pub jwt_secret: String,
    pub jwt_expires_in: u64,
    pub port: u16,
}

impl Database {
    /// The URL must be non-empty and the pool size and timeout positive, checked in that order.
    pub fn validate_db(&self) -> (r: Result<(), AppError>)
        ensures
            r is Ok <==> (self.url@.len() > 0 && self.max_connections > 0 && self.timeout > 0),
            self.url@.len() == 0 ==> (r matches Err(AppError::DatabaseError(m)) && m@
                == "Database URL is empty"@),
            self.url@.len() > 0 && self.max_connections == 0 ==> (r matches Err(
                AppError::DatabaseError(m),
            ) && m@ == "Max connections must be greater than 0"@),
            self.url@.len() > 0 && self.max_connections > 0 && self.timeout == 0 ==> (r matches Err(
                AppError::DatabaseError(m),
            ) && m@ == "Timeout must be greater than 0"@),
    {
        if self.url.as_str().unicode_len() == 0 {
            return Err(AppError::DatabaseError(String::from_str("Database URL is empty")));
        }
        if self.max_connections == 0 {
            return Err(
                AppError::DatabaseError(String::from_str("Max connections must be greater than 0")),
            );
        }
        if self.timeout == 0 {
            return Err(AppError::DatabaseError(String::from_str("Timeout must be greater than 0")));
        }
        Ok(())
    }
}

impl Server {
    /// The host must be non-empty and the port positive.
    pub fn validate_server(&self) -> (r: Result<(), AppError>)
        ensures
            r is Ok <==> (self.host@.len() > 0 && self.port > 0),
            self.host@.len() == 0 ==> (r matches Err(AppError::ServerError(m)) && m@
                == "Server host is empty"@),
            self.host@.len() > 0 && self.port == 0 ==> (r matches Err(AppError::ServerError(m))
                && m@ == "Server port must be greater than 0"@),
    {
        if self.host.as_str().unicode_len() == 0 {
            return Err(AppError::ServerError(String::from_str("Server host is empty")));
        }
        if self.port == 0 {
            return Err(AppError::ServerError(String::from_str("Server port must be greater than 0")));
        }
        Ok(())
    }
}

impl AppConfig {
    /// Checks the database and server settings.
    pub fn validate(&self) -> (r: Result<(), AppError>)
        ensures
            r is Ok <==> (self.database.url@.len() > 0 && self.database.max_connections > 0
                && self.database.timeout > 0 && self.server.host@.len() > 0 && self.server.port
                > 0),
    {
        if let Err(e) = self.database.validate_db() {
            return Err(e);
        }
        self.server.validate_server()
    }
}

/// The front-end settings of `config` with `csrf_token`.
pub fn get_serializable_frontend_config(config: &FrontendConfig, csrf_token: String) -> (r:
    SerializableFrontendConfig)
    ensures
        r.csrf_token == csrf_token,
        r.api_url == config.api_url,
        r.dev_server_port == config.dev_server_port,
        r.assets_path == config.assets_path,
        r.debug == config.debug,
{
    SerializableFrontendConfig {
        csrf_token,
        api_url: config.api_url.clone(),
        dev_server_port: config.dev_server_port,
        assets_path: config.assets_path.clone(),
        debug: config.debug,
    }
}

} // verus!
