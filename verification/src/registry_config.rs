//! The settings of the CoconutPak registry.
use vstd::prelude::*;

verus! {

/// The registry's settings.
pub struct ServerConfig {
    pub postgres: PostgresSQL,
    pub port: u16,
    pub github: GithubLogin,
}

/// Where the registry serves static files from and puts compiled paks.
pub struct Files {
    pub static_serve_location: String,
    pub compile_target_directory: String,
}

/// The GitHub OAuth client of registry logins.
pub struct GithubLogin {
    pub client_id: String,
    pub client_secret: String,
}

/// The registry's database.
pub struct PostgresSQL {
    pub url: String,
}

/// The port the registry listens on when none is set.
pub fn default_port() -> (r: u16)
    ensures
        r == 8000,
{
    8000
}

pub fn default_static_serve_location() -> (r: String)
    ensures
        r@ == "static"@,
{
    String::from_str("static")
}

pub fn default_compile_target_directory() -> (r: String)
    ensures
        r@ == "compile"@,
{
    String::from_str("compile")
}

} // verus!
