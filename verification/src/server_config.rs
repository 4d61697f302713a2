//! The settings of the CoconutPak Island server and of the registry, with
//! the defaults of the fields a settings file may leave out.
use vstd::prelude::*;

verus! {

/// The Island server's settings.
pub struct Config {
    pub machine_id: u8,
    pub port: u16,
    pub compiler: Compiler,
    pub database: Database,
    pub other_coconutpak: OtherCoconutPak,
    pub host_url: String,
    pub oauth: KindKapiBariOAuth,
    pub signing_key: String,
    pub support_official_kkb_login: bool,
}

/// Where static files are served from.
pub struct Files {
    pub static_serve_location: String,
}

/// The databases the server uses.
pub struct Database {
    pub postgres_url: String,
    pub postgres_pool: u32,
    pub sled_store_path: String,
    pub meilisearch_url: String,
    pub meilisearch_passwd: String,
    pub redis_url: String,
}

/// How the server runs the compiler.
pub struct Compiler {
    pub core_threads: usize,
    pub max_threads: usize,
    pub worker_thread_stay_alive: usize,
    pub max_pak_time_s: usize,
    pub compiler_location: String,
    pub compile_target_directory: String,
}

/// The other CoconutPak services.
pub struct OtherCoconutPak {
    pub statistics_service_address: String,
    pub statistics_service_secret: String,
    pub build_service_address: String,
    pub build_service_secret: String,
}

/// The OAuth client of KindKapiBari logins.
pub struct KindKapiBariOAuth {
    pub client_id: String,
    pub client_secret: String,
    pub authorize_url: String,
    pub token_url: String,
}

/// The port the server listens on when none is set.
pub fn default_port() -> (r: u16)
    ensures
        r == 3160,
{
    3160
}

/// Official KindKapiBari logins are off unless set.
pub fn default_kkb_login() -> (r: bool)
    ensures
        r == false,
{
    false
}

pub fn default_static_serve_location() -> (r: String)
    ensures
        r@ == "static"@,
{
    String::from_str("static")
}

pub fn default_compile_target_directory() -> (r: String)
    ensures
        r@ == "compile"@,
{
    String::from_str("compile")
}

pub fn default_core_threads() -> (r: usize)
    ensures
        r == 2,
{
    2
}

pub fn default_max_threads() -> (r: usize)
    ensures
        r == 4,
{
    4
}

/// How long a worker thread stays alive when idle.
pub fn default_wtsa() -> (r: usize)
    ensures
        r == 1000,
{
    1000
}

/// The longest a pak may take to compile, in seconds.
pub fn default_mpts() -> (r: usize)
    ensures
        r == 60,
{
    60
}

pub fn default_compiler_location() -> (r: String)
    ensures
        r@ == "coconutpak"@,
{
    String::from_str("coconutpak")
}

pub fn default_sled_store_path() -> (r: String)
    ensures
        r@ == "sled"@,
{
    String::from_str("sled")
}

} // verus!
