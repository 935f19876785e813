//! Settings of the server and how command line arguments override them.

use vstd::prelude::*;
use crate::paths::{path_join, spec_path_join};
use crate::text::{str_concat, str_trim, trim_spec};

verus! {

/// Server settings. `host`, when set, is the textual IP address to bind to
/// and wins over `listen_on_all_interfaces`.
#[derive(Debug, Clone)]
pub struct Server {
    pub database_url: Option<String>,
    pub listen_on_all_interfaces: bool,
    pub port: u16,
    pub host: Option<String>,
}

/// Application settings.
#[derive(Debug, Clone)]
pub struct Settings {
    pub server: Server,
}

impl Default for Settings {
    fn default() -> (s: Self)
        ensures
            s.server.database_url is None,
            !s.server.listen_on_all_interfaces,
            s.server.port == 3000,
            s.server.host is None,
    {
        Settings { server: Server { database_url: None, listen_on_all_interfaces: false, port: 3000, host: None } }
    }
}

/// Command line arguments: a database URL, whether to listen on all
/// interfaces, a port and a configuration file.
#[derive(Debug, Clone)]
pub struct Args {
    pub database_url: Option<String>,
    pub host: Option<bool>,
    pub port: Option<u16>,
    pub config: Option<String>,
}

/// The arguments that are given override the settings.
pub fn override_config(settings: &mut Settings, args: &Args)
    ensures
        final(settings).server.database_url == match args.database_url {
            Some(u) => Some(u),
            None => old(settings).server.database_url,
        },
        final(settings).server.listen_on_all_interfaces == match args.host {
            Some(b) => b,
            None => old(settings).server.listen_on_all_interfaces,
        },
        final(settings).server.port == match args.port {
            Some(p) => p,
            None => old(settings).server.port,
        },
        final(settings).server.host == old(settings).server.host,
{
    match &args.database_url {
        Some(url) => {
            settings.server.database_url = Some(url.clone());
        },
        None => {},
    }
    match args.host {
        Some(b) => {
            settings.server.listen_on_all_interfaces = b;
        },
        None => {},
    }
    match args.port {
        Some(p) => {
            settings.server.port = p;
        },
        None => {},
    }
}

/// The address to bind to: the configured host, else every interface or
/// only the loopback one.
pub fn bind_host(server: &Server) -> (h: String)
    ensures
        h@ == match server.host {
            Some(host) => host@,
            None => if server.listen_on_all_interfaces { "0.0.0.0"@ } else { "127.0.0.1"@ },
        },
{
    match &server.host {
        Some(h) => h.clone(),
        None => if server.listen_on_all_interfaces {
            String::from_str("0.0.0.0")
        } else {
            String::from_str("127.0.0.1")
        },
    }
}

/// The configured database URL, unless it is blank.
pub fn configured_database_url(server: &Server) -> (r: Option<&String>)
    ensures
        match server.database_url {
            Some(u) => if trim_spec(u@).len() == 0 { r is None } else { r == Some(&u) },
            None => r is None,
        },
{
    match &server.database_url {
        Some(u) => if str_trim(u.as_str()).is_empty() { None } else { Some(u) },
        None => None,
    }
}

/// The URL of the default database `name` kept in `config_dir`.
pub fn default_database_url(config_dir: &str, name: &str) -> (r: String)
    ensures
        r@ == "sqlite://"@ + spec_path_join(config_dir@, name@ + ".db"@),
{
    let file = str_concat(name, ".db");
    let path = path_join(config_dir, file.as_str());
    str_concat("sqlite://", path.as_str())
}

/// The file of the default database `name` kept in `data_dir`.
pub fn default_database_file(data_dir: &str, name: &str) -> (r: String)
    ensures
        r@ == spec_path_join(data_dir@, name@ + ".db"@),
{
    let file = str_concat(name, ".db");
    path_join(data_dir, file.as_str())
}

} // verus!
