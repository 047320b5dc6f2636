//! The server's configuration and its environment.
use vstd::prelude::*;
use crate::text::owned;

verus! {

pub struct DockerConfig {
    pub cpu_set: String,
    pub cpu_shares: i64,
    pub memory: usize,
    pub disk_read_rate: usize,
    pub disk_write_rate: usize,
    pub disk_max_size: usize,
}

pub struct Config {
    pub use_https: bool,
    pub docker: DockerConfig,
}

/// Where the configuration is read from.
pub enum ConfigSource {
    /// `test-config/config.toml`, for development.
    TestConfig,
    /// `/etc/hydra/config.toml`.
    SystemConfig,
    /// No file: the built-in defaults.
    Defaults,
}

pub const TEST_CONFIG_PATH: &'static str = "test-config/config.toml";
pub const SYSTEM_CONFIG_PATH: &'static str = "/etc/hydra/config.toml";

/// The built-in defaults: plain HTTP, CPU 0 with 50 000 CPU shares, 192 MB of
/// memory, 10 MB/s of disk reads and writes, 50 MB of disk.
pub open spec fn is_default_config(c: Config) -> bool {
    &&& !c.use_https
    &&& c.docker.cpu_set@ == "0"@
    &&& c.docker.cpu_shares == 50_000
    &&& c.docker.memory == 192 * 1000 * 1000
    &&& c.docker.disk_read_rate == 10 * 1000 * 1000
    &&& c.docker.disk_write_rate == 10 * 1000 * 1000
    &&& c.docker.disk_max_size == 50 * 1000 * 1000
}

/// Holds the configuration once it has been loaded.
pub struct ConfigCell {
    pub value: Option<Config>,
}

impl ConfigCell {
    pub fn new() -> (r: Self)
        ensures
            r.value is None,
    {
        ConfigCell { value: None }
    }
}

impl Config {
    pub fn default_config() -> (r: Config)
        ensures
            is_default_config(r),
    {
        Config {
            use_https: false,
            docker: DockerConfig {
                cpu_set: owned("0"),
                cpu_shares: 50_000,
                memory: 192 * 1000 * 1000,
                disk_read_rate: 10 * 1000 * 1000,
                disk_write_rate: 10 * 1000 * 1000,
                disk_max_size: 50 * 1000 * 1000,
            },
        }
    }

    /// Which file to load: the test configuration if it exists, else the
    /// system one if it exists, else none (defaults).
    pub fn source(test_config_exists: bool, system_config_exists: bool) -> (r: ConfigSource)
        ensures
            test_config_exists ==> r is TestConfig,
            !test_config_exists && system_config_exists ==> r is SystemConfig,
            !test_config_exists && !system_config_exists ==> r is Defaults,
    {
        if test_config_exists {
            ConfigSource::TestConfig
        } else if system_config_exists {
            ConfigSource::SystemConfig
        } else {
            ConfigSource::Defaults
        }
    }

    /// The configuration of the process: loaded by `load` on the first call,
    /// and the same one on every later call.
    pub fn global<F: FnOnce() -> Config>(cell: &mut ConfigCell, load: F) -> (r: &Config)
        requires
            old(cell).value is None ==> load.requires(()),
        ensures
            match old(cell).value {
                Some(c) => *r == c && final(cell).value == Some(c),
                None => load.ensures((), *r) && final(cell).value == Some(*r),
            },
    {
        if cell.value.is_none() {
            let c = load();
            cell.value = Some(c);
        }
        cell.value.as_ref().unwrap()
    }
}

/// Which environment the server runs in.
#[derive(Clone, Copy, Debug)]
pub enum Environment {
    Development,
    Production,
}

/// What the `ENVIRONMENT` variable means: unset is development, and
/// anything but "production" or "development" is invalid.
pub open spec fn environment_of(var: Option<Seq<char>>) -> Option<Environment> {
    match var {
        None => Some(Environment::Development),
        Some(v) => if v == "production"@ {
            Some(Environment::Production)
        } else if v == "development"@ {
            Some(Environment::Development)
        } else {
            None
        },
    }
}

impl Environment {
    /// Reads the value of the `ENVIRONMENT` variable, if it names one.
    pub fn from_var(var: Option<&str>) -> (r: Option<Environment>)
        ensures
            r == environment_of(match var { Some(v) => Some(v@), None => None }),
    {
        match var {
            None => Some(Environment::Development),
            Some(v) => {
                let value = owned(v);
                if value == owned("production") {
                    Some(Environment::Production)
                } else if value == owned("development") {
                    Some(Environment::Development)
                } else {
                    None
                }
            },
        }
    }

    /// The environment named by the `ENVIRONMENT` variable (unset means
    /// development); an invalid name is refused by the process.
    pub fn get(var: Option<&str>) -> (r: Environment)
        requires
            environment_of(match var { Some(v) => Some(v@), None => None }) is Some,
        ensures
            Some(r) == environment_of(match var { Some(v) => Some(v@), None => None }),
    {
        match Self::from_var(var) {
            Some(e) => e,
            None => Environment::Development,
        }
    }

    pub fn is_development(&self) -> (r: bool)
        ensures
            r == (*self is Development),
    {
        match self {
            Environment::Development => true,
            Environment::Production => false,
        }
    }

    /// How many containers the pool keeps ready: 2 in development, 8 in
    /// production.
    pub fn pool_size(&self) -> (r: u32)
        ensures
            r == (if *self is Development { 2u32 } else { 8u32 }),
    {
        match self {
            Environment::Development => 2,
            Environment::Production => 8,
        }
    }

    /// The directory under which container sockets live.
    pub fn run_dir(&self) -> (r: &'static str)
        ensures
            r@ == (if *self is Production { "/run/hydra"@ } else { "/tmp/hydra"@ }),
    {
        match self {
            Environment::Production => "/run/hydra",
            Environment::Development => "/tmp/hydra",
        }
    }
}

/// The API key: the `HYDRA_API_KEY` variable, or "hydra" when it is unset.
pub fn api_key_or_default(var: Option<String>) -> (r: String)
    ensures
        r@ == match var { Some(k) => k@, None => "hydra"@ },
{
    match var {
        Some(k) => k,
        None => owned("hydra"),
    }
}

/// Whether the server serves plain HTTP only: in development, or when the
/// configuration does not ask for HTTPS.
pub fn serves_plain_http(environment: &Environment, config: &Config) -> (r: bool)
    ensures
        r == (*environment is Development || !config.use_https),
{
    environment.is_development() || !config.use_https
}

} // verus!

verus! {

/// The ports of the HTTP → HTTPS redirect.
pub struct Ports {
    pub http: u16,
    pub https: u16,
}

/// The host to redirect a plain HTTP request to: every occurrence of the
/// HTTP port's number in the host replaced by the HTTPS port's.
pub fn https_host(host: &str, ports: &Ports) -> (r: String)
    ensures
        r@ == crate::text::replace_all(
            host@,
            crate::text::decimal(ports.http as nat),
            crate::text::decimal(ports.https as nat),
        ),
{
    let from = crate::text::decimal_string(ports.http as u64);
    let to = crate::text::decimal_string(ports.https as u64);
    proof {
        crate::text::lemma_decimal_nonempty(ports.http as nat);
    }
    crate::text::replace(host, from.as_str(), to.as_str())
}

/// Whether `http::uri::Authority::from_str` accepts a text as a URI's
/// authority (host and port). The grammar is the `http` crate's; the result
/// is named.
pub uninterp spec fn is_authority(s: Seq<char>) -> bool;

/// Whether `http` accepts `s` as a URI's authority.
#[verifier::external_body]
fn authority_ok(s: &str) -> (r: bool)
    ensures
        r == is_authority(s@),
{
    s.parse::<http::uri::Authority>().is_ok()
}

/// Where a plain HTTP request is redirected: `https://`, the host with the
/// HTTP port's number replaced by the HTTPS port's (which must be an
/// authority `http` accepts), and the request's path and query, or `/`.
pub open spec fn redirect_target_spec(host: Seq<char>, path_and_query: Option<Seq<char>>, ports: Ports) -> Option<Seq<char>> {
    let authority = crate::text::replace_all(
        host,
        crate::text::decimal(ports.http as nat),
        crate::text::decimal(ports.https as nat),
    );
    if is_authority(authority) {
        Some("https://"@ + authority + match path_and_query { Some(p) => p, None => "/"@ })
    } else {
        None
    }
}

/// The redirect target for a plain HTTP request, or `None` (answered with
/// 400) where the rewritten host is no authority.
pub fn https_redirect_target(host: &str, path_and_query: Option<String>, ports: &Ports) -> (r: Option<String>)
    ensures
        match r {
            Some(t) => redirect_target_spec(host@, match path_and_query { Some(p) => Some(p@), None => None }, *ports) == Some(t@),
            None => redirect_target_spec(host@, match path_and_query { Some(p) => Some(p@), None => None }, *ports) is None,
        },
{
    let authority = https_host(host, ports);
    if !authority_ok(authority.as_str()) {
        return None;
    }
    let mut target = crate::text::owned("https://");
    crate::text::push_str(&mut target, authority.as_str());
    match path_and_query {
        Some(p) => crate::text::push_str(&mut target, p.as_str()),
        None => crate::text::push_str(&mut target, "/"),
    }
    Some(target)
}

} // verus!
