//! Server configuration, as given by environment variables.
use vstd::prelude::*;

verus! {

/// Address that the server listens on unless `FW_BACKEND_BIND` says otherwise.
pub const DEFAULT_BIND_ADDR: &'static str = "0.0.0.0:8090";

/// STUN server handed out unless `FW_STUN_SERVER` says otherwise.
pub const DEFAULT_STUN_SERVER: &'static str = "stun.l.google.com:19302";

pub struct Config {
    pub bind_addr: String,
    /// STUN server (`host:port`) handed out to viewer browsers for ICE.
    /// There is no TURN: a viewer that can't reach the host via P2P simply
    /// fails to connect instead of relaying media through this server.
    pub stun_server: String,
    /// Minimum accepted `framewire.exe` version (`FW_MIN_HOST_VERSION`, e.g.
    /// "0.2.0"). A host below this, or one old enough to not report a
    /// version at all, is rejected before a room is created, so a known-bad
    /// old build can't load the server. `None` accepts any version.
    pub min_host_version: Option<String>,
    /// Token that a host must present (`FW_HOST_TOKEN`). `None` accepts any
    /// host.
    pub host_token: Option<String>,
}

/// The value of a variable, or `default` if it is not set.
pub open spec fn var_or(var: Option<String>, default: Seq<char>) -> Seq<char> {
    match var {
        Some(value) => value@,
        None => default,
    }
}

/// The value of a variable, or `default` if it is not set.
fn env_or(var: Option<String>, default: &str) -> (value: String)
    ensures
        value@ == var_or(var, default@),
{
    match var {
        Some(value) => value,
        None => default.to_owned(),
    }
}

impl Config {
    /// The configuration that the variables `FW_BACKEND_BIND`,
    /// `FW_STUN_SERVER`, `FW_MIN_HOST_VERSION` and `FW_HOST_TOKEN` ask for,
    /// each `None` if it is not set.
    pub fn from_env(
        bind: Option<String>,
        stun_server: Option<String>,
        min_host_version: Option<String>,
        host_token: Option<String>,
    ) -> (config: Self)
        ensures
            config.bind_addr@ == var_or(bind, DEFAULT_BIND_ADDR@),
            config.stun_server@ == var_or(stun_server, DEFAULT_STUN_SERVER@),
            config.min_host_version == min_host_version,
            config.host_token == host_token,
    {
        Config {
            bind_addr: env_or(bind, DEFAULT_BIND_ADDR),
            stun_server: env_or(stun_server, DEFAULT_STUN_SERVER),
            min_host_version,
            host_token,
        }
    }
}

/// A variable that is set counts as it is, and one that is not leaves the
/// default: listening on port 8090 of every address, a public STUN server,
/// and hosts of any version and without a token.
pub proof fn law_variables_count(
    bind: Option<String>,
    stun_server: Option<String>,
    min_host_version: Option<String>,
    host_token: Option<String>,
    config: Config,
)
    requires
        call_ensures(Config::from_env, (bind, stun_server, min_host_version, host_token), config),
    ensures
        bind matches Some(text) ==> config.bind_addr@ == text@,
        bind is None ==> config.bind_addr@ == "0.0.0.0:8090"@,
        stun_server matches Some(text) ==> config.stun_server@ == text@,
        stun_server is None ==> config.stun_server@ == "stun.l.google.com:19302"@,
        min_host_version matches Some(text) ==> config.min_host_version matches Some(kept)
            && kept@ == text@,
        min_host_version is None ==> config.min_host_version is None,
        host_token matches Some(text) ==> config.host_token matches Some(kept) && kept@ == text@,
        host_token is None ==> config.host_token is None,
{
}

} // verus!
