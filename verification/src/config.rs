//! Environment-based configuration for the service.
//!
//! Every setting has a sensible default and can be overridden by an
//! environment variable.
use crate::decimal;
use crate::text;
use vstd::prelude::*;
use vstd::string::*;

verus! {

/// The port that the server listens on by default.
pub const DEFAULT_PORT: u16 = 3001;

/// How many renders may run at once by default.
pub const DEFAULT_MAX_CONCURRENT_RENDERS: usize = 4;

/// How long a render may take by default, in seconds.
pub const DEFAULT_RENDER_TIMEOUT_SECS: u64 = 30;

/// How large a request body may be by default: 5 MB.
pub const DEFAULT_MAX_BODY_SIZE_BYTES: usize = 5_242_880;

/// The environment variables that the configuration is read from, each with
/// its value where it is set to a valid text.
pub struct EnvVars {
    /// `PORT`
    pub port: Option<String>,
    /// `MAX_CONCURRENT_RENDERS`
    pub max_concurrent_renders: Option<String>,
    /// `RENDER_TIMEOUT_SECS`
    pub render_timeout_secs: Option<String>,
    /// `MAX_BODY_SIZE_BYTES`
    pub max_body_size_bytes: Option<String>,
    /// `CORS_ALLOW_ORIGIN`
    pub cors_allow_origin: Option<String>,
    /// `TRUST_PROXY`
    pub trust_proxy: Option<String>,
}

/// Server configuration, read once at startup.
pub struct Config {
    pub port: u16,
    pub max_concurrent_renders: usize,
    pub render_timeout_secs: u64,
    pub max_body_size_bytes: usize,
    pub cors_allow_origin: String,
    pub trust_proxy: bool,
}

/// The text that a variable is set to.
pub open spec fn value_of(variable: Option<String>) -> Option<Seq<char>> {
    match variable {
        Some(v) => Some(v@),
        None => None,
    }
}

/// A numeric setting: what the variable says, where it is set to a number of
/// at most `max`, and the default otherwise.
pub open spec fn numeric_setting(value: Option<Seq<char>>, max: nat, default: nat) -> nat {
    match value {
        Some(v) => match decimal::parsed(v, max) {
            Some(n) => n,
            None => default,
        },
        None => default,
    }
}

/// The allowed origin: what the variable says, and any origin by default.
pub open spec fn origin_setting(value: Option<Seq<char>>) -> Seq<char> {
    match value {
        Some(v) => v,
        None => "*"@,
    }
}

/// A switch: on for `true` and `1` alone.
pub open spec fn switch_setting(value: Option<Seq<char>>) -> bool {
    match value {
        Some(v) => v == "true"@ || v == "1"@,
        None => false,
    }
}

/// Reads a numeric setting.
fn number(variable: &Option<String>, max: u64, default: u64) -> (n: u64)
    requires
        default <= max,
    ensures
        n == numeric_setting(value_of(*variable), max as nat, default as nat),
        n <= max,
{
    match variable {
        Some(v) => match decimal::parse_unsigned(v.as_str(), max) {
            Some(n) => n,
            None => default,
        },
        None => default,
    }
}

impl Config {
    /// Reads the configuration out of the environment variables.
    pub fn from_env(vars: &EnvVars) -> (config: Config)
        ensures
            config.port == numeric_setting(
                value_of(vars.port),
                u16::MAX as nat,
                DEFAULT_PORT as nat,
            ),
            config.max_concurrent_renders == numeric_setting(
                value_of(vars.max_concurrent_renders),
                usize::MAX as nat,
                DEFAULT_MAX_CONCURRENT_RENDERS as nat,
            ),
            config.render_timeout_secs == numeric_setting(
                value_of(vars.render_timeout_secs),
                u64::MAX as nat,
                DEFAULT_RENDER_TIMEOUT_SECS as nat,
            ),
            config.max_body_size_bytes == numeric_setting(
                value_of(vars.max_body_size_bytes),
                usize::MAX as nat,
                DEFAULT_MAX_BODY_SIZE_BYTES as nat,
            ),
            config.cors_allow_origin@ == origin_setting(value_of(vars.cors_allow_origin)),
            config.trust_proxy == switch_setting(value_of(vars.trust_proxy)),
    {
        let cors_allow_origin = match &vars.cors_allow_origin {
            Some(v) => v.clone(),
            None => "*".to_owned(),
        };
        let trust_proxy = match &vars.trust_proxy {
            Some(v) => text::same_text(v.as_str(), "true") || text::same_text(v.as_str(), "1"),
            None => false,
        };
        Config {
            port: number(&vars.port, u16::MAX as u64, DEFAULT_PORT as u64) as u16,
            max_concurrent_renders: number(
                &vars.max_concurrent_renders,
                usize::MAX as u64,
                DEFAULT_MAX_CONCURRENT_RENDERS as u64,
            ) as usize,
            render_timeout_secs: number(
                &vars.render_timeout_secs,
                u64::MAX,
                DEFAULT_RENDER_TIMEOUT_SECS,
            ),
            max_body_size_bytes: number(
                &vars.max_body_size_bytes,
                usize::MAX as u64,
                DEFAULT_MAX_BODY_SIZE_BYTES as u64,
            ) as usize,
            cors_allow_origin,
            trust_proxy,
        }
    }

    /// The address that the server listens on: every interface, the
    /// configured port.
    pub fn bind_address(&self) -> (address: String)
        ensures
            address@ == "0.0.0.0:"@ + decimal::numeral(self.port as nat),
    {
        let mut address = "0.0.0.0:".to_owned();
        address.append(decimal::decimal(self.port as u64).as_str());
        address
    }
}

/// A variable that is unset, or that does not hold an acceptable number,
/// leaves the default; one that holds the numeral of an acceptable number sets
/// exactly that number.
pub proof fn lemma_numeric_setting(value: Option<Seq<char>>, max: nat, default: nat, n: nat)
    ensures
        value is None ==> numeric_setting(value, max, default) == default,
        value matches Some(v) && decimal::parsed(v, max) is None ==> numeric_setting(
            value,
            max,
            default,
        ) == default,
        n <= max ==> numeric_setting(Some(decimal::numeral(n)), max, default) == n,
        n > max ==> numeric_setting(Some(decimal::numeral(n)), max, default) == default,
{
    decimal::lemma_numeral_parses(n, n);
    if n <= max {
        decimal::lemma_numeral_parses(n, max);
    }
}

/// `got` is the number that the variable stands for, where it stands for one of
/// at most `max`, and `default` where it does not.
pub open spec fn is_setting(variable: Option<String>, max: nat, default: nat, got: nat) -> bool {
    ||| variable is Some && decimal::stands_for(variable->0@, got) && got <= max
    ||| got == default && (forall|n: nat|
        variable is Some && n <= max ==> !#[trigger] decimal::stands_for(variable->0@, n))
}

proof fn lemma_is_setting(variable: Option<String>, max: nat, default: nat)
    ensures
        is_setting(
            variable,
            max,
            default,
            numeric_setting(value_of(variable), max, default),
        ),
{
    if variable is Some {
        let v = variable->0@;
        if decimal::parsed(v, max) is Some {
            decimal::lemma_parsed_is_what_it_stands_for(v, max, decimal::parsed(v, max)->0);
        } else {
            assert forall|n: nat| n <= max implies !#[trigger] decimal::stands_for(v, n) by {
                decimal::lemma_parsed_is_what_it_stands_for(v, max, n);
            }
        }
    }
}

/// Each setting comes from its own variable and from no other: a number that
/// the variable stands for and that fits the setting, or else the default; the
/// origin as it is written, or else any; the switch for two texts alone.
pub proof fn lemma_from_env_result(vars: EnvVars, config: Config)
    requires
        call_ensures(Config::from_env, (&vars,), config),
    ensures
        is_setting(vars.port, 65535, 3001, config.port as nat),
        is_setting(
            vars.max_concurrent_renders,
            usize::MAX as nat,
            4,
            config.max_concurrent_renders as nat,
        ),
        is_setting(
            vars.render_timeout_secs,
            0xFFFF_FFFF_FFFF_FFFF,
            30,
            config.render_timeout_secs as nat,
        ),
        is_setting(
            vars.max_body_size_bytes,
            usize::MAX as nat,
            5 * 1024 * 1024,
            config.max_body_size_bytes as nat,
        ),
        vars.cors_allow_origin matches Some(origin) ==> config.cors_allow_origin@ == origin@,
        vars.cors_allow_origin is None ==> config.cors_allow_origin@ == "*"@,
        config.trust_proxy <==> vars.trust_proxy is Some && (vars.trust_proxy->0@ == "true"@
            || vars.trust_proxy->0@ == "1"@),
{
    lemma_is_setting(vars.port, u16::MAX as nat, DEFAULT_PORT as nat);
    lemma_is_setting(
        vars.max_concurrent_renders,
        usize::MAX as nat,
        DEFAULT_MAX_CONCURRENT_RENDERS as nat,
    );
    lemma_is_setting(
        vars.render_timeout_secs,
        u64::MAX as nat,
        DEFAULT_RENDER_TIMEOUT_SECS as nat,
    );
    lemma_is_setting(
        vars.max_body_size_bytes,
        usize::MAX as nat,
        DEFAULT_MAX_BODY_SIZE_BYTES as nat,
    );
}

/// The numeral of any number that fits sets exactly that number, and an unset
/// variable the default, whatever the other variables say.
pub proof fn lemma_from_env_numbers(vars: EnvVars, config: Config, n: nat)
    requires
        call_ensures(Config::from_env, (&vars,), config),
    ensures
        vars.port is None ==> config.port == 3001,
        vars.port is Some && vars.port->0@ == decimal::numeral(n) ==> config.port == (if n
            <= 65535 {
            n
        } else {
            3001
        }),
        vars.max_concurrent_renders is None ==> config.max_concurrent_renders == 4,
        vars.max_concurrent_renders is Some && vars.max_concurrent_renders->0@
            == decimal::numeral(n) && n <= usize::MAX ==> config.max_concurrent_renders == n,
        vars.render_timeout_secs is None ==> config.render_timeout_secs == 30,
        vars.render_timeout_secs is Some && vars.render_timeout_secs->0@ == decimal::numeral(n)
            && n <= u64::MAX ==> config.render_timeout_secs == n,
        vars.max_body_size_bytes is None ==> config.max_body_size_bytes == 5_242_880,
        vars.max_body_size_bytes is Some && vars.max_body_size_bytes->0@ == decimal::numeral(n)
            && n <= usize::MAX ==> config.max_body_size_bytes == n,
{
    lemma_numeric_setting(None, 65535, 3001, n);
    lemma_numeric_setting(None, usize::MAX as nat, 4, n);
    lemma_numeric_setting(None, u64::MAX as nat, 30, n);
    lemma_numeric_setting(None, usize::MAX as nat, 5_242_880, n);
}

/// The server listens on every interface, on the configured port.
pub proof fn lemma_bind_address_result(config: Config, address: String)
    requires
        call_ensures(Config::bind_address, (&config,), address),
    ensures
        address@.take(8) == seq!['0', '.', '0', '.', '0', '.', '0', ':'],
        decimal::stands_for(address@.skip(8), config.port as nat),
{
    reveal_strlit("0.0.0.0:");
    let port = decimal::numeral(config.port as nat);
    assert(address@.take(8) =~= seq!['0', '.', '0', '.', '0', '.', '0', ':']);
    assert(address@.skip(8) =~= decimal::zeros(0) + port);
}

} // verus!
