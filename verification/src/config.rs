//! The settings of the gateway, by the variables of its environment.

use vstd::prelude::*;
use vstd::string::*;
use crate::text;

verus! {

/// The variable for the address to listen at.
pub struct BindVariable {
    /// What the variable is set to.
    pub text: String,
    /// Whether the text is a socket address.
    pub is_address: bool,
}

/// The variables that the gateway reads; `None` where one is not set, or not readable as text.
pub struct GatewayVariables {
    pub bind_addr: Option<BindVariable>,
    pub api_origin: Option<String>,
    pub shared_secret: Option<String>,
    pub relay_hostname: Option<String>,
    pub relay_public_url: Option<String>,
    pub relay_upstream_ws: Option<String>,
    pub relay_upstream_http: Option<String>,
    pub blossom_hostname: Option<String>,
    pub blossom_upstream_http: Option<String>,
    pub blossom_max_write_bytes: Option<String>,
}

/// The settings of the gateway.
pub struct GatewayConfig {
    /// The address to listen at, as a text.
    pub bind_addr: String,
    pub api_origin: String,
    pub shared_secret: String,
    pub relay_hostname: String,
    pub relay_public_url: String,
    pub relay_upstream_ws: String,
    pub relay_upstream_http: String,
    pub blossom_hostname: String,
    pub blossom_upstream_http: String,
    pub blossom_max_write_bytes: i64,
}

/// The settings of the gateway, in characters.
pub struct ConfigView {
    pub bind_addr: Seq<char>,
    pub api_origin: Seq<char>,
    pub shared_secret: Seq<char>,
    pub relay_hostname: Seq<char>,
    pub relay_public_url: Seq<char>,
    pub relay_upstream_ws: Seq<char>,
    pub relay_upstream_http: Seq<char>,
    pub blossom_hostname: Seq<char>,
    pub blossom_upstream_http: Seq<char>,
    pub blossom_max_write_bytes: i64,
}

impl View for GatewayConfig {
    type V = ConfigView;

    open spec fn view(&self) -> ConfigView {
        ConfigView {
            bind_addr: self.bind_addr@,
            api_origin: self.api_origin@,
            shared_secret: self.shared_secret@,
            relay_hostname: self.relay_hostname@,
            relay_public_url: self.relay_public_url@,
            relay_upstream_ws: self.relay_upstream_ws@,
            relay_upstream_http: self.relay_upstream_http@,
            blossom_hostname: self.blossom_hostname@,
            blossom_upstream_http: self.blossom_upstream_http@,
            blossom_max_write_bytes: self.blossom_max_write_bytes,
        }
    }
}

/// What is wrong with a variable.
#[derive(Debug, Clone, Copy, PartialEq, Eq, Structural)]
pub enum ConfigFault {
    Missing,
    NotAnAddress,
    NotANumber,
    NotPositive,
}

/// Which variable is wrong, and how.
#[derive(Debug, Clone, Copy, PartialEq)]
pub struct ConfigError {
    pub name: &'static str,
    pub fault: ConfigFault,
}

/// Which variable is wrong, in characters, and how.
pub struct ConfigErrorView {
    pub name: Seq<char>,
    pub fault: ConfigFault,
}

impl View for ConfigError {
    type V = ConfigErrorView;

    open spec fn view(&self) -> ConfigErrorView {
        ConfigErrorView { name: self.name@, fault: self.fault }
    }
}

impl ConfigError {
    /// What to tell whoever starts the gateway.
    pub fn message(&self) -> (r: String)
        ensures
            r@ == self.name@ + match self.fault {
                ConfigFault::Missing => " must be set"@,
                ConfigFault::NotAnAddress => " must be a socket address"@,
                ConfigFault::NotANumber => " must be a valid i64"@,
                ConfigFault::NotPositive => " must be greater than zero"@,
            },
    {
        let demand = match self.fault {
            ConfigFault::Missing => " must be set",
            ConfigFault::NotAnAddress => " must be a socket address",
            ConfigFault::NotANumber => " must be a valid i64",
            ConfigFault::NotPositive => " must be greater than zero",
        };
        self.name.to_owned().concat(demand)
    }
}

/// The value of a variable, or else a default.
pub open spec fn or_default(value: Option<Seq<char>>, default: Seq<char>) -> Seq<char> {
    match value {
        Some(value) => value,
        None => default,
    }
}

/// What is wrong with a variable that has to be a number greater than zero; `None` where nothing is.
pub open spec fn positive_fault(value: Seq<char>) -> Option<ConfigFault> {
    match text::decimal_i64(value) {
        None => Some(ConfigFault::NotANumber),
        Some(number) => if number <= 0 {
            Some(ConfigFault::NotPositive)
        } else {
            None
        },
    }
}

fn with_default(value: Option<String>, default: &str) -> (r: String)
    ensures
        r@ == or_default(text::optional_string(value), default@),
{
    match value {
        Some(value) => value,
        None => default.to_owned(),
    }
}

/// The value of a variable that has to be set.
pub fn required_env(name: &'static str, value: Option<String>) -> (r: Result<String, ConfigError>)
    ensures
        match value {
            Some(text) => r is Ok && r->Ok_0@ == text@,
            None => r is Err && r->Err_0@ == (ConfigErrorView {
                name: name@,
                fault: ConfigFault::Missing,
            }),
        },
{
    match value {
        Some(text) => Ok(text),
        None => Err(ConfigError { name, fault: ConfigFault::Missing }),
    }
}

/// The value of a variable, or else of a default, that has to be a number greater than zero.
pub fn positive_i64_env(name: &'static str, value: Option<String>, default: &str) -> (r: Result<
    i64,
    ConfigError,
>)
    ensures
        ({
            let given = or_default(text::optional_string(value), default@);
            match positive_fault(given) {
                Some(fault) => r is Err && r->Err_0@ == (ConfigErrorView { name: name@, fault }),
                None => r is Ok && Some(r->Ok_0) == text::decimal_i64(given),
            }
        }),
{
    match text::parse_i64(with_default(value, default).as_str()) {
        Some(number) => if number <= 0 {
            Err(ConfigError { name, fault: ConfigFault::NotPositive })
        } else {
            Ok(number)
        },
        None => Err(ConfigError { name, fault: ConfigFault::NotANumber }),
    }
}

/// The error for a variable that is not set.
pub open spec fn missing(name: Seq<char>) -> Result<ConfigView, ConfigErrorView> {
    Err(ConfigErrorView { name, fault: ConfigFault::Missing })
}

/// The address to listen at, as a text.
pub open spec fn bind_text(variable: Option<BindVariable>) -> Seq<char> {
    match variable {
        Some(given) => given.text@,
        None => "127.0.0.1:3100"@,
    }
}

/// The settings that variables give, or the first that is wrong with them: an address that is none
/// comes before anything else.
pub open spec fn configured(variables: GatewayVariables) -> Result<ConfigView, ConfigErrorView> {
    let max_write_bytes = or_default(
        text::optional_string(variables.blossom_max_write_bytes),
        "25000000"@,
    );
    if variables.bind_addr is Some && !variables.bind_addr->0.is_address {
        Err(ConfigErrorView { name: "GATEWAY_BIND_ADDR"@, fault: ConfigFault::NotAnAddress })
    } else if variables.api_origin is None {
        missing("DRUM_API_ORIGIN"@)
    } else if variables.shared_secret is None {
        missing("GATEWAY_SHARED_SECRET"@)
    } else if variables.relay_upstream_ws is None {
        missing("RELAY_UPSTREAM_WS"@)
    } else if variables.relay_upstream_http is None {
        missing("RELAY_UPSTREAM_HTTP"@)
    } else if variables.blossom_upstream_http is None {
        missing("BLOSSOM_UPSTREAM_HTTP"@)
    } else if positive_fault(max_write_bytes) is Some {
        Err(
            ConfigErrorView {
                name: "BLOSSOM_MAX_WRITE_BYTES"@,
                fault: positive_fault(max_write_bytes)->0,
            },
        )
    } else {
        Ok(
            ConfigView {
                bind_addr: bind_text(variables.bind_addr),
                api_origin: text::without_trailing(variables.api_origin->0@, '/'),
                shared_secret: variables.shared_secret->0@,
                relay_hostname: or_default(
                    text::optional_string(variables.relay_hostname),
                    "relay.drum.dev"@,
                ),
                relay_public_url: or_default(
                    text::optional_string(variables.relay_public_url),
                    "wss://relay.drum.dev/"@,
                ),
                relay_upstream_ws: variables.relay_upstream_ws->0@,
                relay_upstream_http: variables.relay_upstream_http->0@,
                blossom_hostname: or_default(
                    text::optional_string(variables.blossom_hostname),
                    "media.drum.dev"@,
                ),
                blossom_upstream_http: variables.blossom_upstream_http->0@,
                blossom_max_write_bytes: text::decimal_i64(max_write_bytes)->0,
            },
        )
    }
}

/// The address to listen at, as a text, by the variable for it, which has to be a socket address
/// where it is set.
pub fn bind_address(variable: Option<BindVariable>) -> (r: Result<String, ConfigError>)
    ensures
        if variable is Some && !variable->0.is_address {
            r is Err && r->Err_0@ == (ConfigErrorView {
                name: "GATEWAY_BIND_ADDR"@,
                fault: ConfigFault::NotAnAddress,
            })
        } else {
            r is Ok && r->Ok_0@ == bind_text(variable)
        },
{
    match variable {
        Some(given) => if given.is_address {
            Ok(given.text)
        } else {
            Err(ConfigError { name: "GATEWAY_BIND_ADDR", fault: ConfigFault::NotAnAddress })
        },
        None => Ok("127.0.0.1:3100".to_owned()),
    }
}

impl GatewayConfig {
    /// The settings that variables give, or the first that is wrong with them.
    pub fn from_env(variables: GatewayVariables) -> (r: Result<Self, ConfigError>)
        ensures
            match configured(variables) {
                Ok(config) => r is Ok && r->Ok_0@ == config,
                Err(error) => r is Err && r->Err_0@ == error,
            },
    {
        let bind_addr = match bind_address(variables.bind_addr) {
            Ok(value) => value,
            Err(error) => {
                return Err(error);
            },
        };
        let api_origin = match required_env("DRUM_API_ORIGIN", variables.api_origin) {
            Ok(value) => text::trim_end_matches(value.as_str(), '/').to_owned(),
            Err(error) => {
                return Err(error);
            },
        };
        let shared_secret = match required_env("GATEWAY_SHARED_SECRET", variables.shared_secret) {
            Ok(value) => value,
            Err(error) => {
                return Err(error);
            },
        };
        let relay_upstream_ws = match required_env(
            "RELAY_UPSTREAM_WS",
            variables.relay_upstream_ws,
        ) {
            Ok(value) => value,
            Err(error) => {
                return Err(error);
            },
        };
        let relay_upstream_http = match required_env(
            "RELAY_UPSTREAM_HTTP",
            variables.relay_upstream_http,
        ) {
            Ok(value) => value,
            Err(error) => {
                return Err(error);
            },
        };
        let blossom_upstream_http = match required_env(
            "BLOSSOM_UPSTREAM_HTTP",
            variables.blossom_upstream_http,
        ) {
            Ok(value) => value,
            Err(error) => {
                return Err(error);
            },
        };
        let blossom_max_write_bytes = match positive_i64_env(
            "BLOSSOM_MAX_WRITE_BYTES",
            variables.blossom_max_write_bytes,
            "25000000",
        ) {
            Ok(number) => number,
            Err(error) => {
                return Err(error);
            },
        };
        Ok(
            GatewayConfig {
                bind_addr,
                api_origin,
                shared_secret,
                relay_hostname: with_default(variables.relay_hostname, "relay.drum.dev"),
                relay_public_url: with_default(variables.relay_public_url, "wss://relay.drum.dev/"),
                relay_upstream_ws,
                relay_upstream_http,
                blossom_hostname: with_default(variables.blossom_hostname, "media.drum.dev"),
                blossom_upstream_http,
                blossom_max_write_bytes,
            },
        )
    }
}

/// The settings that come of variables, and the first fault where there is one, in order: an address
/// to listen at that is none, a variable that has to be set and is not, and a number of bytes that is
/// no number, or none above zero. Where nothing is wrong each setting is its variable, or the default
/// where that is not set; the origin of the API loses its slashes at the end.
pub proof fn law_settings(variables: GatewayVariables)
    ensures
        ({
            let outcome = configured(variables);
            let bind = variables.bind_addr;
            let told = outcome->Err_0;
            let config = outcome->Ok_0;
            let listens = bind is None || bind->0.is_address;
            let origin = listens && variables.api_origin is Some;
            let secret = origin && variables.shared_secret is Some;
            let socket = secret && variables.relay_upstream_ws is Some;
            let relay = socket && variables.relay_upstream_http is Some;
            let store = relay && variables.blossom_upstream_http is Some;
            let bytes = if variables.blossom_max_write_bytes is Some {
                variables.blossom_max_write_bytes->0@
            } else {
                "25000000"@
            };
            let counts = store && text::decimal_i64(bytes) is Some;
            let allows = counts && text::decimal_i64(bytes)->0 > 0;
            &&& outcome is Ok <==> allows
            &&& !listens ==> told.name == "GATEWAY_BIND_ADDR"@ && told.fault
                == ConfigFault::NotAnAddress
            &&& listens && !store ==> told.fault == ConfigFault::Missing
            &&& listens && !origin ==> told.name == "DRUM_API_ORIGIN"@
            &&& origin && !secret ==> told.name == "GATEWAY_SHARED_SECRET"@
            &&& secret && !socket ==> told.name == "RELAY_UPSTREAM_WS"@
            &&& socket && !relay ==> told.name == "RELAY_UPSTREAM_HTTP"@
            &&& relay && !store ==> told.name == "BLOSSOM_UPSTREAM_HTTP"@
            &&& store && !allows ==> told.name == "BLOSSOM_MAX_WRITE_BYTES"@
            &&& store && !counts ==> told.fault == ConfigFault::NotANumber
            &&& counts && !allows ==> told.fault == ConfigFault::NotPositive
            &&& allows ==> {
                &&& config.bind_addr == if bind is Some {
                    bind->0.text@
                } else {
                    "127.0.0.1:3100"@
                }
                &&& config.api_origin == text::without_trailing(variables.api_origin->0@, '/')
                &&& config.shared_secret == variables.shared_secret->0@
                &&& config.relay_hostname == if variables.relay_hostname is Some {
                    variables.relay_hostname->0@
                } else {
                    "relay.drum.dev"@
                }
                &&& config.relay_public_url == if variables.relay_public_url is Some {
                    variables.relay_public_url->0@
                } else {
                    "wss://relay.drum.dev/"@
                }
                &&& config.relay_upstream_ws == variables.relay_upstream_ws->0@
                &&& config.relay_upstream_http == variables.relay_upstream_http->0@
                &&& config.blossom_hostname == if variables.blossom_hostname is Some {
                    variables.blossom_hostname->0@
                } else {
                    "media.drum.dev"@
                }
                &&& config.blossom_upstream_http == variables.blossom_upstream_http->0@
                &&& text::decimal_i64(bytes) == Some(config.blossom_max_write_bytes)
            }
        }),
{
}

/// A number of bytes is at fault where it is no number, or none above zero; a value that is set
/// counts before its default; and the address to listen at is the one that is set.
pub proof fn law_values(
    value: Seq<char>,
    default: Seq<char>,
    variable: Option<BindVariable>,
    config: GatewayConfig,
    error: ConfigError,
)
    ensures
        positive_fault(value) is None <==> text::decimal_i64(value) is Some && text::decimal_i64(
            value,
        )->0 > 0,
        positive_fault(value) == Some(ConfigFault::NotANumber) <==> text::decimal_i64(value) is None,
        or_default(Some(value), default) == value,
        or_default(None, default) == default,
        variable is Some ==> bind_text(variable) == variable->0.text@,
        variable is None ==> bind_text(variable) == "127.0.0.1:3100"@,
        config@.bind_addr == config.bind_addr@,
        config@.api_origin == config.api_origin@,
        config@.shared_secret == config.shared_secret@,
        config@.relay_hostname == config.relay_hostname@,
        config@.relay_public_url == config.relay_public_url@,
        config@.relay_upstream_ws == config.relay_upstream_ws@,
        config@.relay_upstream_http == config.relay_upstream_http@,
        config@.blossom_hostname == config.blossom_hostname@,
        config@.blossom_upstream_http == config.blossom_upstream_http@,
        config@.blossom_max_write_bytes == config.blossom_max_write_bytes,
        error@.name == error.name@,
        error@.fault == error.fault,
{
}

/// The most that may be written is always more than nothing.
pub proof fn law_settings_allow_some_bytes(variables: GatewayVariables)
    requires
        configured(variables) is Ok,
    ensures
        configured(variables)->Ok_0.blossom_max_write_bytes > 0,
{
}

} // verus!
