//! The settings of a gateway, which stand in environment variables.

use crate::config::EnvVars;
use crate::error::{Error, ErrorView};
use crate::gateway::ServerTransport;
use crate::text::{decimal, decimal_text, join, joined, opt_text, same};
use vstd::prelude::*;
use vstd::string::*;

verus! {

/// The settings of a gateway.
#[derive(Debug)]
pub struct Settings {
    /// The path of the configuration file.
    pub config: String,
    pub transport: ServerTransport,
    /// The address that the HTTP server binds.
    pub http_bind: String,
    /// The path that the HTTP server answers on.
    pub http_path: String,
    /// The tracing filter.
    pub log: String,
    /// The snippet of a trial run, where it is one.
    pub smoke: Option<String>,
    /// Whether the generated SDK is to be printed; without a trial run nothing else
    /// is done with it.
    pub dump: bool,
}

/// The settings of a gateway, by what they mean.
pub struct SettingsView {
    pub config: Seq<char>,
    pub transport: ServerTransport,
    pub http_bind: Seq<char>,
    pub http_path: Seq<char>,
    pub log: Seq<char>,
    pub smoke: Option<Seq<char>>,
    pub dump: bool,
}

impl View for Settings {
    type V = SettingsView;

    open spec fn view(&self) -> SettingsView {
        SettingsView {
            config: self.config@,
            transport: self.transport,
            http_bind: self.http_bind@,
            http_path: self.http_path@,
            log: self.log@,
            smoke: opt_text(self.smoke),
            dump: self.dump,
        }
    }
}

/// A variable, if it is set.
pub open spec fn var_of(env: Map<Seq<char>, Seq<char>>, name: Seq<char>) -> Option<Seq<char>> {
    if env.contains_key(name) {
        Some(env[name])
    } else {
        None
    }
}

/// A variable, or else a value in its place.
pub open spec fn var_or(
    env: Map<Seq<char>, Seq<char>>,
    name: Seq<char>,
    other: Seq<char>,
) -> Seq<char> {
    match var_of(env, name) {
        Some(v) => v,
        None => other,
    }
}

/// Whether plain JSON replies are asked for.
pub open spec fn json_response(env: Map<Seq<char>, Seq<char>>) -> bool {
    var_of(env, "CODEMCP_HTTP_JSON_RESPONSE"@) == Some("true"@)
}

/// How clients reach the gateway: over HTTP where it was started on a port or
/// where that is set, else over the standard streams.
pub open spec fn transport_of(
    env: Map<Seq<char>, Seq<char>>,
    start: Option<(u16, String)>,
) -> Result<ServerTransport, ErrorView> {
    let named = var_or(env, "CODEMCP_TRANSPORT"@, "stdio"@);
    if start is Some || named == "http"@ {
        Ok(ServerTransport::Http { json_response: json_response(env) })
    } else if named == "stdio"@ {
        Ok(ServerTransport::Stdio)
    } else {
        Err(ErrorView::Config("unknown CODEMCP_TRANSPORT: "@ + named))
    }
}

/// The settings that the environment gives, with `start` the port and host that
/// the gateway was started on.
pub open spec fn settings_of(
    env: Map<Seq<char>, Seq<char>>,
    config_base: Seq<char>,
    start: Option<(u16, String)>,
) -> Result<SettingsView, ErrorView> {
    match transport_of(env, start) {
        Err(e) => Err(e),
        Ok(transport) => Ok(
            SettingsView {
                config: var_or(
                    env,
                    "CODEMCP_CONFIG"@,
                    joined(joined(config_base, "codemcp"@), "mcp.json"@),
                ),
                transport,
                http_bind: match start {
                    Some((port, host)) => host@ + ":"@ + decimal(port as nat),
                    None => var_or(env, "CODEMCP_HTTP_BIND"@, "127.0.0.1:3388"@),
                },
                http_path: var_or(env, "CODEMCP_HTTP_PATH"@, "/mcp"@),
                log: var_or(env, "CODEMCP_LOG"@, "info"@),
                smoke: var_of(env, "CODEMCP_SMOKE"@),
                dump: env.contains_key("CODEMCP_DUMP"@),
            },
        ),
    }
}

/// A variable, or else a value in its place.
fn get_or(env: &EnvVars, name: &str, other: &str) -> (r: String)
    ensures
        r@ == var_or(env@, name@, other@),
{
    match env.get(name) {
        Some(v) => v.clone(),
        None => other.to_owned(),
    }
}

impl Settings {
    /// The settings that the environment gives. `config_base` is the directory for
    /// configuration, `start` the port and host that the gateway was started on,
    /// if it was.
    pub fn from_env(env: &EnvVars, config_base: &str, start: Option<(u16, String)>) -> (r: Result<
        Self,
        Error,
    >)
        ensures
            match r {
                Ok(s) => settings_of(env@, config_base@, start) == Ok::<SettingsView, ErrorView>(
                    s@,
                ),
                Err(e) => settings_of(env@, config_base@, start) == Err::<SettingsView, ErrorView>(
                    e@,
                ),
            },
    {
        let named = get_or(env, "CODEMCP_TRANSPORT", "stdio");
        let json_response = match env.get("CODEMCP_HTTP_JSON_RESPONSE") {
            Some(v) => same(v.as_str(), "true"),
            None => false,
        };
        let transport = if start.is_some() || same(named.as_str(), "http") {
            ServerTransport::Http { json_response }
        } else if same(named.as_str(), "stdio") {
            ServerTransport::Stdio
        } else {
            return Err(
                Error::Config("unknown CODEMCP_TRANSPORT: ".to_owned().concat(named.as_str())),
            );
        };
        let http_bind = match start {
            Some((port, host)) => host.concat(":").concat(decimal_text(port as u64).as_str()),
            None => get_or(env, "CODEMCP_HTTP_BIND", "127.0.0.1:3388"),
        };
        let default_config = join(join(config_base, "codemcp").as_str(), "mcp.json");
        let smoke = match env.get("CODEMCP_SMOKE") {
            Some(code) => Some(code.clone()),
            None => None,
        };
        Ok(
            Settings {
                config: get_or(env, "CODEMCP_CONFIG", default_config.as_str()),
                transport,
                http_bind,
                http_path: get_or(env, "CODEMCP_HTTP_PATH", "/mcp"),
                log: get_or(env, "CODEMCP_LOG", "info"),
                smoke,
                dump: env.get("CODEMCP_DUMP").is_some(),
            },
        )
    }
}

/// A setting has the value of its variable where that is set, and else its default.
pub proof fn law_settings_follow_the_environment(
    env: Map<Seq<char>, Seq<char>>,
    base: Seq<char>,
    start: Option<(u16, String)>,
)
    requires
        settings_of(env, base, start) is Ok,
    ensures
        ({
            let s = settings_of(env, base, start)->Ok_0;
            &&& s.config == (if env.contains_key("CODEMCP_CONFIG"@) {
                env["CODEMCP_CONFIG"@]
            } else {
                joined(joined(base, "codemcp"@), "mcp.json"@)
            })
            &&& s.http_path == (if env.contains_key("CODEMCP_HTTP_PATH"@) {
                env["CODEMCP_HTTP_PATH"@]
            } else {
                "/mcp"@
            })
            &&& s.log == (if env.contains_key("CODEMCP_LOG"@) {
                env["CODEMCP_LOG"@]
            } else {
                "info"@
            })
            &&& match s.smoke {
                Some(code) => env.contains_key("CODEMCP_SMOKE"@) && code == env["CODEMCP_SMOKE"@],
                None => !env.contains_key("CODEMCP_SMOKE"@),
            }
            &&& s.dump == env.contains_key("CODEMCP_DUMP"@)
            &&& start is None ==> s.http_bind == (if env.contains_key("CODEMCP_HTTP_BIND"@) {
                env["CODEMCP_HTTP_BIND"@]
            } else {
                "127.0.0.1:3388"@
            })
        }),
{
}

/// A gateway that is started on a port serves over HTTP there, whatever transport and
/// address the environment names. Else the named transport counts, which is that over
/// the standard streams where none is named; any other name is an error.
pub proof fn law_transport_is_chosen(
    env: Map<Seq<char>, Seq<char>>,
    base: Seq<char>,
    port: u16,
    host: String,
)
    ensures
        ({
            let plain = env.contains_key("CODEMCP_HTTP_JSON_RESPONSE"@)
                && env["CODEMCP_HTTP_JSON_RESPONSE"@] == "true"@;
            let named = env.contains_key("CODEMCP_TRANSPORT"@);
            let name = env["CODEMCP_TRANSPORT"@];
            let http = ServerTransport::Http { json_response: plain };
            &&& settings_of(env, base, Some((port, host))) matches Ok(s) && s.transport == http
                && s.http_bind == host@ + ":"@ + decimal(port as nat)
            &&& !named ==> (settings_of(env, base, None) matches Ok(s) && s.transport
                == ServerTransport::Stdio)
            &&& named && name == "http"@ ==> (settings_of(env, base, None) matches Ok(s)
                && s.transport == http)
            &&& named && name == "stdio"@ ==> (settings_of(env, base, None) matches Ok(s)
                && s.transport == ServerTransport::Stdio)
            &&& named && name != "http"@ && name != "stdio"@ ==> settings_of(env, base, None)
                == Err::<SettingsView, ErrorView>(
                ErrorView::Config("unknown CODEMCP_TRANSPORT: "@ + name),
            )
        }),
{
    reveal_strlit("http");
    reveal_strlit("stdio");
    assert("http"@[0] != "stdio"@[0]);
}

/// The settings mean what they hold.
pub proof fn law_settings_mean_what_they_hold(s: Settings)
    ensures
        s@.config == s.config@,
        s@.transport == s.transport,
        s@.http_bind == s.http_bind@,
        s@.http_path == s.http_path@,
        s@.log == s.log@,
        s@.smoke == opt_text(s.smoke),
        s@.dump == s.dump,
{
}

} // verus!
