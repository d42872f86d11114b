//! # Configuration
//!
//! Typed settings for the server, the WebSocket feed, webhooks and sensor
//! reads, with the built-in defaults that apply when a JSON config file leaves
//! a key out (or when there is no config file at all).
//!
//! | Setting                           | Default       |
//! |-----------------------------------|---------------|
//! | `server.host`                     | `0.0.0.0`     |
//! | `server.port`                     | `47890`       |
//! | `server.log_level`                | `info`        |
//! | `websocket.enabled`               | `true`        |
//! | `websocket.path`                  | `/ws/sensors` |
//! | `websocket.broadcast_interval_ms` | `2000`        |
//! | `sensors.refresh_interval_ms`     | `5000`        |
//! | webhook `method`                  | `POST`        |
//! | webhook `content_type`            | `application/json` |
//! | webhook `interval_seconds`        | `30`          |
//!
//! Temperatures are held in micro-degrees Celsius (millionths of a degree):
//! `80_000_000` stands for 80 °C; finer thresholds are rounded to the nearest
//! millionth.

use std::collections::HashMap;

use vstd::prelude::*;

verus! {

/// Server settings (bind address, port, log level).
#[derive(Debug, Clone)]
pub struct ServerConfig {
    pub host: String,
    pub port: u16,
    pub log_level: String,
}

/// WebSocket broadcast settings.
#[derive(Debug, Clone)]
pub struct WebSocketConfig {
    /// Whether the WebSocket endpoint is enabled.
    pub enabled: bool,
    /// URL path for the WebSocket endpoint.
    pub path: String,
    /// Milliseconds between sensor broadcast messages.
    pub broadcast_interval_ms: u64,
}

/// When a webhook fires.
#[derive(Debug, Clone, Copy, PartialEq, Eq, Structural)]
pub enum WebhookTrigger {
    /// Fire on every interval tick regardless of sensor values.
    Always,
    /// Fire only when a temperature crosses a threshold.
    Temperature,
    /// Fire only when the average temperature changes by more than 0.1 °C.
    OnChange,
}

/// Temperature thresholds for the `temperature` trigger, in micro-degrees Celsius.
#[derive(Debug, Clone, Copy, PartialEq, Eq, Structural)]
pub struct WebhookCondition {
    /// Fire when any temperature reading exceeds this value.
    pub above_micro_celsius: Option<i64>,
    /// Fire when any temperature reading drops below this value.
    pub below_micro_celsius: Option<i64>,
}

/// A webhook: a scheduled HTTP call with an optional temperature condition.
#[derive(Debug, Clone)]
pub struct WebhookConfig {
    /// Human-readable name (used in logs and in the payload).
    pub name: String,
    /// Target URL.
    pub url: String,
    /// HTTP method named in the config.
    pub method: String,
    /// Value of the `Content-Type` header.
    pub content_type: String,
    /// When to fire.
    pub trigger: WebhookTrigger,
    /// Thresholds (only for the `temperature` trigger).
    pub condition: Option<WebhookCondition>,
    /// Seconds between webhook attempts.
    pub interval_seconds: u64,
    /// Extra HTTP headers to include.
    pub headers: HashMap<String, String>,
}

/// Sensor read settings.
#[derive(Debug, Clone)]
pub struct SensorsConfig {
    /// Milliseconds between sensor reads.
    pub refresh_interval_ms: u64,
}

/// Top-level configuration.
#[derive(Debug, Clone)]
pub struct Config {
    pub server: ServerConfig,
    pub websocket: WebSocketConfig,
    pub webhooks: Vec<WebhookConfig>,
    pub sensors: SensorsConfig,
}

// ── Defaults ───────────────────────────────────────────────────────

/// Default bind address: all interfaces.
pub fn default_host() -> (s: String)
    ensures
        s@ == "0.0.0.0"@,
{
    String::from_str("0.0.0.0")
}

/// Default listen port.
pub fn default_port() -> (p: u16)
    ensures
        p == 47890,
{
    47890
}

/// Default `tracing` level.
pub fn default_log_level() -> (s: String)
    ensures
        s@ == "info"@,
{
    String::from_str("info")
}

/// The WebSocket feed is on by default.
pub fn default_ws_enabled() -> (b: bool)
    ensures
        b,
{
    true
}

/// Default WebSocket endpoint path.
pub fn default_ws_path() -> (s: String)
    ensures
        s@ == "/ws/sensors"@,
{
    String::from_str("/ws/sensors")
}

/// Default milliseconds between broadcasts.
pub fn default_broadcast_interval_ms() -> (n: u64)
    ensures
        n == 2000,
{
    2000
}

/// Default webhook HTTP method.
pub fn default_method() -> (s: String)
    ensures
        s@ == "POST"@,
{
    String::from_str("POST")
}

/// Default webhook content type.
pub fn default_content_type() -> (s: String)
    ensures
        s@ == "application/json"@,
{
    String::from_str("application/json")
}

/// Default seconds between webhook attempts.
pub fn default_interval_seconds() -> (n: u64)
    ensures
        n == 30,
{
    30
}

/// Default milliseconds between sensor reads.
pub fn default_refresh_interval_ms() -> (n: u64)
    ensures
        n == 5000,
{
    5000
}

/// The default server settings.
pub open spec fn is_default_server(s: ServerConfig) -> bool {
    &&& s.host@ == "0.0.0.0"@
    &&& s.port == 47890
    &&& s.log_level@ == "info"@
}

/// The default WebSocket settings.
pub open spec fn is_default_websocket(w: WebSocketConfig) -> bool {
    &&& w.enabled
    &&& w.path@ == "/ws/sensors"@
    &&& w.broadcast_interval_ms == 2000
}

/// The default sensor settings.
pub open spec fn is_default_sensors(s: SensorsConfig) -> bool {
    s.refresh_interval_ms == 5000
}

/// The built-in configuration: default sections and no webhooks.
pub open spec fn is_default_config(c: Config) -> bool {
    &&& is_default_server(c.server)
    &&& is_default_websocket(c.websocket)
    &&& c.webhooks@.len() == 0
    &&& is_default_sensors(c.sensors)
}

impl Default for ServerConfig {
    fn default() -> (s: Self)
        ensures
            is_default_server(s),
    {
        ServerConfig { host: default_host(), port: default_port(), log_level: default_log_level() }
    }
}

impl Default for WebSocketConfig {
    fn default() -> (w: Self)
        ensures
            is_default_websocket(w),
    {
        WebSocketConfig {
            enabled: default_ws_enabled(),
            path: default_ws_path(),
            broadcast_interval_ms: default_broadcast_interval_ms(),
        }
    }
}

impl Default for SensorsConfig {
    fn default() -> (s: Self)
        ensures
            is_default_sensors(s),
    {
        SensorsConfig { refresh_interval_ms: default_refresh_interval_ms() }
    }
}

impl Default for WebhookTrigger {
    fn default() -> (t: Self)
        ensures
            t == WebhookTrigger::Always,
    {
        WebhookTrigger::Always
    }
}

impl Default for Config {
    fn default() -> (c: Self)
        ensures
            is_default_config(c),
    {
        Config {
            server: ServerConfig::default(),
            websocket: WebSocketConfig::default(),
            webhooks: Vec::new(),
            sensors: SensorsConfig::default(),
        }
    }
}

/// An empty webhook list, the default when a config file has no `webhooks` key.
pub fn default_webhooks() -> (v: Vec<WebhookConfig>)
    ensures
        v@.len() == 0,
{
    Vec::new()
}

// ── Command-line overrides ─────────────────────────────────────────

/// The server settings once the command line is taken into account.
///
/// Without a config file the command line's host and port are used as they
/// are. With one, the command line overrides the file only where it differs
/// from the command line's own defaults (`0.0.0.0` and `47890`), so that an
/// option left out does not undo the file.
pub open spec fn overridden_server(
    file: ServerConfig,
    cli_host: Seq<char>,
    cli_port: u16,
    has_config_file: bool,
) -> (Seq<char>, u16) {
    if !has_config_file {
        (cli_host, cli_port)
    } else {
        (
            if cli_host != "0.0.0.0"@ {
                cli_host
            } else {
                file.host@
            },
            if cli_port != 47890 {
                cli_port
            } else {
                file.port
            },
        )
    }
}

impl ServerConfig {
    /// Apply the command line's host and port to these settings (see [`overridden_server`]).
    pub fn with_cli_overrides(self, cli_host: &String, cli_port: u16, has_config_file: bool) -> (r:
        ServerConfig)
        ensures
            (r.host@, r.port) == overridden_server(self, cli_host@, cli_port, has_config_file),
            r.log_level == self.log_level,
    {
        let mut r = self;
        if !has_config_file {
            r.host = cli_host.clone();
            r.port = cli_port;
        } else {
            let default_host = default_host();
            if *cli_host != default_host {
                r.host = cli_host.clone();
            }
            if cli_port != 47890 {
                r.port = cli_port;
            }
        }
        r
    }
}

/// The configuration to start with: the file's when it loaded, else the built-in one.
pub fn config_or_default(loaded: Option<Result<Config, String>>) -> (c: Config)
    ensures
        match loaded {
            Some(Ok(file)) => c == file,
            _ => is_default_config(c),
        },
{
    match loaded {
        Some(Ok(file)) => file,
        _ => Config::default(),
    }
}

/// The configuration to start with. `from_flag` is what loading the file
/// given with `--config` gave, if one was given; `from_env` what loading the
/// file named by `CONFIG_PATH` gave, if that is set. The file named on the
/// command line wins; a file that does not load gives the built-in
/// configuration.
pub fn startup_config(
    from_flag: Option<Result<Config, String>>,
    from_env: Option<Result<Config, String>>,
) -> (c: Config)
    ensures
        match from_flag {
            Some(Ok(file)) => c == file,
            Some(Err(_)) => is_default_config(c),
            None => match from_env {
                Some(Ok(file)) => c == file,
                _ => is_default_config(c),
            },
        },
{
    match from_flag {
        Some(loaded) => config_or_default(Some(loaded)),
        None => config_or_default(from_env),
    }
}

/// The config file to use: the one given with `--config`, else the one named
/// by the `CONFIG_PATH` environment variable, if any.
pub fn config_source(cli: Option<String>, env: Option<String>) -> (r: Option<String>)
    ensures
        r == (if cli is Some {
            cli
        } else {
            env
        }),
{
    match cli {
        Some(c) => Some(c),
        None => env,
    }
}

// ── Laws ────────────────────────────────────────────────────────────

/// With a config file, leaving out `--host` and `--port` keeps the file's
/// address; giving them (with other values) replaces it.
pub proof fn lemma_file_address_kept(file: ServerConfig, host: Seq<char>, port: u16)
    ensures
        overridden_server(file, "0.0.0.0"@, 47890, true) == (file.host@, file.port),
        host != "0.0.0.0"@ && port != 47890 ==> overridden_server(file, host, port, true) == (host, port),
        overridden_server(file, host, port, false) == (host, port),
{
}

/// With a config file, `--host` and `--port` override the file independently:
/// a port other than the command line's default replaces the file's port
/// whatever the host option says, the default port keeps the file's port, and
/// likewise for the host, whatever the port option says.
pub proof fn lemma_overrides_independent(
    file: ServerConfig,
    host: Seq<char>,
    other_host: Seq<char>,
    port: u16,
    other_port: u16,
)
    ensures
        port != 47890 ==> overridden_server(file, host, port, true).1 == port,
        overridden_server(file, host, 47890, true).1 == file.port,
        host != "0.0.0.0"@ ==> overridden_server(file, host, port, true).0 == host,
        overridden_server(file, "0.0.0.0"@, port, true).0 == file.host@,
        overridden_server(file, host, port, true).1 == overridden_server(file, other_host, port, true).1,
        overridden_server(file, host, port, true).0 == overridden_server(file, host, other_port, true).0,
{
}

} // verus!
