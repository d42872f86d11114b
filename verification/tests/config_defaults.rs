//! Configuration defaults and command-line overrides.

use lm_sensors_web::config::{
    config_or_default, config_source, default_webhooks, startup_config, Config, SensorsConfig, ServerConfig, WebSocketConfig,
    WebhookTrigger,
};

/// Verify all default values match expectations.
#[test]
fn test_default_config() {
    let c = Config::default();
    assert_eq!(c.server.host, "0.0.0.0");
    assert_eq!(c.server.port, 47890);
    assert_eq!(c.server.log_level, "info");
    assert!(c.websocket.enabled);
    assert_eq!(c.websocket.path, "/ws/sensors");
    assert_eq!(c.websocket.broadcast_interval_ms, 2000);
    assert!(c.webhooks.is_empty());
    assert_eq!(c.sensors.refresh_interval_ms, 5000);
}

/// Default config values match expected production defaults.
#[test]
fn test_default_config_values() {
    let c = Config::default();
    assert_eq!(c.server.host, "0.0.0.0");
    assert_eq!(c.server.port, 47890);
    assert_eq!(c.server.log_level, "info");
    assert!(c.websocket.enabled);
    assert_eq!(c.websocket.path, "/ws/sensors");
    assert_eq!(c.websocket.broadcast_interval_ms, 2000);
    assert!(c.webhooks.is_empty());
    assert_eq!(c.sensors.refresh_interval_ms, 5000);
}

/// ServerConfig defaults are correct.
#[test]
fn api_test_test_server_config_defaults() {
    let sc = ServerConfig::default();
    assert_eq!(sc.host, "0.0.0.0");
    assert_eq!(sc.port, 47890);
    assert_eq!(sc.log_level, "info");
}

/// Default config has all expected values.
#[test]
fn test_default_config_all_values() {
    let c = Config::default();
    assert_eq!(c.server.host, "0.0.0.0");
    assert_eq!(c.server.port, 47890);
    assert_eq!(c.server.log_level, "info");
    assert!(c.websocket.enabled);
    assert_eq!(c.websocket.path, "/ws/sensors");
    assert_eq!(c.websocket.broadcast_interval_ms, 2000);
    assert!(c.webhooks.is_empty());
    assert_eq!(c.sensors.refresh_interval_ms, 5000);
}

/// ServerConfig defaults are correct.
#[test]
fn config_integration_test_server_config_defaults() {
    let sc = ServerConfig::default();
    assert_eq!(sc.host, "0.0.0.0");
    assert_eq!(sc.port, 47890);
    assert_eq!(sc.log_level, "info");
}

/// WebSocketConfig defaults are correct.
#[test]
fn test_websocket_config_defaults() {
    let ws = WebSocketConfig::default();
    assert!(ws.enabled);
    assert_eq!(ws.path, "/ws/sensors");
    assert_eq!(ws.broadcast_interval_ms, 2000);
}

/// SensorsConfig defaults are correct.
#[test]
fn test_sensors_config_defaults() {
    let sc = SensorsConfig::default();
    assert_eq!(sc.refresh_interval_ms, 5000);
}

/// Config clone produces an independent copy.
#[test]
fn test_config_clone() {
    let c = Config::default();
    let c2 = c.clone();
    assert_eq!(c.server.host, c2.server.host);
    assert_eq!(c.server.port, c2.server.port);
}

/// ServerConfig clone produces an independent copy.
#[test]
fn test_server_config_clone() {
    let sc = ServerConfig::default();
    let sc2 = sc.clone();
    assert_eq!(sc.host, sc2.host);
    assert_eq!(sc.port, sc2.port);
    assert_eq!(sc.log_level, sc2.log_level);
}

#[test]
fn trigger_default_and_empty_webhooks() {
    assert_eq!(WebhookTrigger::default(), WebhookTrigger::Always);
    assert!(default_webhooks().is_empty());
}

#[test]
fn cli_overrides_without_config_file() {
    let file = ServerConfig { host: "10.0.0.5".into(), port: 8000, log_level: "debug".into() };
    let r = file.with_cli_overrides(&"0.0.0.0".to_string(), 47890, false);
    assert_eq!(r.host, "0.0.0.0");
    assert_eq!(r.port, 47890);
    assert_eq!(r.log_level, "debug");
}

#[test]
fn cli_overrides_with_config_file() {
    let file = ServerConfig { host: "10.0.0.5".into(), port: 8000, log_level: "info".into() };
    let r = file.clone().with_cli_overrides(&"0.0.0.0".to_string(), 47890, true);
    assert_eq!(r.host, "10.0.0.5");
    assert_eq!(r.port, 8000);
    let r = file.with_cli_overrides(&"192.168.0.2".to_string(), 9000, true);
    assert_eq!(r.host, "192.168.0.2");
    assert_eq!(r.port, 9000);
}

#[test]
fn config_falls_back_to_default() {
    let mut custom = Config::default();
    custom.server.port = 1234;
    assert_eq!(config_or_default(Some(Ok(custom))).server.port, 1234);
    assert_eq!(config_or_default(Some(Err("bad".into()))).server.port, 47890);
    assert_eq!(config_or_default(None).server.host, "0.0.0.0");
}

#[test]
fn config_file_choice() {
    assert_eq!(config_source(Some("/a".into()), Some("/b".into())).as_deref(), Some("/a"));
    assert_eq!(config_source(None, Some("/b".into())).as_deref(), Some("/b"));
    assert_eq!(config_source(None, None), None);
}

#[test]
fn startup_config_prefers_the_command_line_file() {
    let mut from_flag = Config::default();
    from_flag.server.port = 1111;
    let mut from_env = Config::default();
    from_env.server.port = 2222;
    assert_eq!(startup_config(Some(Ok(from_flag.clone())), Some(Ok(from_env.clone()))).server.port, 1111);
    assert_eq!(startup_config(None, Some(Ok(from_env.clone()))).server.port, 2222);
    assert_eq!(startup_config(Some(Err("missing".into())), Some(Ok(from_env))).server.port, 47890);
    assert_eq!(startup_config(None, Some(Err("bad json".into()))).server.port, 47890);
    assert_eq!(startup_config(None, None).server.port, 47890);
}
