//! HTTP replies, CORS policy and WebSocket decisions.

use lm_sensors_web::api::{load_failure_message, lookup_status, not_found_message, reload_reply, reload_step};
use lm_sensors_web::config::Config;
use lm_sensors_web::server::{cors_policy, CorsPolicy};
use lm_sensors_web::websocket::{on_receive, stays_connected, Received, SocketAction, BROADCAST_CAPACITY};

fn origins(p: CorsPolicy) -> Option<Vec<String>> {
    match p {
        CorsPolicy::AnyOrigin => None,
        CorsPolicy::Restricted { origins, methods, headers } => {
            assert_eq!(methods, vec!["GET", "POST"]);
            assert_eq!(headers, vec!["content-type"]);
            Some(origins)
        }
    }
}

#[test]
fn not_found_reply() {
    assert_eq!(not_found_message("nonexistent"), "Device 'nonexistent' not found");
    assert_eq!(lookup_status(true), 200);
    assert_eq!(lookup_status(false), 404);
}

#[test]
fn reload_replies() {
    let ok = reload_reply(None);
    assert_eq!((ok.code, ok.status.as_str(), ok.message.as_str()), (200, "ok", "Config reloaded successfully"));
    let err = reload_reply(Some("No such file"));
    assert_eq!(err.code, 500);
    assert_eq!(err.status, "error");
    assert_eq!(err.message, "Failed to reload config: No such file");
    assert_eq!(load_failure_message(true, "/x.json", "gone"), "Failed to read '/x.json': gone");
    assert_eq!(load_failure_message(false, "/x.json", "bad"), "Failed to parse '/x.json': bad");
}

#[test]
fn reload_replaces_or_keeps_config() {
    let mut file = Config::default();
    file.server.port = 9999;
    let (next, reply) = reload_step(Config::default(), Ok(file));
    assert_eq!(next.server.port, 9999);
    assert_eq!(reply.code, 200);
    let mut running = Config::default();
    running.server.port = 1111;
    let (next, reply) = reload_step(running, Err("No such file".into()));
    assert_eq!(next.server.port, 1111);
    assert_eq!(reply.code, 500);
    assert_eq!(reply.message, "Failed to reload config: No such file");
}

#[test]
fn cors_any_origin_on_all_interfaces() {
    assert!(origins(cors_policy("0.0.0.0", 47890, None)).is_none());
    assert!(origins(cors_policy("::", 8080, None)).is_none());
}

#[test]
fn cors_specific_host() {
    assert_eq!(
        origins(cors_policy("10.0.0.2", 8080, None)).unwrap(),
        vec!["http://10.0.0.2:8080"]
    );
    assert_eq!(
        origins(cors_policy("127.0.0.1", 47890, None)).unwrap(),
        vec!["http://127.0.0.1:47890", "http://localhost:47890"]
    );
    assert_eq!(
        origins(cors_policy("localhost", 9000, None)).unwrap(),
        vec!["http://localhost:9000", "http://localhost:47890", "http://127.0.0.1:47890"]
    );
}

#[test]
fn cors_override() {
    assert_eq!(
        origins(cors_policy("0.0.0.0", 1, Some("https://a.example, https://b.example,,"))).unwrap(),
        vec!["https://a.example", "https://b.example"]
    );
    // An override that names no valid origin is ignored.
    assert!(origins(cors_policy("0.0.0.0", 1, Some("\u{7f}"))).is_none());
    assert_eq!(origins(cors_policy("0.0.0.0", 1, Some(" "))).unwrap(), vec![""]);
}

#[test]
fn socket_decisions() {
    assert_eq!(on_receive(Received::Message), SocketAction::Forward);
    assert_eq!(on_receive(Received::Lagged), SocketAction::Skip);
    assert_eq!(on_receive(Received::Closed), SocketAction::Disconnect);
    assert!(stays_connected(true));
    assert!(!stays_connected(false));
    assert_eq!(BROADCAST_CAPACITY, 100);
}
