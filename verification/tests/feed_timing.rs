//! The WebSocket broadcast timer.

use lm_sensors_web::websocket::{broadcast_period_ms, ticker_update};

#[test]
fn broadcast_period_follows_the_config() {
    assert_eq!(broadcast_period_ms(2000), 2000);
    assert_eq!(broadcast_period_ms(0), 1);
}

#[test]
fn reload_changes_the_ticker() {
    assert_eq!(ticker_update(2000, 2000), None);
    assert_eq!(ticker_update(2000, 500), Some(500));
    assert_eq!(ticker_update(1, 0), None);
    assert_eq!(ticker_update(2000, 0), Some(1));
}
