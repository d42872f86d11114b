//! Webhook trigger decisions. Temperatures are given in °C and converted to
//! the library's micro-degrees.

use std::collections::HashMap;

use lm_sensors_web::config::{WebhookCondition, WebhookConfig, WebhookTrigger};
use lm_sensors_web::sensors::{Device, DeviceReadings, FeatureInfo, SensorReadings, SubFeatureInfo};
use lm_sensors_web::webhook::{
    avg_temp, check_temp, on_change_fires, record_delivery, scheduler_pause_seconds, should_fire,
    temperature_readings, webhook_period_ms, webhook_request, webhooks_to_start, webhooks_to_stop, Average,
};

fn micro(celsius: f64) -> i64 {
    (celsius * 1_000_000.0).round() as i64
}

/// The average of one value given in °C.
fn at(celsius: f64) -> Option<Average> {
    Some(Average::from_micro(micro(celsius)))
}

/// The exact average of raw micro-degree values, as (sum, count).
fn fraction(a: Option<Average>) -> Option<(i128, u64)> {
    a.map(|v| (v.sum_micro(), v.count()))
}

fn sub(name: &str, celsius: Option<f64>) -> SubFeatureInfo {
    SubFeatureInfo { name: name.into(), value: celsius.map(micro), unit: Some("°C".into()) }
}

fn readings(subs: Vec<SubFeatureInfo>) -> SensorReadings {
    SensorReadings {
        devices: vec![DeviceReadings {
            device: Device { name: "test".into(), bus: "ISA".into(), path: None },
            features: vec![FeatureInfo { name: "temp1".into(), sub_features: subs }],
        }],
    }
}

fn hook(trigger: WebhookTrigger, condition: Option<WebhookCondition>) -> WebhookConfig {
    WebhookConfig {
        name: "always".into(),
        url: "http://example.com/hook".into(),
        method: "POST".into(),
        content_type: "application/json".into(),
        trigger,
        condition,
        interval_seconds: 30,
        headers: HashMap::new(),
    }
}

fn cond(above: Option<f64>, below: Option<f64>) -> WebhookCondition {
    WebhookCondition { above_micro_celsius: above.map(micro), below_micro_celsius: below.map(micro) }
}

/// avg_temp with two temperatures.
#[test]
fn test_avg_temp() {
    let r = SensorReadings {
        devices: vec![DeviceReadings {
            device: Device { name: "t".into(), bus: "b".into(), path: None },
            features: vec![FeatureInfo {
                name: "temp1".into(),
                sub_features: vec![sub("temp1_input", Some(60.0)), sub("temp2_input", Some(80.0))],
            }],
        }],
    };
    // (60 + 80) / 2 = 70
    assert!((avg_temp(&r).unwrap().floor_micro() - micro(70.0)).abs() < micro(0.01));
}

/// Empty readings produce no average.
#[test]
fn test_avg_temp_empty() {
    assert!(avg_temp(&SensorReadings { devices: vec![] }).is_none());
}

/// check_temp fires above the threshold.
#[test]
fn test_temp_above() {
    let r = readings(vec![sub("temp1_input", Some(90.0))]);
    assert!(check_temp(&r, &cond(Some(80.0), None)));
}

/// The always trigger fires unconditionally.
#[test]
fn test_always_trigger_fires() {
    let wh = hook(WebhookTrigger::Always, None);
    assert!(matches!(wh.trigger, WebhookTrigger::Always));
    assert!(should_fire(&wh, &SensorReadings { devices: vec![] }, Some(Average::from_micro(1))));
}

/// Above threshold: 90 > 80 fires.
#[test]
fn test_temperature_trigger_above_fires() {
    let r = readings(vec![sub("temp1_input", Some(90.0))]);
    assert!(check_temp(&r, &cond(Some(80.0), None)));
}

/// Above threshold: 70 is not > 80.
#[test]
fn test_temperature_trigger_above_no_fire() {
    let r = readings(vec![sub("temp1_input", Some(70.0))]);
    assert!(!check_temp(&r, &cond(Some(80.0), None)));
}

/// Below threshold: 30 < 40 fires.
#[test]
fn test_temperature_trigger_below_fires() {
    let r = readings(vec![sub("temp1_input", Some(30.0))]);
    assert!(check_temp(&r, &cond(None, Some(40.0))));
}

/// Both thresholds.
#[test]
fn test_temperature_trigger_both_thresholds() {
    let r = readings(vec![sub("temp1_input", Some(95.0)), sub("temp2_input", Some(25.0))]);
    assert!(check_temp(&r, &cond(Some(90.0), Some(30.0))));
}

/// On-change fires when the temperature changed.
#[test]
fn test_on_change_trigger_fires() {
    let r = readings(vec![sub("temp1_input", Some(70.0))]);
    let last_avg = at(50.0);
    let cur_avg = avg_temp(&r);
    // |70 - 50| = 20 > 0.1
    assert!(on_change_fires(last_avg, cur_avg));
}

/// On-change does not fire on a small change.
#[test]
fn test_on_change_trigger_no_fire() {
    let cur_avg = at(50.05);
    let last_avg = at(50.0);
    // |50.05 - 50.0| = 0.05 <= 0.1
    assert!(!on_change_fires(last_avg, cur_avg));
}

/// On-change fires on the first reading.
#[test]
fn test_on_change_trigger_first_reading() {
    let cur_avg = at(50.0);
    let last_avg = None;
    assert!(on_change_fires(last_avg, cur_avg));
}

// ── Further cases ─────────────────────────────────────────────────

#[test]
fn only_named_readable_temperatures_count() {
    let r = readings(vec![
        sub("temp1_input", Some(40.0)),
        sub("fan1_input", Some(1200.0)),
        sub("temp2_crit", None),
        sub("TempInput", Some(99.0)),
        sub("cpu_temp", Some(50.0)),
    ]);
    assert_eq!(temperature_readings(&r), vec![micro(40.0), micro(50.0)]);
    assert_eq!(fraction(avg_temp(&r)), Some((micro(90.0) as i128, 2)));
    assert_eq!(avg_temp(&r).unwrap().floor_micro(), micro(45.0));
}

#[test]
fn average_is_exact() {
    let r = readings(vec![
        SubFeatureInfo { name: "temp".into(), value: Some(-1), unit: None },
        SubFeatureInfo { name: "temp".into(), value: Some(0), unit: None },
    ]);
    assert_eq!(fraction(avg_temp(&r)), Some((-1, 2)));
    assert_eq!(avg_temp(&r).unwrap().floor_micro(), -1);
    let r = readings(vec![
        SubFeatureInfo { name: "temp".into(), value: Some(1), unit: None },
        SubFeatureInfo { name: "temp".into(), value: Some(2), unit: None },
    ]);
    assert_eq!(fraction(avg_temp(&r)), Some((3, 2)));
    assert_eq!(avg_temp(&r).unwrap().floor_micro(), 1);
    let r = readings(vec![
        SubFeatureInfo { name: "temp".into(), value: Some(i64::MAX), unit: None },
        SubFeatureInfo { name: "temp".into(), value: Some(i64::MAX), unit: None },
        SubFeatureInfo { name: "temp".into(), value: Some(i64::MIN), unit: None },
    ]);
    assert_eq!(fraction(avg_temp(&r)), Some((2 * (i64::MAX as i128) + (i64::MIN as i128), 3)));
}

#[test]
fn half_micro_degrees_count_for_on_change() {
    // 100 000.5 µ°C above 0: more than 0.1 °C.
    let up = readings(vec![
        SubFeatureInfo { name: "temp".into(), value: Some(100_000), unit: None },
        SubFeatureInfo { name: "temp".into(), value: Some(100_001), unit: None },
    ]);
    assert!(on_change_fires(Some(Average::from_micro(0)), avg_temp(&up)));
    assert!(on_change_fires(avg_temp(&up), Some(Average::from_micro(0))));
    // 99 999.5 µ°C: not more than 0.1 °C.
    let less = readings(vec![
        SubFeatureInfo { name: "temp".into(), value: Some(99_999), unit: None },
        SubFeatureInfo { name: "temp".into(), value: Some(100_000), unit: None },
    ]);
    assert!(!on_change_fires(Some(Average::from_micro(0)), avg_temp(&less)));
    assert!(!on_change_fires(avg_temp(&less), Some(Average::from_micro(0))));
}

#[test]
fn threshold_is_exclusive() {
    let r = readings(vec![sub("temp1_input", Some(80.0))]);
    assert!(!check_temp(&r, &cond(Some(80.0), Some(80.0))));
    let change = on_change_fires(at(50.0), at(50.1));
    assert!(!change);
    assert!(on_change_fires(at(50.0), at(49.899999)));
    assert!(!on_change_fires(at(0.0), None));
    assert!(!on_change_fires(None, None));
}

#[test]
fn trigger_decisions() {
    let hot = readings(vec![sub("temp1_input", Some(90.0))]);
    assert!(should_fire(&hook(WebhookTrigger::Temperature, None), &hot, None));
    assert!(should_fire(&hook(WebhookTrigger::Temperature, Some(cond(Some(80.0), None))), &hot, None));
    assert!(!should_fire(&hook(WebhookTrigger::Temperature, Some(cond(Some(95.0), None))), &hot, None));
    let on_change = hook(WebhookTrigger::OnChange, None);
    assert!(should_fire(&on_change, &hot, None));
    assert!(!should_fire(&on_change, &SensorReadings { devices: vec![] }, None));
    let last = record_delivery(None, true, &hot);
    assert_eq!(fraction(last), Some((micro(90.0) as i128, 1)));
    assert!(!should_fire(&on_change, &hot, last));
    assert_eq!(fraction(record_delivery(Some(Average::from_micro(5)), false, &hot)), Some((5, 1)));
    assert_eq!(fraction(record_delivery(None, false, &hot)), None);
    assert_eq!(fraction(record_delivery(None, true, &SensorReadings { devices: vec![] })), Some((0, 1)));
}

#[test]
fn scheduler_pauses() {
    assert_eq!(scheduler_pause_seconds(&vec![]), 10);
    assert_eq!(scheduler_pause_seconds(&vec![hook(WebhookTrigger::Always, None)]), 60);
}

fn named(name: &str) -> WebhookConfig {
    let mut wh = hook(WebhookTrigger::Always, None);
    wh.name = name.into();
    wh
}

#[test]
fn one_task_per_webhook_name() {
    let configured = vec![named("a"), named("b"), named("a"), named("c")];
    assert_eq!(webhooks_to_start(&vec![], &configured), vec![0, 1, 3]);
    assert_eq!(webhooks_to_start(&vec!["b".to_string()], &configured), vec![0, 3]);
    let all: Vec<String> = vec!["a".into(), "b".into(), "c".into()];
    assert_eq!(webhooks_to_start(&all, &configured), Vec::<usize>::new());
    assert_eq!(webhooks_to_start(&all, &vec![]), Vec::<usize>::new());
}

#[test]
fn removed_webhooks_stop() {
    let configured = vec![named("a"), named("c")];
    let running: Vec<String> = vec!["a".into(), "b".into(), "c".into(), "d".into()];
    assert_eq!(webhooks_to_stop(&running, &configured), vec![1, 3]);
    assert_eq!(webhooks_to_stop(&running, &vec![]), vec![0, 1, 2, 3]);
    assert_eq!(webhooks_to_stop(&vec![], &configured), Vec::<usize>::new());
}

#[test]
fn webhook_periods() {
    assert_eq!(webhook_period_ms(30), 30_000);
    assert_eq!(webhook_period_ms(1), 1_000);
    assert_eq!(webhook_period_ms(0), 1);
    assert_eq!(webhook_period_ms(u64::MAX), u64::MAX);
    assert_eq!(webhook_period_ms(u64::MAX / 1000), (u64::MAX / 1000) * 1000);
    assert_eq!(webhook_period_ms(u64::MAX / 1000 + 1), u64::MAX);
}

#[test]
fn webhook_request_uses_the_configured_method() {
    let mut wh = named("put-hook");
    wh.method = "PUT".into();
    wh.url = "http://example.com/put".into();
    wh.content_type = "text/plain".into();
    let req = webhook_request(&wh);
    assert_eq!(req.method, "PUT");
    assert_eq!(req.url, "http://example.com/put");
    assert_eq!(req.content_type, "text/plain");
}
