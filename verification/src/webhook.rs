//! # Webhook decisions
//!
//! Webhooks send sensor data to configured URLs on a schedule. Whether a
//! webhook fires on a tick depends on its trigger:
//!
//! | Trigger       | Fires when                                                       |
//! |---------------|------------------------------------------------------------------|
//! | `always`      | on every interval tick                                           |
//! | `temperature` | a temperature crosses a threshold (or no condition is set)       |
//! | `on_change`   | the average temperature moved by more than 0.1 °C since the last |
//! |               | delivery, or nothing was delivered yet; never without a temperature |
//!
//! A temperature reading is a sub-feature whose name contains `temp` and whose
//! value could be read. Values are in micro-degrees Celsius; an average is
//! kept exactly, as the fraction of the sum of the values over their count.
//!
//! The scheduler re-reads the config periodically. It keeps one task per
//! webhook name: it starts a task for each webhook that has none and stops
//! the tasks of webhooks that were removed. Each task sends the configured
//! method to the configured URL every `interval_seconds` (at once and then
//! continually for an interval of 0).
//!
//! The scheduler and the HTTP delivery run elsewhere; the decisions they take
//! are made here.

use vstd::prelude::*;
use vstd::arithmetic::div_mod::lemma_fundamental_div_mod_converse;

use crate::config::{WebhookCondition, WebhookConfig, WebhookTrigger};
use crate::sensors::{DeviceReadings, FeatureInfo, SensorReadings, SubFeatureInfo};
use crate::text::{chars_of, contains_chars, contains_text, occurs_in, texts};

verus! {

/// The change in average temperature, in micro-degrees, that an `on_change` webhook waits for: 0.1 °C.
pub const ON_CHANGE_THRESHOLD_MICRO: i64 = 100_000;

/// A sub-feature that reads a temperature: its name contains "temp" and it has a value.
pub open spec fn is_temperature(s: SubFeatureInfo) -> bool {
    occurs_in(s.name@, "temp"@) && s.value is Some
}

/// The temperature values among sub-features, in order.
pub open spec fn sub_feature_temps(subs: Seq<SubFeatureInfo>) -> Seq<i64>
    decreases subs.len(),
{
    if subs.len() == 0 {
        Seq::empty()
    } else {
        let before = sub_feature_temps(subs.drop_last());
        if is_temperature(subs.last()) {
            before.push(subs.last().value->0)
        } else {
            before
        }
    }
}

/// The temperature values of features, in order.
pub open spec fn feature_temps(features: Seq<FeatureInfo>) -> Seq<i64>
    decreases features.len(),
{
    if features.len() == 0 {
        Seq::empty()
    } else {
        feature_temps(features.drop_last()) + sub_feature_temps(features.last().sub_features@)
    }
}

/// The temperature values of devices, in order.
pub open spec fn device_temps(devices: Seq<DeviceReadings>) -> Seq<i64>
    decreases devices.len(),
{
    if devices.len() == 0 {
        Seq::empty()
    } else {
        device_temps(devices.drop_last()) + feature_temps(devices.last().features@)
    }
}

/// Every temperature value in a snapshot: devices, then features, then sub-features, in order.
pub open spec fn temperatures(r: SensorReadings) -> Seq<i64> {
    device_temps(r.devices@)
}

/// A value crosses a condition's thresholds: above `above` or below `below`.
pub open spec fn crosses(v: i64, c: WebhookCondition) -> bool {
    ||| (c.above_micro_celsius is Some && v > c.above_micro_celsius->0)
    ||| (c.below_micro_celsius is Some && v < c.below_micro_celsius->0)
}

/// Some temperature in the snapshot crosses the condition.
pub open spec fn any_crossing(r: SensorReadings, c: WebhookCondition) -> bool {
    exists|i: int| 0 <= i < temperatures(r).len() && crosses(#[trigger] temperatures(r)[i], c)
}

/// Sum of a sequence of values.
pub open spec fn total(s: Seq<i64>) -> int
    decreases s.len(),
{
    if s.len() == 0 {
        0
    } else {
        total(s.drop_last()) + s.last()
    }
}

/// The average temperature as a fraction `(sum, count)` of micro-degrees;
/// `None` when there is no temperature reading.
pub open spec fn average_temperature(r: SensorReadings) -> Option<(int, nat)> {
    let t = temperatures(r);
    if t.len() == 0 {
        None
    } else {
        Some((total(t), t.len()))
    }
}

/// The fraction `a.0 / a.1` exceeds the fraction `b.0 / b.1` by more than `d`
/// (both denominators positive).
pub open spec fn exceeds_by(a: (int, nat), b: (int, nat), d: int) -> bool {
    a.0 * b.1 - b.0 * a.1 > d * a.1 * b.1
}

/// The `on_change` rule: fire on the first temperature reading, or when the
/// average moved by more than 0.1 °C; never without a current average.
pub open spec fn changed_enough(last: Option<(int, nat)>, current: Option<(int, nat)>) -> bool {
    match (last, current) {
        (None, Some(_)) => true,
        (None, None) => false,
        (Some(l), Some(c)) => exceeds_by(c, l, ON_CHANGE_THRESHOLD_MICRO as int) || exceeds_by(
            l,
            c,
            ON_CHANGE_THRESHOLD_MICRO as int,
        ),
        (Some(_), None) => false,
    }
}

/// Whether a webhook fires, given the readings of this tick and the average
/// recorded at its last delivery.
pub open spec fn fires(wh: WebhookConfig, r: SensorReadings, last: Option<(int, nat)>) -> bool {
    match wh.trigger {
        WebhookTrigger::Always => true,
        WebhookTrigger::Temperature => match wh.condition {
            Some(c) => any_crossing(r, c),
            None => true,
        },
        WebhookTrigger::OnChange => changed_enough(last, average_temperature(r)),
    }
}

/// What a webhook remembers after a tick: the average (or 0 when there is
/// none) when the delivery succeeded, else what it remembered before.
pub open spec fn remembered(last: Option<(int, nat)>, delivered: bool, r: SensorReadings) -> Option<(int, nat)> {
    if delivered {
        Some(
            match average_temperature(r) {
                Some(a) => a,
                None => (0, 1),
            },
        )
    } else {
        last
    }
}

/// An exact average of micro-degree values: `whole + rem / count`, with
/// `0 <= rem < count`. Its view is the fraction `(sum, count)`.
#[derive(Clone, Copy, Debug)]
pub struct Average {
    whole: i64,
    rem: u64,
    count: u64,
}

impl View for Average {
    type V = (int, nat);

    closed spec fn view(&self) -> (int, nat) {
        ((self.whole as int) * (self.count as int) + (self.rem as int), self.count as nat)
    }
}

/// The fractions of an optional average.
pub open spec fn opt_average(a: Option<Average>) -> Option<(int, nat)> {
    match a {
        Some(v) => Some(v@),
        None => None,
    }
}

proof fn lemma_floor_of_parts(whole: int, rem: int, count: int)
    requires
        0 <= rem < count,
    ensures
        (whole * count + rem) / count == whole,
{
    lemma_fundamental_div_mod_converse(whole * count + rem, count, whole, rem);
}

impl Average {
    #[verifier::type_invariant]
    spec fn parts_ok(self) -> bool {
        self.rem < self.count
    }

    /// The average of the single value `v`.
    pub fn from_micro(v: i64) -> (a: Average)
        ensures
            a@ == (v as int, 1nat),
    {
        Average { whole: v, rem: 0, count: 1 }
    }

    /// The average rounded down to the micro-degree.
    pub fn floor_micro(&self) -> (m: i64)
        ensures
            m as int == self@.0 / (self@.1 as int),
    {
        proof {
            use_type_invariant(self);
            lemma_floor_of_parts(self.whole as int, self.rem as int, self.count as int);
        }
        self.whole
    }

    /// The sum of the averaged values.
    pub fn sum_micro(&self) -> (s: i128)
        ensures
            s as int == self@.0,
    {
        proof {
            use_type_invariant(self);
            let w = self.whole as int;
            let c = self.count as int;
            let r = self.rem as int;
            assert(-0x8000_0000_0000_0000_0000_0000_0000_0000 <= w * c + r <= 0x7fff_ffff_ffff_ffff_ffff_ffff_ffff_ffff)
                by (nonlinear_arith)
                requires
                    -0x8000_0000_0000_0000 <= w <= 0x7fff_ffff_ffff_ffff,
                    0 <= r < c,
                    c <= 0xffff_ffff_ffff_ffff,
            ;
            assert(-0x8000_0000_0000_0000_0000_0000_0000_0000 <= w * c <= 0x7fff_ffff_ffff_ffff_ffff_ffff_ffff_ffff)
                by (nonlinear_arith)
                requires
                    -0x8000_0000_0000_0000 <= w <= 0x7fff_ffff_ffff_ffff,
                    0 <= c <= 0xffff_ffff_ffff_ffff,
            ;
        }
        (self.whole as i128) * (self.count as i128) + (self.rem as i128)
    }

    /// How many values were averaged.
    pub fn count(&self) -> (n: u64)
        ensures
            n as int == self@.1,
    {
        self.count
    }
}

proof fn lemma_cross_difference(qa: int, ra: int, ca: int, qb: int, rb: int, cb: int, d: int)
    requires
        0 <= ra < ca,
        0 <= rb < cb,
    ensures
        ((qa * ca + ra) * cb - (qb * cb + rb) * ca > d * ca * cb) == (qa - qb - d >= 1 || (qa - qb - d
            == 0 && ra * cb > rb * ca)),
{
    let k = qa - qb - d;
    let e = ra * cb - rb * ca;
    let p = ca * cb;
    assert((qa * ca + ra) * cb - (qb * cb + rb) * ca - d * ca * cb == p * k + e) by (nonlinear_arith)
        requires
            k == qa - qb - d,
            e == ra * cb - rb * ca,
            p == ca * cb,
    ;
    assert(0 <= ra * cb < p) by (nonlinear_arith)
        requires
            0 <= ra < ca,
            0 < cb,
            p == ca * cb,
    ;
    assert(0 <= rb * ca < p) by (nonlinear_arith)
        requires
            0 <= rb < cb,
            0 < ca,
            p == ca * cb,
    ;
    if k >= 1 {
        assert(p * k >= p) by (nonlinear_arith)
            requires
                k >= 1,
                p > 0,
        ;
    } else if k <= -1 {
        assert(p * k <= -p) by (nonlinear_arith)
            requires
                k <= -1,
                p > 0,
        ;
    } else {
        assert(p * k == 0) by (nonlinear_arith)
            requires
                k == 0,
        ;
    }
}

/// Whether the average `a` exceeds the average `b` by more than `d` micro-degrees.
fn exceeds(a: Average, b: Average, d: i64) -> (r: bool)
    ensures
        r == exceeds_by(a@, b@, d as int),
{
    proof {
        use_type_invariant(a);
        use_type_invariant(b);
        lemma_cross_difference(
            a.whole as int,
            a.rem as int,
            a.count as int,
            b.whole as int,
            b.rem as int,
            b.count as int,
            d as int,
        );
    }
    let k: i128 = (a.whole as i128) - (b.whole as i128) - (d as i128);
    if k >= 1 {
        true
    } else if k <= -1 {
        false
    } else {
        proof {
            assert((a.rem as int) * (b.count as int) <= 0xffff_ffff_ffff_ffff * 0xffff_ffff_ffff_ffff)
                by (nonlinear_arith)
                requires
                    a.rem <= 0xffff_ffff_ffff_ffff,
                    b.count <= 0xffff_ffff_ffff_ffff,
            ;
            assert((b.rem as int) * (a.count as int) <= 0xffff_ffff_ffff_ffff * 0xffff_ffff_ffff_ffff)
                by (nonlinear_arith)
                requires
                    b.rem <= 0xffff_ffff_ffff_ffff,
                    a.count <= 0xffff_ffff_ffff_ffff,
            ;
        }
        (a.rem as u128) * (b.count as u128) > (b.rem as u128) * (a.count as u128)
    }
}

fn sub_feature_temps_into(
    out: &mut Vec<i64>,
    subs: &Vec<SubFeatureInfo>,
    temp: &Vec<char>,
)
    requires
        temp@ == "temp"@,
    ensures
        final(out)@ == old(out)@ + sub_feature_temps(subs@),
{
    let ghost start = out@;
    let mut k: usize = 0;
    while k < subs.len()
        invariant
            k <= subs@.len(),
            temp@ == "temp"@,
            out@ == start + sub_feature_temps(subs@.take(k as int)),
        decreases subs@.len() - k,
    {
        let s = &subs[k];
        let ghost before = out@;
        assert(subs@.take(k + 1).drop_last() == subs@.take(k as int));
        assert(subs@.take(k + 1).last() == *s);
        match s.value {
            Some(v) => {
                let name = chars_of(s.name.as_str());
                if contains_chars(&name, temp) {
                    out.push(v);
                    assert(out@ =~= start + sub_feature_temps(subs@.take(k + 1)));
                }
            },
            None => {},
        }
        k = k + 1;
    }
    assert(subs@.take(subs@.len() as int) == subs@);
}

fn feature_temps_into(out: &mut Vec<i64>, features: &Vec<FeatureInfo>, temp: &Vec<char>)
    requires
        temp@ == "temp"@,
    ensures
        final(out)@ == old(out)@ + feature_temps(features@),
{
    let ghost start = out@;
    let mut j: usize = 0;
    while j < features.len()
        invariant
            j <= features@.len(),
            temp@ == "temp"@,
            out@ == start + feature_temps(features@.take(j as int)),
        decreases features@.len() - j,
    {
        let f = &features[j];
        assert(features@.take(j + 1).drop_last() == features@.take(j as int));
        assert(features@.take(j + 1).last() == *f);
        sub_feature_temps_into(out, &f.sub_features, temp);
        assert(out@ =~= start + feature_temps(features@.take(j + 1)));
        j = j + 1;
    }
    assert(features@.take(features@.len() as int) == features@);
}

/// Every temperature value in a snapshot, in order.
pub fn temperature_readings(r: &SensorReadings) -> (t: Vec<i64>)
    ensures
        t@ == temperatures(*r),
{
    let temp = chars_of("temp");
    let mut out: Vec<i64> = Vec::new();
    let mut i: usize = 0;
    while i < r.devices.len()
        invariant
            i <= r.devices@.len(),
            temp@ == "temp"@,
            out@ == device_temps(r.devices@.take(i as int)),
        decreases r.devices@.len() - i,
    {
        let d = &r.devices[i];
        assert(r.devices@.take(i + 1).drop_last() == r.devices@.take(i as int));
        assert(r.devices@.take(i + 1).last() == *d);
        feature_temps_into(&mut out, &d.features, &temp);
        i = i + 1;
    }
    assert(r.devices@.take(r.devices@.len() as int) == r.devices@);
    out
}

/// Whether any temperature reading crosses the condition's thresholds.
pub fn check_temp(r: &SensorReadings, cond: &WebhookCondition) -> (b: bool)
    ensures
        b == any_crossing(*r, *cond),
{
    let t = temperature_readings(r);
    let mut i: usize = 0;
    while i < t.len()
        invariant
            i <= t@.len(),
            t@ == temperatures(*r),
            forall|k: int| 0 <= k < i ==> !crosses(#[trigger] t@[k], *cond),
        decreases t@.len() - i,
    {
        let v = t[i];
        match cond.above_micro_celsius {
            Some(above) => if v > above {
                assert(crosses(t@[i as int], *cond));
                return true;
            },
            None => {},
        }
        match cond.below_micro_celsius {
            Some(below) => if v < below {
                assert(crosses(t@[i as int], *cond));
                return true;
            },
            None => {},
        }
        i = i + 1;
    }
    false
}

proof fn lemma_total_step(s: Seq<i64>, i: int)
    requires
        0 <= i < s.len(),
    ensures
        total(s.take(i + 1)) == total(s.take(i)) + s[i],
{
    assert(s.take(i + 1).drop_last() == s.take(i));
}

/// The average of a sequence of values, as a whole part and a remainder:
/// `total == whole * len + rem` with `0 <= rem < len`.
fn average_parts(t: &Vec<i64>) -> (parts: (i64, u64))
    requires
        t@.len() > 0,
    ensures
        total(t@) == (parts.0 as int) * (t@.len() as int) + (parts.1 as int),
        (parts.1 as int) < t@.len(),
{
    let n = t.len();
    let mut acc: i128 = 0;
    let mut i: usize = 0;
    while i < n
        invariant
            n == t@.len(),
            i <= n,
            acc == total(t@.take(i as int)),
            -(i as int) * 0x8000_0000_0000_0000 <= acc <= (i as int) * 0x7fff_ffff_ffff_ffff,
        decreases n - i,
    {
        proof {
            lemma_total_step(t@, i as int);
            assert((i + 1) * 0x8000_0000_0000_0000 <= 0x1_0000_0000_0000_0000 * 0x8000_0000_0000_0000)
                by (nonlinear_arith)
                requires
                    i < n,
                    n <= 0xffff_ffff_ffff_ffff,
            ;
        }
        acc = acc + t[i] as i128;
        i = i + 1;
    }
    assert(t@.take(n as int) == t@);
    let nn = n as i128;
    let q: i128 = if acc >= 0 {
        acc / nn
    } else {
        let a: u128 = (-acc) as u128 + (n as u128) - 1;
        let d: u128 = a / (n as u128);
        assert(d <= 0x8000_0000_0000_0000) by (nonlinear_arith)
            requires
                n > 0,
                a <= (n as int) * 0x8000_0000_0000_0000 + n - 1,
                d == a / (n as u128),
        ;
        -(d as i128)
    };
    let ghost r = acc - q * nn;
    proof {
        if acc >= 0 {
            assert(0 <= r < nn) by (nonlinear_arith)
                requires
                    acc >= 0,
                    nn > 0,
                    q == acc / nn,
                    r == acc - q * nn,
            ;
        } else {
            let a: int = -acc + nn - 1;
            let p: int = a / (nn as int);
            assert(((-acc) as u128 + (n as u128) - 1) as int == a);
            assert(0 <= r < nn) by (nonlinear_arith)
                requires
                    acc < 0,
                    nn > 0,
                    a == -acc + nn - 1,
                    p == a / (nn as int),
                    q == -p,
                    r == acc - q * nn,
            ;
        }
        assert(-0x8000_0000_0000_0000 <= q <= 0x7fff_ffff_ffff_ffff) by (nonlinear_arith)
            requires
                nn > 0,
                -nn * 0x8000_0000_0000_0000 <= acc <= nn * 0x7fff_ffff_ffff_ffff,
                q * nn <= acc,
                acc < q * nn + nn,
        ;
        assert(-0x8000_0000_0000_0000_0000_0000_0000_0000 <= q * nn <= 0x7fff_ffff_ffff_ffff_ffff_ffff_ffff_ffff)
            by (nonlinear_arith)
            requires
                -0x8000_0000_0000_0000 <= q <= 0x7fff_ffff_ffff_ffff,
                0 < nn <= 0xffff_ffff_ffff_ffff,
        ;
    }
    let rem: i128 = acc - q * nn;
    (q as i64, rem as u64)
}

/// The exact average temperature; `None` without temperature readings.
pub fn avg_temp(r: &SensorReadings) -> (a: Option<Average>)
    ensures
        opt_average(a) == average_temperature(*r),
{
    let t = temperature_readings(r);
    if t.len() > 0 {
        let (whole, rem) = average_parts(&t);
        Some(Average { whole, rem, count: t.len() as u64 })
    } else {
        None
    }
}

/// The `on_change` rule on two averages (see [`changed_enough`]).
pub fn on_change_fires(last: Option<Average>, current: Option<Average>) -> (b: bool)
    ensures
        b == changed_enough(opt_average(last), opt_average(current)),
{
    match (last, current) {
        (None, Some(_)) => true,
        (None, None) => false,
        (Some(l), Some(c)) => exceeds(c, l, ON_CHANGE_THRESHOLD_MICRO) || exceeds(l, c, ON_CHANGE_THRESHOLD_MICRO),
        (Some(_), None) => false,
    }
}

/// Whether a webhook fires on this tick (see [`fires`]).
pub fn should_fire(wh: &WebhookConfig, r: &SensorReadings, last: Option<Average>) -> (b: bool)
    ensures
        b == fires(*wh, *r, opt_average(last)),
{
    match wh.trigger {
        WebhookTrigger::Always => true,
        WebhookTrigger::Temperature => match &wh.condition {
            Some(c) => check_temp(r, c),
            None => true,
        },
        WebhookTrigger::OnChange => {
            let cur = avg_temp(r);
            on_change_fires(last, cur)
        },
    }
}

/// What a webhook remembers after a tick (see [`remembered`]).
pub fn record_delivery(last: Option<Average>, delivered: bool, r: &SensorReadings) -> (next: Option<Average>)
    ensures
        opt_average(next) == remembered(opt_average(last), delivered, *r),
{
    if delivered {
        match avg_temp(r) {
            Some(a) => Some(a),
            None => Some(Average::from_micro(0)),
        }
    } else {
        last
    }
}

/// Seconds the scheduler waits before looking at the config again: 10 when no
/// webhook is configured, else 60 (after starting one task per webhook).
pub fn scheduler_pause_seconds(webhooks: &Vec<WebhookConfig>) -> (s: u64)
    ensures
        s == if webhooks@.len() == 0 { 10u64 } else { 60u64 },
{
    if webhooks.len() == 0 {
        10
    } else {
        60
    }
}

/// The pause between a webhook's attempts, in milliseconds: its interval in
/// seconds, or 1 ms for an interval of 0 (fire at once and keep firing),
/// saturating at the largest value.
pub open spec fn hook_period(interval_seconds: u64) -> int {
    if interval_seconds == 0 {
        1
    } else if interval_seconds * 1000 > u64::MAX {
        u64::MAX as int
    } else {
        interval_seconds * 1000
    }
}

/// A webhook's timer period in milliseconds (see [`hook_period`]).
pub fn webhook_period_ms(interval_seconds: u64) -> (p: u64)
    ensures
        p as int == hook_period(interval_seconds),
        p > 0,
{
    if interval_seconds == 0 {
        1
    } else {
        if interval_seconds > u64::MAX / 1000 {
            u64::MAX
        } else {
            interval_seconds * 1000
        }
    }
}

/// The HTTP request a webhook sends: the configured method, to the configured
/// URL, with the configured `Content-Type`, and the sensor snapshot as its body.
/// (The webhook's extra headers are added as they come from its header map.)
#[derive(Debug, Clone)]
pub struct WebhookRequest {
    /// HTTP method.
    pub method: String,
    /// Target URL.
    pub url: String,
    /// Value of the `Content-Type` header.
    pub content_type: String,
}

/// The request a webhook sends (see [`WebhookRequest`]).
pub fn webhook_request(wh: &WebhookConfig) -> (req: WebhookRequest)
    ensures
        req.method@ == wh.method@,
        req.url@ == wh.url@,
        req.content_type@ == wh.content_type@,
{
    WebhookRequest { method: wh.method.clone(), url: wh.url.clone(), content_type: wh.content_type.clone() }
}

/// The names of webhooks, in order.
pub open spec fn hook_names(ws: Seq<WebhookConfig>) -> Seq<Seq<char>> {
    ws.map_values(|w: WebhookConfig| w.name@)
}

/// The positions of the configured webhooks that need a task of their own:
/// those whose name no running task has and no earlier webhook has.
pub open spec fn to_start(running: Seq<Seq<char>>, configured: Seq<WebhookConfig>) -> Seq<int>
    decreases configured.len(),
{
    if configured.len() == 0 {
        Seq::empty()
    } else {
        let n = configured.len() - 1;
        let before = to_start(running, configured.drop_last());
        let name = configured.last().name@;
        if running.contains(name) || hook_names(configured.drop_last()).contains(name) {
            before
        } else {
            before.push(n)
        }
    }
}

/// The positions of the running tasks whose webhook is no longer configured.
pub open spec fn to_stop(running: Seq<Seq<char>>, configured: Seq<WebhookConfig>) -> Seq<int>
    decreases running.len(),
{
    if running.len() == 0 {
        Seq::empty()
    } else {
        let before = to_stop(running.drop_last(), configured);
        if hook_names(configured).contains(running.last()) {
            before
        } else {
            before.push(running.len() - 1)
        }
    }
}

/// Whether one of the first `upto` webhooks is named `name`.
fn named_before(configured: &Vec<WebhookConfig>, upto: usize, name: &String) -> (b: bool)
    requires
        upto <= configured@.len(),
    ensures
        b == hook_names(configured@.take(upto as int)).contains(name@),
{
    let ghost names = hook_names(configured@.take(upto as int));
    let mut j: usize = 0;
    while j < upto
        invariant
            upto <= configured@.len(),
            j <= upto,
            names == hook_names(configured@.take(upto as int)),
            forall|k: int| 0 <= k < j ==> #[trigger] names[k] != name@,
        decreases upto - j,
    {
        if configured[j].name == *name {
            assert(names[j as int] == name@);
            return true;
        }
        j = j + 1;
    }
    false
}

/// Which configured webhooks need a task (see [`to_start`]), given the names
/// of the webhooks whose tasks are running.
pub fn webhooks_to_start(running: &Vec<String>, configured: &Vec<WebhookConfig>) -> (r: Vec<usize>)
    ensures
        r@.map_values(|i: usize| i as int) == to_start(texts(running@), configured@),
{
    let mut r: Vec<usize> = Vec::new();
    let mut i: usize = 0;
    while i < configured.len()
        invariant
            i <= configured@.len(),
            r@.map_values(|k: usize| k as int) == to_start(texts(running@), configured@.take(i as int)),
        decreases configured@.len() - i,
    {
        let ghost prefix = configured@.take(i + 1);
        assert(prefix.drop_last() == configured@.take(i as int));
        assert(prefix.last() == configured@[i as int]);
        let name = &configured[i].name;
        let running_already = contains_text(running, name);
        let earlier = named_before(configured, i, name);
        if !running_already && !earlier {
            r.push(i);
        }
        assert(r@.map_values(|k: usize| k as int) =~= to_start(texts(running@), prefix));
        i = i + 1;
    }
    assert(configured@.take(configured@.len() as int) == configured@);
    r
}

/// Which running tasks to stop (see [`to_stop`]): those whose webhook is no
/// longer configured.
pub fn webhooks_to_stop(running: &Vec<String>, configured: &Vec<WebhookConfig>) -> (r: Vec<usize>)
    ensures
        r@.map_values(|i: usize| i as int) == to_stop(texts(running@), configured@),
{
    let mut r: Vec<usize> = Vec::new();
    let mut i: usize = 0;
    while i < running.len()
        invariant
            i <= running@.len(),
            r@.map_values(|k: usize| k as int) == to_stop(texts(running@.take(i as int)), configured@),
        decreases running@.len() - i,
    {
        assert(texts(running@.take(i + 1)).drop_last() =~= texts(running@.take(i as int)));
        assert(texts(running@.take(i + 1)).last() == running@[i as int]@);
        let configured_still = named_before(configured, configured.len(), &running[i]);
        assert(configured@.take(configured@.len() as int) == configured@);
        if !configured_still {
            r.push(i);
        }
        assert(r@.map_values(|k: usize| k as int) =~= to_stop(texts(running@.take(i + 1)), configured@));
        i = i + 1;
    }
    assert(running@.take(running@.len() as int) == running@);
    r
}

// ── Laws ────────────────────────────────────────────────────────────

/// An `always` webhook fires on every tick, whatever the readings.
pub proof fn lemma_always_fires(wh: WebhookConfig, r: SensorReadings, last: Option<(int, nat)>)
    requires
        wh.trigger == WebhookTrigger::Always,
    ensures
        fires(wh, r, last),
{
}

/// A `temperature` webhook without a condition fires on every tick.
pub proof fn lemma_unconditional_temperature_fires(wh: WebhookConfig, r: SensorReadings, last: Option<(int, nat)>)
    requires
        wh.trigger == WebhookTrigger::Temperature,
        wh.condition is None,
    ensures
        fires(wh, r, last),
{
}

/// An `on_change` webhook with nothing delivered yet fires exactly when the
/// readings hold a temperature.
pub proof fn lemma_first_change_fires(wh: WebhookConfig, r: SensorReadings)
    requires
        wh.trigger == WebhookTrigger::OnChange,
    ensures
        fires(wh, r, None) == (temperatures(r).len() > 0),
{
}

/// Right after a delivery, an `on_change` webhook does not fire again on the same readings.
pub proof fn lemma_no_change_after_delivery(
    wh: WebhookConfig,
    r: SensorReadings,
    last: Option<(int, nat)>,
    next: (int, nat),
)
    requires
        wh.trigger == WebhookTrigger::OnChange,
        remembered(last, true, r) == Some(next),
    ensures
        !fires(wh, r, Some(next)),
{
    let n = next.1 as int;
    assert(ON_CHANGE_THRESHOLD_MICRO * n * n >= 0) by (nonlinear_arith);
}

/// With no temperature reading there is no average, and a `temperature`
/// webhook with a condition does not fire.
pub proof fn lemma_no_temperatures(wh: WebhookConfig, r: SensorReadings, last: Option<(int, nat)>)
    requires
        temperatures(r).len() == 0,
        wh.trigger == WebhookTrigger::Temperature,
        wh.condition is Some,
    ensures
        average_temperature(r) is None,
        !fires(wh, r, last),
{
}

/// After the scheduler starts the tasks [`to_start`] names, every configured
/// webhook has exactly one task: each started webhook is new, no two started
/// webhooks share a name, and every configured name is running or started.
pub proof fn lemma_one_task_per_webhook(running: Seq<Seq<char>>, configured: Seq<WebhookConfig>)
    ensures
        forall|k: int|
            0 <= k < to_start(running, configured).len() ==> {
                let i = #[trigger] to_start(running, configured)[k];
                &&& 0 <= i < configured.len()
                &&& !running.contains(configured[i].name@)
            },
        forall|k1: int, k2: int|
            0 <= k1 < k2 < to_start(running, configured).len() ==> configured[#[trigger] to_start(
                running,
                configured,
            )[k1]].name@ != configured[#[trigger] to_start(running, configured)[k2]].name@,
        forall|i: int|
            0 <= i < configured.len() ==> running.contains(#[trigger] configured[i].name@) || exists|k: int|
                0 <= k < to_start(running, configured).len() && configured[#[trigger] to_start(
                    running,
                    configured,
                )[k]].name@ == configured[i].name@,
    decreases configured.len(),
{
    if configured.len() > 0 {
        let c0 = configured.drop_last();
        let n = configured.len() - 1;
        let name = configured.last().name@;
        lemma_one_task_per_webhook(running, c0);
        let ts0 = to_start(running, c0);
        let ts = to_start(running, configured);
        assert(forall|i: int| 0 <= i < c0.len() ==> #[trigger] c0[i] == configured[i]);
        assert(forall|i: int| 0 <= i < c0.len() ==> #[trigger] hook_names(c0)[i] == c0[i].name@);
        if running.contains(name) || hook_names(c0).contains(name) {
            assert(ts == ts0);
            assert forall|i: int| 0 <= i < configured.len() implies running.contains(
                #[trigger] configured[i].name@,
            ) || exists|k: int| 0 <= k < ts.len() && configured[#[trigger] ts[k]].name@ == configured[i].name@ by {
                if i == n && !running.contains(name) {
                    let j = choose|j: int| 0 <= j < hook_names(c0).len() && hook_names(c0)[j] == name;
                    assert(c0[j].name@ == name);
                    assert(configured[j].name@ == name);
                } else if i < n {
                    assert(c0[i] == configured[i]);
                }
            }
        } else {
            assert(ts == ts0.push(n));
            assert forall|k: int| 0 <= k < ts0.len() implies #[trigger] configured[ts0[k]].name@ != name by {
                let i = ts0[k];
                assert(hook_names(c0)[i] == c0[i].name@);
            }
            assert forall|k1: int, k2: int| 0 <= k1 < k2 < ts.len() implies configured[#[trigger] ts[k1]].name@
                != configured[#[trigger] ts[k2]].name@ by {
                if k2 < ts0.len() {
                    assert(ts[k1] == ts0[k1]);
                    assert(ts[k2] == ts0[k2]);
                } else {
                    assert(ts[k1] == ts0[k1]);
                    assert(ts[k2] == n);
                }
            }
            assert forall|i: int| 0 <= i < configured.len() implies running.contains(
                #[trigger] configured[i].name@,
            ) || exists|k: int| 0 <= k < ts.len() && configured[#[trigger] ts[k]].name@ == configured[i].name@ by {
                if i == n {
                    assert(ts[ts0.len() as int] == n);
                } else {
                    assert(c0[i] == configured[i]);
                    if !running.contains(configured[i].name@) {
                        let k = choose|k: int| 0 <= k < ts0.len() && c0[#[trigger] ts0[k]].name@ == c0[i].name@;
                        assert(ts[k] == ts0[k]);
                    }
                }
            }
        }
    }
}

/// A temperature below the `below` threshold makes a `temperature` webhook
/// fire, whether or not an `above` threshold is set; likewise a temperature
/// above the `above` threshold, whether or not a `below` threshold is set.
pub proof fn lemma_each_threshold_fires(wh: WebhookConfig, r: SensorReadings, last: Option<(int, nat)>, i: int)
    requires
        wh.trigger == WebhookTrigger::Temperature,
        wh.condition is Some,
        0 <= i < temperatures(r).len(),
    ensures
        ({
            let c = wh.condition->0;
            let v = temperatures(r)[i];
            (c.below_micro_celsius is Some && v < c.below_micro_celsius->0) ==> fires(wh, r, last)
        }),
        ({
            let c = wh.condition->0;
            let v = temperatures(r)[i];
            (c.above_micro_celsius is Some && v > c.above_micro_celsius->0) ==> fires(wh, r, last)
        }),
{
    let c = wh.condition->0;
    let v = temperatures(r)[i];
    if (c.below_micro_celsius is Some && v < c.below_micro_celsius->0) || (c.above_micro_celsius is Some && v
        > c.above_micro_celsius->0) {
        assert(crosses(temperatures(r)[i], c));
    }
}

/// A `temperature` webhook with a condition stays quiet exactly when every
/// temperature lies within the thresholds that are set (both ends included).
pub proof fn lemma_within_thresholds_quiet(wh: WebhookConfig, r: SensorReadings, last: Option<(int, nat)>)
    requires
        wh.trigger == WebhookTrigger::Temperature,
        wh.condition is Some,
    ensures
        !fires(wh, r, last) <==> forall|i: int|
            0 <= i < temperatures(r).len() ==> {
                let c = wh.condition->0;
                let v = #[trigger] temperatures(r)[i];
                &&& (c.above_micro_celsius is Some ==> v <= c.above_micro_celsius->0)
                &&& (c.below_micro_celsius is Some ==> v >= c.below_micro_celsius->0)
            },
{
    let c = wh.condition->0;
    if fires(wh, r, last) {
        let i = choose|i: int| 0 <= i < temperatures(r).len() && crosses(#[trigger] temperatures(r)[i], c);
        assert(crosses(temperatures(r)[i], c));
    } else {
        assert forall|i: int| 0 <= i < temperatures(r).len() implies {
            let v = #[trigger] temperatures(r)[i];
            &&& (c.above_micro_celsius is Some ==> v <= c.above_micro_celsius->0)
            &&& (c.below_micro_celsius is Some ==> v >= c.below_micro_celsius->0)
        } by {
            if !crosses(temperatures(r)[i], c) {
            } else {
                assert(any_crossing(r, c));
            }
        }
    }
}

} // verus!
