use codenotch::cursor::{
    decode_reply, fetch_grok_bot, parse_iso, parse_sand, parse_summary, Share, WindowPlan,
};
use codenotch::json::{Json, JsonNumber};
use codenotch::token::{b64url_decode, jwt_sub};
use serde_json::Value;

fn b64url_encode(data: &[u8]) -> String {
    const T: &[u8; 64] = b"ABCDEFGHIJKLMNOPQRSTUVWXYZabcdefghijklmnopqrstuvwxyz0123456789-_";
    let mut out = String::new();
    for chunk in data.chunks(3) {
        let mut acc: u32 = 0;
        for (j, &b) in chunk.iter().enumerate() {
            acc |= (b as u32) << (16 - 8 * j as u32);
        }
        for j in 0..=chunk.len() {
            out.push(T[((acc >> (18 - 6 * j as u32)) & 0x3f) as usize] as char);
        }
    }
    out
}

fn object(entries: Vec<(&str, Value)>) -> Value {
    let mut m = serde_json::Map::new();
    for (k, v) in entries {
        m.insert(k.to_string(), v);
    }
    Value::Object(m)
}

fn fake_jwt(payload: Value) -> String {
    format!(
        "{}.{}.sig",
        b64url_encode(object(vec![("alg", Value::from("RS256"))]).to_string().as_bytes()),
        b64url_encode(payload.to_string().as_bytes())
    )
}

fn reply(v: &Value) -> Json {
    decode_reply(v.to_string().as_bytes()).unwrap()
}

fn number(n: &JsonNumber) -> f64 {
    match n {
        JsonNumber::PosInt(u) => *u as f64,
        JsonNumber::NegInt(i) => *i as f64,
        JsonNumber::Float(b) => f64::from_bits(*b),
    }
}

/// The used fraction of a window, as the app computes it.
fn used(w: &WindowPlan) -> f64 {
    match &w.used {
        Share::Percent(p) => (number(p) / 100.0).clamp(0.0, 1.0),
        Share::Ratio { used, limit } => (number(used) / number(limit)).clamp(0.0, 1.0),
    }
}

#[test]
fn jwt_sub_reads_auth0_subject() {
    let tok = fake_jwt(object(vec![("sub", Value::from("auth0|user_ABC123")), ("exp", Value::from(1))]));
    assert_eq!(jwt_sub(&tok).as_deref(), Some("auth0|user_ABC123"));
}

#[test]
fn jwt_sub_rejects_garbage() {
    assert_eq!(jwt_sub("not-a-jwt"), None);
    assert_eq!(jwt_sub(""), None);
    let no_sub = fake_jwt(object(vec![("exp", Value::from(1))]));
    assert_eq!(jwt_sub(&no_sub), None);
}

#[test]
fn summary_prefers_auto_over_blended_total() {
    let v = object(vec![
        ("billingCycleEnd", Value::from("2026-10-01T00:00:00Z")),
        (
            "individualUsage",
            object(vec![(
                "plan",
                object(vec![
                    ("autoPercentUsed", Value::from(20.0)),
                    ("totalPercentUsed", Value::from(25.0)),
                    ("apiPercentUsed", Value::from(100.0)),
                ]),
            )]),
        ),
    ]);
    let (w, _) = parse_summary(&reply(&v));
    assert_eq!(w[0].label, "Auto usage");
    assert!((used(&w[0]) - 0.20).abs() < 1e-9);
    assert_eq!(w[1].label, "API usage");
}

#[test]
fn sand_maps_weekly_window() {
    let v = object(vec![
        ("usagePercent", Value::from(41.5)),
        ("currentPeriodStart", Value::from("2026-09-08T00:00:00Z")),
        ("nextResetTimestampUtc", Value::from("2026-09-15T00:00:00Z")),
    ]);
    let w = parse_sand(&reply(&v)).unwrap();
    assert_eq!(w.label, "Grok Bot");
    assert!((used(&w) - 0.415).abs() < 1e-9);
    assert!(w.resets_at.is_some());
}

#[test]
fn sand_hides_pooled_and_no_allowance() {
    let pooled = object(vec![("usagePercent", Value::from(10.0)), ("usesPooledEnterpriseAllowance", Value::from(true))]);
    assert!(parse_sand(&reply(&pooled)).is_none());
    let zero = object(vec![("usagePercent", Value::from(10.0)), ("includedLimitZero", Value::from(true))]);
    assert!(parse_sand(&reply(&zero)).is_none());
    let no_pct = object(vec![("nextResetTimestampUtc", Value::from("2026-09-15T00:00:00Z"))]);
    assert!(parse_sand(&reply(&no_pct)).is_none());
}

#[test]
fn summary_enterprise_overall_used_limit() {
    let v = object(vec![
        ("membershipType", Value::from("enterprise")),
        (
            "individualUsage",
            object(vec![
                ("plan", object(vec![])),
                ("overall", object(vec![("used", Value::from(6907.0)), ("limit", Value::from(45000.0))])),
            ]),
        ),
    ]);
    let (w, note) = parse_summary(&reply(&v));
    assert_eq!(w.len(), 1);
    assert!((used(&w[0]) - 6907.0 / 45000.0).abs() < 1e-9);
    assert!(note.is_empty());
}

#[test]
fn summary_zero_percent_is_a_reading() {
    let v = object(vec![(
        "individualUsage",
        object(vec![("plan", object(vec![("autoPercentUsed", Value::from(0)), ("apiPercentUsed", Value::from(0))]))]),
    )]);
    let (w, note) = parse_summary(&reply(&v));
    assert_eq!(w.len(), 1);
    assert_eq!(w[0].id, "auto");
    assert_eq!(used(&w[0]), 0.0);
    assert_eq!(w[0].resets_at, None);
    assert!(note.is_empty());
}

#[test]
fn summary_falls_back_to_total() {
    let v = object(vec![(
        "individualUsage",
        object(vec![("plan", object(vec![("totalPercentUsed", Value::from(150))]))]),
    )]);
    let (w, _) = parse_summary(&reply(&v));
    assert_eq!(w.len(), 1);
    assert_eq!(w[0].id, "included");
    assert_eq!(w[0].label, "Included usage");
    assert_eq!(used(&w[0]), 1.0);
}

#[test]
fn summary_on_demand_needs_enabled_positive_limit() {
    let make = |enabled: bool, limit: f64| {
        object(vec![(
            "individualUsage",
            object(vec![(
                "onDemand",
                object(vec![
                    ("enabled", Value::from(enabled)),
                    ("used", Value::from(5.0)),
                    ("limit", Value::from(limit)),
                ]),
            )]),
        )])
    };
    let (w, _) = parse_summary(&reply(&make(true, 20.0)));
    assert_eq!(w.len(), 1);
    assert_eq!(w[0].label, "On demand");
    assert_eq!(used(&w[0]), 0.25);
    assert!(parse_summary(&reply(&make(false, 20.0))).0.is_empty());
    assert!(parse_summary(&reply(&make(true, 0.0))).0.is_empty());
}

#[test]
fn summary_notes_when_nothing_to_meter() {
    let unlimited = object(vec![("membershipType", Value::from("pro")), ("isUnlimited", Value::from(true))]);
    let (w, note) = parse_summary(&reply(&unlimited));
    assert!(w.is_empty());
    assert_eq!(note, "Unlimited on the pro plan \u{2014} nothing to meter");
    let free = object(vec![("individualUsage", object(vec![("plan", object(vec![]))]))]);
    let (w, note) = parse_summary(&reply(&free));
    assert!(w.is_empty());
    assert_eq!(note, "The this plan has nothing for Cursor to meter yet");
}

#[test]
fn summary_resets_at_billing_cycle_end() {
    let v = object(vec![
        ("billingCycleEnd", Value::from("2026-10-01T00:00:00Z")),
        ("individualUsage", object(vec![("plan", object(vec![("autoPercentUsed", Value::from(1))]))])),
    ]);
    let (w, _) = parse_summary(&reply(&v));
    assert_eq!(w[0].resets_at, Some(1_790_812_800_000));
}

#[test]
fn iso_times_clamp_before_epoch() {
    let j = reply(&Value::from("1969-12-31T23:59:59Z"));
    assert_eq!(parse_iso(Some(&j)), Some(0));
    let j = reply(&Value::from("1970-01-01T00:00:01+01:00"));
    assert_eq!(parse_iso(Some(&j)), Some(0));
    let j = reply(&Value::from("2026-09-15T00:00:00Z"));
    assert_eq!(parse_iso(Some(&j)), Some(1_789_430_400_000));
    let j = reply(&Value::from("not a time"));
    assert_eq!(parse_iso(Some(&j)), None);
    assert_eq!(parse_iso(None), None);
}

#[test]
fn sand_needs_non_negative_percent() {
    let neg = object(vec![("usagePercent", Value::from(-1.0))]);
    assert!(parse_sand(&reply(&neg)).is_none());
    let no_limit = object(vec![("usagePercent", Value::from(3)), ("hasNonZeroIncludedLimit", Value::from(false))]);
    assert!(parse_sand(&reply(&no_limit)).is_none());
    let over = object(vec![("usagePercent", Value::from(250))]);
    let w = parse_sand(&reply(&over)).unwrap();
    assert_eq!(w.id, "grok_bot");
    assert_eq!(used(&w), 1.0);
    assert_eq!(w.resets_at, None);
}

#[test]
fn grok_bot_failure_gives_no_window() {
    assert!(fetch_grok_bot(Err("HTTP 500".to_string())).is_none());
    let ok = object(vec![("usagePercent", Value::from(7))]);
    assert!(fetch_grok_bot(Ok(reply(&ok))).is_some());
}

#[test]
fn reply_that_is_no_json_is_a_parse_error() {
    let e = decode_reply(b"<html>").unwrap_err();
    assert!(e.starts_with("parse: Failed to read JSON: "));
    assert!(e.len() > "parse: Failed to read JSON: ".len());
}

#[test]
fn b64url_decodes_without_padding() {
    assert_eq!(b64url_decode("aGVsbG8").unwrap(), b"hello");
    assert_eq!(b64url_decode("aGVsbG8=").unwrap(), b"hello");
    assert_eq!(b64url_decode("aGVsbA").unwrap(), b"hell");
    assert_eq!(b64url_decode("-_-_").unwrap(), vec![0xfb, 0xff, 0xbf]);
    assert_eq!(b64url_decode("").unwrap(), Vec::<u8>::new());
    assert_eq!(b64url_decode("a"), None);
    assert_eq!(b64url_decode("aGVsb"), None);
    assert_eq!(b64url_decode("aG+s"), None);
    assert_eq!(b64url_decode("a=Gs"), None);
}

#[test]
fn b64url_roundtrip_on_all_bytes() {
    let data: Vec<u8> = (0..=255u8).collect();
    for n in 0..data.len() {
        assert_eq!(b64url_decode(&b64url_encode(&data[..n])).unwrap(), &data[..n]);
    }
}

#[test]
fn jwt_sub_rejects_empty_and_non_text_subject() {
    assert_eq!(jwt_sub(&fake_jwt(object(vec![("sub", Value::from(""))]))), None);
    assert_eq!(jwt_sub(&fake_jwt(object(vec![("sub", Value::from(42))]))), None);
    assert_eq!(jwt_sub("a.%%%.b"), None);
    let one_segment = format!("x.{}", b64url_encode(object(vec![("sub", Value::from("u1"))]).to_string().as_bytes()));
    assert_eq!(jwt_sub(&one_segment).as_deref(), Some("u1"));
}

#[test]
fn api_row_listed_when_percent_above_zero() {
    for bits in [1u64, 50, 51, 52, 0x3ff0_0000_0000_0000] {
        let p = f64::from_bits(bits);
        let v = object(vec![(
            "individualUsage",
            object(vec![("plan", object(vec![("autoPercentUsed", Value::from(1)), ("apiPercentUsed", Value::from(p))]))]),
        )]);
        let (w, _) = parse_summary(&reply(&v));
        assert_eq!(w.len() == 2, p > 0.0, "bits {bits}");
        assert_eq!(w[1].id, "api");
    }
    let zero = object(vec![("individualUsage", object(vec![("plan", object(vec![("apiPercentUsed", Value::from(0.0))]))]))]);
    assert!(parse_summary(&reply(&zero)).0.is_empty());
    let neg = object(vec![("individualUsage", object(vec![("plan", object(vec![("apiPercentUsed", Value::from(-5))]))]))]);
    assert!(parse_summary(&reply(&neg)).0.is_empty());
}

#[test]
fn summary_ids_in_order_without_repeats() {
    let v = object(vec![
        ("billingCycleEnd", Value::from("2026-10-01T00:00:00Z")),
        (
            "individualUsage",
            object(vec![
                (
                    "plan",
                    object(vec![
                        ("autoPercentUsed", Value::from(5)),
                        ("totalPercentUsed", Value::from(7)),
                        ("apiPercentUsed", Value::from(3)),
                    ]),
                ),
                ("onDemand", object(vec![("enabled", Value::from(true)), ("limit", Value::from(10)), ("used", Value::from(2))])),
                ("overall", object(vec![("used", Value::from(1)), ("limit", Value::from(2))])),
            ]),
        ),
    ]);
    let (w, note) = parse_summary(&reply(&v));
    let ids: Vec<&str> = w.iter().map(|x| x.id.as_str()).collect();
    assert_eq!(ids, vec!["auto", "api", "on_demand"]);
    assert!(note.is_empty());
    let r = parse_iso(Some(&reply(&Value::from("2026-10-01T00:00:00Z"))));
    assert!(w.iter().all(|x| x.resets_at == r));
}

#[test]
fn overall_ignored_when_something_is_metered() {
    let with_overall = |overall: Value| {
        object(vec![(
            "individualUsage",
            object(vec![("plan", object(vec![("totalPercentUsed", Value::from(40))])), ("overall", overall)]),
        )])
    };
    let a = parse_summary(&reply(&with_overall(object(vec![("used", Value::from(1.0)), ("limit", Value::from(2.0))]))));
    let b = parse_summary(&reply(&with_overall(Value::Null)));
    assert_eq!(a.0.len(), 1);
    assert_eq!(b.0.len(), 1);
    assert_eq!(a.0[0].id, b.0[0].id);
    assert_eq!(a.0[0].used, b.0[0].used);
    assert_eq!(a.1, b.1);
}

#[test]
fn b64url_failures_and_lengths() {
    assert_eq!(b64url_decode("QUJD"), Some(b"ABC".to_vec()));
    assert_eq!(b64url_decode("QUI"), Some(b"AB".to_vec()));
    assert_eq!(b64url_decode("QQ=="), Some(b"A".to_vec()));
    assert_eq!(b64url_decode("QUJDQ"), None);
    assert_eq!(b64url_decode("QU+D"), None);
    assert_eq!(b64url_decode(""), Some(Vec::new()));
    for n in 0..20usize {
        let data: Vec<u8> = (0..n as u8).collect();
        let e = b64url_encode(&data);
        assert_eq!(b64url_decode(&e).unwrap().len(), e.len() * 3 / 4);
    }
}

#[test]
fn parse_error_carries_the_parser_message() {
    assert_eq!(
        decode_reply(b"<html>").unwrap_err(),
        "parse: Failed to read JSON: expected value at line 1 column 1"
    );
}

#[test]
fn on_demand_listed_once_with_used_over_limit() {
    let make = |enabled: Value, used: Value, limit: Value| {
        object(vec![
            ("billingCycleEnd", Value::from("2026-10-01T00:00:00Z")),
            (
                "individualUsage",
                object(vec![
                    ("plan", object(vec![("autoPercentUsed", Value::from(10))])),
                    ("onDemand", object(vec![("enabled", enabled), ("used", used), ("limit", limit)])),
                ]),
            ),
        ])
    };
    let (w, _) = parse_summary(&reply(&make(Value::from(true), Value::from(3), Value::from(12))));
    let od: Vec<&WindowPlan> = w.iter().filter(|x| x.id == "on_demand").collect();
    assert_eq!(od.len(), 1);
    assert_eq!(od[0].label, "On demand");
    assert_eq!(used(od[0]), 0.25);
    assert_eq!(od[0].resets_at, w[0].resets_at);
    assert!(od[0].resets_at.is_some());
    for (e, u, l) in [
        (Value::from("true"), Value::from(3), Value::from(12)),
        (Value::from(true), Value::from("3"), Value::from(12)),
        (Value::from(true), Value::from(3), Value::from(-1)),
        (Value::Null, Value::from(3), Value::from(12)),
    ] {
        let (w, _) = parse_summary(&reply(&make(e, u, l)));
        assert!(w.iter().all(|x| x.id != "on_demand"));
    }
}
