use codenotch::cursor::{
    apply_reading, clamp_millis, decode_reply, fetch_error, fetch_failed, immutable_uri, log_line, persisted_status,
    present, probe, probe_summary, read_credentials, read_once, reading, reply_of, sand_error, session_missing, Creds,
    FetchErr, PollEvent, PollPhase, PollStep, Poller, ReadOutcome, Snapshot, WindowsChange, ABSENT_RECHECK_SECS,
    POLL_SECS,
};
use codenotch::json::{redact_shape, Json, JsonNumber};
use codenotch::token::sub_claim;
use serde_json::Value;

fn object(entries: Vec<(&str, Value)>) -> Value {
    let mut m = serde_json::Map::new();
    for (k, v) in entries {
        m.insert(k.to_string(), v);
    }
    Value::Object(m)
}

fn reply(v: &Value) -> Json {
    decode_reply(v.to_string().as_bytes()).unwrap()
}

fn b64url(data: &[u8]) -> String {
    const T: &[u8; 64] = b"ABCDEFGHIJKLMNOPQRSTUVWXYZabcdefghijklmnopqrstuvwxyz0123456789-_";
    let mut out = String::new();
    for chunk in data.chunks(3) {
        let mut acc: u32 = 0;
        for (j, &b) in chunk.iter().enumerate() {
            acc |= (b as u32) << (16 - 8 * j as u32);
        }
        for j in 0..=chunk.len() {
            out.push(T[((acc >> (18 - 6 * j as u32)) & 0x3f) as usize] as char);
        }
    }
    out
}

fn creds(plan: Option<&str>) -> Creds {
    Creds {
        cookie: "WorkosCursorSessionToken=u1::tok".to_string(),
        token: "tok".to_string(),
        plan: plan.map(|p| p.to_string()),
    }
}

#[test]
fn credentials_join_auth_id_and_token() {
    let c = read_credentials(Some("tok".into()), Some("user_1".into()), Some("pro".into())).unwrap();
    assert_eq!(c.cookie, "WorkosCursorSessionToken=user_1::tok");
    assert_eq!(c.token, "tok");
    assert_eq!(c.plan.as_deref(), Some("pro"));
    let c = read_credentials(Some("tok".into()), Some("user_1".into()), Some(String::new())).unwrap();
    assert_eq!(c.plan, None);
}

#[test]
fn credentials_fall_back_to_jwt_sub() {
    let payload = object(vec![("sub", Value::from("auth0|u9"))]).to_string();
    let token = format!("{}.{}.sig", b64url(b"{}"), b64url(payload.as_bytes()));
    let c = read_credentials(Some(token.clone()), Some(String::new()), None).unwrap();
    assert_eq!(c.cookie, format!("WorkosCursorSessionToken=auth0|u9::{}", token));
    assert!(read_credentials(Some("opaque".into()), None, None).is_none());
    assert!(read_credentials(None, Some("u".into()), None).is_none());
    assert!(read_credentials(Some(String::new()), Some("u".into()), None).is_none());
}

#[test]
fn probe_messages() {
    assert_eq!(probe(None, false, None, None), "Cursor: cannot locate %APPDATA%");
    assert_eq!(probe(Some("C:\\s.vscdb"), false, None, None), "Cursor: C:\\s.vscdb not found (not installed, or not signed in)");
    let c = creds(None);
    assert_eq!(probe(Some("p"), true, Some(&c), None), "Cursor: session borrowed (cookie 32 chars, plan=?)");
    let c = creds(Some("pro"));
    assert_eq!(probe(Some("p"), true, Some(&c), None), "Cursor: session borrowed (cookie 32 chars, plan=pro)");
    assert_eq!(
        probe(Some("p"), true, None, None),
        "Cursor: p exists but the session could not be borrowed \u{2014} SQLite failed to open"
    );
    assert_eq!(
        probe(Some("p"), true, None, Some((Some("t".to_string()), Some(String::new())))),
        "Cursor: p exists but the session could not be borrowed \u{2014} accessToken present, stripeMembershipAuthId missing (editor signed out?)"
    );
}

#[test]
fn probe_summary_messages() {
    assert_eq!(probe_summary(None), "Cursor summary: no session to borrow");
    assert_eq!(
        probe_summary(Some((Ok("{\"a\":1}".to_string()), Err("HTTP 404".to_string())))),
        "Cursor usage-summary shape: {\"a\":1}\n  Grok Bot (GetSandUsageStatus): HTTP 404"
    );
    assert_eq!(
        probe_summary(Some((Err(FetchErr::NeedsAuth), Ok("{}".to_string())))),
        "Cursor summary: session rejected (401/403)\n  Grok Bot (GetSandUsageStatus) shape: {}"
    );
    assert_eq!(
        probe_summary(Some((Err(FetchErr::Other("HTTP 500".to_string())), Ok("{}".to_string())))),
        "Cursor summary: HTTP 500\n  Grok Bot (GetSandUsageStatus) shape: {}"
    );
}

#[test]
fn redaction_keeps_only_lengths() {
    let v = object(vec![
        ("email", Value::from("me@example.com")),
        ("n", Value::from(3)),
        ("ok", Value::from(true)),
        ("list", Value::Array(vec![Value::from("a"), Value::from(1), Value::Null, Value::from("zz")])),
        ("nested", object(vec![("token", Value::from("\u{e9}t\u{e9}"))])),
    ]);
    let r = redact_shape(&reply(&v));
    let Json::Object(m) = &r else { panic!("not an object") };
    let keys: Vec<&str> = m.iter().map(|(k, _)| k.as_str()).collect();
    assert_eq!(keys, vec!["email", "list", "n", "nested", "ok"]);
    assert!(matches!(&m[0].1, Json::Str(s) if s == "<str:14>"));
    let Json::Array(items) = &m[1].1 else { panic!("not an array") };
    assert_eq!(items.len(), 3);
    assert!(matches!(&items[0], Json::Str(s) if s == "<str:1>"));
    assert!(matches!(&items[1], Json::Number(JsonNumber::PosInt(1))));
    assert!(matches!(&items[2], Json::Null));
    assert!(matches!(&m[2].1, Json::Number(JsonNumber::PosInt(3))));
    let Json::Object(inner) = &m[3].1 else { panic!("not an object") };
    assert!(matches!(&inner[0].1, Json::Str(s) if s == "<str:5>"));
    assert!(matches!(&m[4].1, Json::Bool(true)));
}

#[test]
fn fetch_errors() {
    assert!(matches!(fetch_error(401), FetchErr::NeedsAuth));
    assert!(matches!(fetch_error(403), FetchErr::NeedsAuth));
    assert!(matches!(fetch_error(500), FetchErr::Other(m) if m == "HTTP 500"));
    assert_eq!(sand_error(404), "HTTP 404");
}

#[test]
fn readings_without_reply() {
    let u = session_missing();
    assert_eq!(u.status, "needsAuth");
    assert_eq!(u.note, "Sign in to Cursor (the editor) to see usage.");
    assert!(matches!(u.windows, WindowsChange::Keep));
    let u = fetch_failed(true, FetchErr::NeedsAuth);
    assert_eq!(u.status, "needsAuth");
    assert_eq!(u.note, "Cursor session was rejected \u{2014} sign in again in the editor");
    let u = fetch_failed(true, FetchErr::Other("HTTP 502".to_string()));
    assert_eq!(u.status, "stale");
    assert_eq!(u.note, "HTTP 502");
    assert!(matches!(u.windows, WindowsChange::Keep));
    assert_eq!(u.fetched_at, None);
    assert_eq!(log_line(&u).as_deref(), Some("cursor: HTTP 502"));
    let u = fetch_failed(false, FetchErr::Other("HTTP 502".to_string()));
    assert_eq!(u.status, "error");
    assert_eq!(log_line(&session_missing()), None);
}

#[test]
fn reading_with_reply() {
    let summary = object(vec![
        ("membershipType", Value::from("pro")),
        ("individualUsage", object(vec![("plan", object(vec![("autoPercentUsed", Value::from(12.5))]))])),
    ]);
    let grok = object(vec![("usagePercent", Value::from(3))]);
    let u = read_once(&creds(Some("free")), &reply(&summary), Ok(reply(&grok)), 77);
    assert_eq!(u.status, "ok");
    assert_eq!(u.note, "Pro \u{b7} via Cursor");
    assert_eq!(u.fetched_at, Some(77));
    match &u.windows {
        WindowsChange::Replace(w) => {
            assert_eq!(w.len(), 2);
            assert_eq!(w[0].id, "auto");
            assert_eq!(w[1].id, "grok_bot");
        }
        other => panic!("unexpected {:?}", other),
    }
    // the Grok Bot fetch failing keeps the primary window
    let u = read_once(&creds(Some("business")), &reply(&object(vec![(
        "individualUsage",
        object(vec![("plan", object(vec![("totalPercentUsed", Value::from(1))]))]),
    )])), Err("HTTP 500".into()), 78);
    assert_eq!(u.note, "Business \u{b7} via Cursor");
    assert!(matches!(&u.windows, WindowsChange::Replace(w) if w.len() == 1));
    // nothing to meter
    let u = read_once(&creds(None), &reply(&object(vec![("isUnlimited", Value::from(true))])), Err("x".into()), 79);
    assert_eq!(u.status, "none");
    assert_eq!(u.note, "Unlimited on the this plan \u{2014} nothing to meter");
    assert!(matches!(u.windows, WindowsChange::Clear));
    assert_eq!(u.fetched_at, Some(79));
    // windows but no plan name anywhere
    let u = read_once(&creds(None), &reply(&object(vec![])), Ok(reply(&grok)), 80);
    assert_eq!(u.status, "ok");
    assert_eq!(u.note, "");
}

#[test]
fn loaded_reading_is_stale() {
    assert_eq!(persisted_status("ok".to_string(), true), "stale");
    assert_eq!(persisted_status("none".to_string(), false), "none");
}

#[test]
fn store_uri() {
    assert_eq!(
        immutable_uri(r"C:\Users\me\AppData\Roaming\Cursor\User\globalStorage\state.vscdb"),
        "file:///C:/Users/me/AppData/Roaming/Cursor/User/globalStorage/state.vscdb?immutable=1"
    );
    assert_eq!(immutable_uri("/home/me/a#b?c.vscdb"), "file:///home/me/a%23b%3Fc.vscdb?immutable=1");
}

#[test]
fn presence() {
    assert!(present(Some(true)));
    assert!(!present(Some(false)));
    assert!(!present(None));
}

fn run(p: &mut Poller, e: PollEvent) -> PollStep {
    p.step(e);
    p.next
}

#[test]
fn poller_reads_then_waits() {
    let mut p = Poller::new();
    assert_eq!(p.next, PollStep::CheckPresence);
    assert_eq!(run(&mut p, PollEvent::Presence { present: true }), PollStep::ReadAndBroadcast);
    assert_eq!(run(&mut p, PollEvent::Broadcast), PollStep::CheckRefresh);
    assert_eq!(p.waiting, POLL_SECS);
    for _ in 0..POLL_SECS - 1 {
        assert_eq!(run(&mut p, PollEvent::Refresh { requested: false }), PollStep::SleepSecond);
        assert_eq!(run(&mut p, PollEvent::Slept), PollStep::CheckRefresh);
    }
    assert_eq!(run(&mut p, PollEvent::Refresh { requested: false }), PollStep::SleepSecond);
    assert_eq!(run(&mut p, PollEvent::Slept), PollStep::ReadAndBroadcast);
    assert_eq!(p.phase, PollPhase::Polling);
}

#[test]
fn poller_refresh_cuts_the_wait() {
    let mut p = Poller::new();
    run(&mut p, PollEvent::Presence { present: true });
    run(&mut p, PollEvent::Broadcast);
    run(&mut p, PollEvent::Refresh { requested: false });
    run(&mut p, PollEvent::Slept);
    assert_eq!(run(&mut p, PollEvent::Refresh { requested: true }), PollStep::ReadAndBroadcast);
    assert_eq!(p.waiting, 0);
}

#[test]
fn poller_waits_for_absent_editor() {
    let mut p = Poller::new();
    assert_eq!(run(&mut p, PollEvent::Presence { present: false }), PollStep::BroadcastAbsent);
    assert_eq!(p.phase, PollPhase::Absent);
    assert_eq!(run(&mut p, PollEvent::Broadcast), PollStep::CheckRefresh);
    assert_eq!(p.waiting, ABSENT_RECHECK_SECS);
    assert_eq!(run(&mut p, PollEvent::Refresh { requested: true }), PollStep::CheckPresence);
    // still absent: no second broadcast, another wait
    assert_eq!(run(&mut p, PollEvent::Presence { present: false }), PollStep::CheckRefresh);
    assert_eq!(p.waiting, ABSENT_RECHECK_SECS);
    // an event that answers nothing asked changes nothing
    let before = p;
    assert_eq!(run(&mut p, PollEvent::Slept), PollStep::CheckRefresh);
    assert_eq!(p, before);
}

fn snapshot(status: &str, windows: Vec<u32>, fetched_at: u64) -> Snapshot<u32> {
    Snapshot { status: status.to_string(), note: "old".to_string(), windows, fetched_at }
}

#[test]
fn one_reading_keeps_windows_on_failure() {
    let prev = snapshot("ok", vec![1, 2], 5);
    let u = reading(&prev, ReadOutcome::FetchFailed(FetchErr::Other("HTTP 502".to_string())));
    assert_eq!(u.status, "stale");
    let s = apply_reading(prev, u, vec![9]);
    assert_eq!(s.status, "stale");
    assert_eq!(s.note, "HTTP 502");
    assert_eq!(s.windows, vec![1, 2]);
    assert_eq!(s.fetched_at, 5);

    let prev = snapshot("none", vec![], 5);
    let u = reading(&prev, ReadOutcome::FetchFailed(FetchErr::Other("HTTP 502".to_string())));
    assert_eq!(u.status, "error");

    let prev = snapshot("ok", vec![1], 5);
    let u = reading(&prev, ReadOutcome::NoSession);
    let s = apply_reading(prev, u, vec![]);
    assert_eq!(s.status, "needsAuth");
    assert_eq!(s.note, "Sign in to Cursor (the editor) to see usage.");
    assert_eq!(s.windows, vec![1]);
    assert_eq!(s.fetched_at, 5);

    let prev = snapshot("ok", vec![1], 5);
    let u = reading(&prev, ReadOutcome::FetchFailed(FetchErr::NeedsAuth));
    let s = apply_reading(prev, u, vec![]);
    assert_eq!(s.status, "needsAuth");
    assert_eq!(s.windows, vec![1]);
}

#[test]
fn one_reading_with_reply_replaces_or_clears() {
    let summary = object(vec![
        ("membershipType", Value::from("pro")),
        ("individualUsage", object(vec![("plan", object(vec![("autoPercentUsed", Value::from(12.5))]))])),
    ]);
    let prev = snapshot("stale", vec![1, 2, 3], 5);
    let found = ReadOutcome::Reply { creds: creds(Some("free")), summary: reply(&summary), grok: Err("x".into()), now: 99 };
    let u = reading(&prev, found);
    assert_eq!(u.note, "Pro \u{b7} via Cursor");
    let s = apply_reading(prev, u, vec![7]);
    assert_eq!(s.status, "ok");
    assert_eq!(s.windows, vec![7]);
    assert_eq!(s.fetched_at, 99);

    let prev = snapshot("ok", vec![1], 5);
    let found = ReadOutcome::Reply {
        creds: creds(None),
        summary: reply(&object(vec![("membershipType", Value::from("free"))])),
        grok: Err("x".into()),
        now: 100,
    };
    let u = reading(&prev, found);
    let s = apply_reading(prev, u, vec![7]);
    assert_eq!(s.status, "none");
    assert_eq!(s.note, "The free plan has nothing for Cursor to meter yet");
    assert!(s.windows.is_empty());
    assert_eq!(s.fetched_at, 100);
}

#[test]
fn times_before_epoch_are_zero() {
    assert_eq!(clamp_millis(Some(-5)), Some(0));
    assert_eq!(clamp_millis(Some(1_700_000_000_000)), Some(1_700_000_000_000));
    assert_eq!(clamp_millis(None), None);
}

#[test]
fn reply_errors_carry_the_parser_message() {
    assert!(matches!(reply_of(Err("eof".to_string())), Err(m) if m == "parse: Failed to read JSON: eof"));
    assert!(matches!(reply_of(Ok(Json::Bool(true))), Ok(Json::Bool(true))));
    assert!(matches!(decode_reply(b"nope"), Err(m) if m.starts_with("parse: Failed to read JSON: ")));
}

#[test]
fn sub_claim_needs_non_empty_text() {
    assert_eq!(sub_claim(Ok(reply(&object(vec![("sub", Value::from("u1"))])))).as_deref(), Some("u1"));
    assert_eq!(sub_claim(Ok(reply(&object(vec![("sub", Value::from(""))])))), None);
    assert_eq!(sub_claim(Ok(reply(&object(vec![("sub", Value::from(3))])))), None);
    assert_eq!(sub_claim(Err("bad".to_string())), None);
}

#[test]
fn redaction_ignores_what_strings_say() {
    let a = object(vec![("email", Value::from("me@example.com")), ("id", Value::from("abc"))]);
    let b = object(vec![("email", Value::from("xx@yyyyyyy.zzz")), ("id", Value::from("xyz"))]);
    let ra = redact_shape(&reply(&a));
    let rb = redact_shape(&reply(&b));
    let (Json::Object(ma), Json::Object(mb)) = (&ra, &rb) else { panic!("not objects") };
    assert_eq!(ma.len(), mb.len());
    for (x, y) in ma.iter().zip(mb.iter()) {
        assert_eq!(x.0, y.0);
        assert!(matches!((&x.1, &y.1), (Json::Str(p), Json::Str(q)) if p == q));
    }
}

#[test]
fn absent_editor_is_looked_for_every_recheck() {
    let mut p = Poller::new();
    run(&mut p, PollEvent::Presence { present: false });
    run(&mut p, PollEvent::Broadcast);
    for _ in 0..ABSENT_RECHECK_SECS - 1 {
        assert_eq!(run(&mut p, PollEvent::Refresh { requested: false }), PollStep::SleepSecond);
        assert_eq!(run(&mut p, PollEvent::Slept), PollStep::CheckRefresh);
    }
    run(&mut p, PollEvent::Refresh { requested: false });
    assert_eq!(run(&mut p, PollEvent::Slept), PollStep::CheckPresence);
    assert_eq!(p.phase, PollPhase::Absent);
    assert_eq!(run(&mut p, PollEvent::Presence { present: true }), PollStep::ReadAndBroadcast);
}
