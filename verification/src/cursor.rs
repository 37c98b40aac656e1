//! The Cursor usage adapter: the usage-summary and Grok Bot replies turned into usage
//! windows, the borrowed editor session, diagnostics, and the polling decisions.

use vstd::prelude::*;
use crate::json::{Json, JsonNumber, JsonView};
use crate::json;
use crate::text;

verus! {

// ---------------- Numbers ----------------

/// The bit pattern of `+inf`; larger patterns with the sign bit clear are NaNs.
pub open spec fn positive_infinity_bits() -> u64 {
    0x7FF0_0000_0000_0000u64
}

/// The number is greater than zero (as `f64`).
pub open spec fn above_zero(n: JsonNumber) -> bool {
    match n {
        JsonNumber::PosInt(u) => u > 0,
        JsonNumber::NegInt(i) => i > 0,
        JsonNumber::Float(b) => 0 < b <= positive_infinity_bits(),
    }
}

/// The number is at least zero (as `f64`; `-0.0` counts).
pub open spec fn at_least_zero(n: JsonNumber) -> bool {
    match n {
        JsonNumber::PosInt(u) => true,
        JsonNumber::NegInt(i) => i >= 0,
        JsonNumber::Float(b) => b <= positive_infinity_bits() || b == 0x8000_0000_0000_0000u64,
    }
}

fn is_above_zero(n: JsonNumber) -> (r: bool)
    ensures
        r == above_zero(n),
{
    match n {
        JsonNumber::PosInt(u) => u > 0,
        JsonNumber::NegInt(i) => i > 0,
        JsonNumber::Float(b) => 0 < b && b <= 0x7FF0_0000_0000_0000u64,
    }
}

fn is_at_least_zero(n: JsonNumber) -> (r: bool)
    ensures
        r == at_least_zero(n),
{
    match n {
        JsonNumber::PosInt(_) => true,
        JsonNumber::NegInt(i) => i >= 0,
        JsonNumber::Float(b) => b <= 0x7FF0_0000_0000_0000u64 || b == 0x8000_0000_0000_0000u64,
    }
}

// ---------------- Windows ----------------

/// How a window's used fraction follows from the reply's numbers.
#[derive(Clone, Copy, Debug, PartialEq, Eq, Structural)]
pub enum Share {
    /// `(p / 100.0).clamp(0.0, 1.0)` of the percentage `p`.
    Percent(JsonNumber),
    /// `(used / limit).clamp(0.0, 1.0)`.
    Ratio { used: JsonNumber, limit: JsonNumber },
}

/// One usage window to show: what it is, how much of it is used, and when it resets
/// (Unix milliseconds).
#[derive(Debug)]
pub struct WindowPlan {
    pub id: String,
    pub label: String,
    pub used: Share,
    pub resets_at: Option<u64>,
}

pub struct WindowView {
    pub id: Seq<char>,
    pub label: Seq<char>,
    pub used: Share,
    pub resets_at: Option<u64>,
}

impl View for WindowPlan {
    type V = WindowView;

    open spec fn view(&self) -> WindowView {
        WindowView { id: self.id@, label: self.label@, used: self.used, resets_at: self.resets_at }
    }
}

pub open spec fn window(id: Seq<char>, label: Seq<char>, used: Share, resets_at: Option<u64>) -> WindowView {
    WindowView { id, label, used, resets_at }
}

pub open spec fn plans_view(s: Seq<WindowPlan>) -> Seq<WindowView> {
    s.map_values(|w: WindowPlan| w@)
}

fn plan(id: &str, label: &str, used: Share, resets_at: Option<u64>) -> (w: WindowPlan)
    ensures
        w@ == window(id@, label@, used, resets_at),
{
    WindowPlan { id: String::from_str(id), label: String::from_str(label), used, resets_at }
}

// ---------------- Times ----------------

/// Unix milliseconds of an RFC 3339 timestamp, as chrono reads it.
pub uninterp spec fn rfc3339_millis(s: Seq<char>) -> Option<int>;

/// Reads an RFC 3339 timestamp: `chrono::DateTime::parse_from_rfc3339`, then
/// `timestamp_millis` of the parsed time. The contract names the result; it is a function
/// of the text alone.
#[verifier::external_body]
fn parse_rfc3339_millis(s: &str) -> (r: Option<i64>)
    ensures
        match r {
            Some(m) => rfc3339_millis(s@) == Some(m as int),
            None => rfc3339_millis(s@) is None,
        },
{
    chrono::DateTime::parse_from_rfc3339(s).ok().map(|d| d.timestamp_millis())
}

/// Unix milliseconds with times before 1970 taken as 0.
pub open spec fn millis_from_epoch(m: Option<int>) -> Option<u64> {
    match m {
        Some(m) => Some((if m < 0 { 0 } else { m }) as u64),
        None => None,
    }
}

/// A timestamp member as Unix milliseconds, times before 1970 taken as 0.
pub open spec fn iso_millis(v: Option<JsonView>) -> Option<u64> {
    match json::as_text(v) {
        Some(s) => millis_from_epoch(rfc3339_millis(s)),
        None => None,
    }
}

/// The parsed time's Unix milliseconds, times before 1970 taken as 0.
pub fn clamp_millis(m: Option<i64>) -> (r: Option<u64>)
    ensures
        r == millis_from_epoch(match m {
            Some(x) => Some(x as int),
            None => None,
        }),
{
    match m {
        Some(x) => Some(if x < 0 { 0 } else { x as u64 }),
        None => None,
    }
}

/// A timestamp member as Unix milliseconds, times before 1970 taken as 0.
pub fn parse_iso(v: Option<&Json>) -> (r: Option<u64>)
    ensures
        r == iso_millis(json::opt_view(v)),
{
    match json::text_of_value(v) {
        Some(s) => clamp_millis(parse_rfc3339_millis(s.as_str())),
        None => None,
    }
}

// ---------------- usage-summary ----------------

pub open spec fn opt_above_zero(n: Option<JsonNumber>) -> bool {
    match n {
        Some(x) => above_zero(x),
        None => false,
    }
}

/// `individualUsage` of the reply, `null` when absent.
pub open spec fn summary_usage(v: JsonView) -> JsonView {
    json::or_null(json::json_get(v, "individualUsage"@))
}

/// `individualUsage.plan`, `null` when absent.
pub open spec fn summary_plan(v: JsonView) -> JsonView {
    json::or_null(json::json_get(summary_usage(v), "plan"@))
}

/// The headline: Auto usage when the plan has `autoPercentUsed`, else the blended
/// `totalPercentUsed` as Included usage.
pub open spec fn headline_window(v: JsonView) -> Seq<WindowView> {
    let r = iso_millis(json::json_get(v, "billingCycleEnd"@));
    match json::as_number(json::json_get(summary_plan(v), "autoPercentUsed"@)) {
        Some(p) => seq![window("auto"@, "Auto usage"@, Share::Percent(p), r)],
        None => match json::as_number(json::json_get(summary_plan(v), "totalPercentUsed"@)) {
            Some(p) => seq![window("included"@, "Included usage"@, Share::Percent(p), r)],
            None => Seq::empty(),
        },
    }
}

/// API usage, listed when `apiPercentUsed` is above zero.
pub open spec fn api_window(v: JsonView) -> Seq<WindowView> {
    let r = iso_millis(json::json_get(v, "billingCycleEnd"@));
    match json::as_number(json::json_get(summary_plan(v), "apiPercentUsed"@)) {
        Some(p) => if above_zero(p) {
            seq![window("api"@, "API usage"@, Share::Percent(p), r)]
        } else {
            Seq::empty()
        },
        None => Seq::empty(),
    }
}

/// On-demand usage, listed when on-demand is enabled with a positive limit and a used amount.
pub open spec fn on_demand_window(v: JsonView) -> Seq<WindowView> {
    let r = iso_millis(json::json_get(v, "billingCycleEnd"@));
    match json::json_get(summary_usage(v), "onDemand"@) {
        Some(od) => {
            let enabled = json::as_flag(json::json_get(od, "enabled"@)) == Some(true);
            let limit = json::as_number(json::json_get(od, "limit"@));
            let used = json::as_number(json::json_get(od, "used"@));
            if enabled && opt_above_zero(limit) && used is Some {
                seq![window("on_demand"@, "On demand"@, Share::Ratio { used: used->0, limit: limit->0 }, r)]
            } else {
                Seq::empty()
            }
        },
        None => Seq::empty(),
    }
}

/// Enterprise and team replies: absolute `used`/`limit` under `individualUsage.overall`.
pub open spec fn overall_window(v: JsonView) -> Seq<WindowView> {
    let r = iso_millis(json::json_get(v, "billingCycleEnd"@));
    match json::json_get(summary_usage(v), "overall"@) {
        Some(ov) => {
            let used = json::as_number(json::json_get(ov, "used"@));
            let limit = json::as_number(json::json_get(ov, "limit"@));
            if used is Some && opt_above_zero(limit) {
                seq![window("included"@, "Included usage"@, Share::Ratio { used: used->0, limit: limit->0 }, r)]
            } else {
                Seq::empty()
            }
        },
        None => Seq::empty(),
    }
}

/// The metered windows of a usage-summary reply: headline, API and on-demand.
pub open spec fn metered_windows(v: JsonView) -> Seq<WindowView> {
    headline_window(v) + api_window(v) + on_demand_window(v)
}

/// The windows of a usage-summary reply: the metered ones, or, when there are none, the
/// overall allowance.
pub open spec fn summary_windows(v: JsonView) -> Seq<WindowView> {
    if metered_windows(v).len() > 0 {
        metered_windows(v)
    } else {
        overall_window(v)
    }
}

/// The plan name for a note: `membershipType`, or "this".
pub open spec fn membership_or_this(v: JsonView) -> Seq<char> {
    match json::as_text(json::json_get(v, "membershipType"@)) {
        Some(m) => m,
        None => "this"@,
    }
}

/// Why there is nothing to show; empty when there are windows.
pub open spec fn summary_note(v: JsonView) -> Seq<char> {
    if summary_windows(v).len() > 0 {
        Seq::empty()
    } else if json::as_flag(json::json_get(v, "isUnlimited"@)) == Some(true) {
        "Unlimited on the "@ + membership_or_this(v) + " plan \u{2014} nothing to meter"@
    } else {
        "The "@ + membership_or_this(v) + " plan has nothing for Cursor to meter yet"@
    }
}

fn member<'a>(v: &'a Json, key: &str) -> (r: &'a Json)
    ensures
        r@ == json::or_null(json::json_get(v@, key@)),
{
    match v.get(key) {
        Some(x) => x,
        None => &Json::Null,
    }
}

/// usage-summary reply to its windows and a note; the note says why when there are no windows
/// (an unlimited plan, or a plan with no allowance to meter).
pub fn parse_summary(v: &Json) -> (r: (Vec<WindowPlan>, String))
    ensures
        plans_view(r.0@) == summary_windows(v@),
        r.1@ == summary_note(v@),
{
    let resets_at = parse_iso(v.get("billingCycleEnd"));
    let usage = member(v, "individualUsage");
    let plan_v = member(usage, "plan");
    let mut out: Vec<WindowPlan> = Vec::new();
    if let Some(auto) = json::number_of_value(plan_v.get("autoPercentUsed")) {
        out.push(plan("auto", "Auto usage", Share::Percent(auto), resets_at));
    } else if let Some(total) = json::number_of_value(plan_v.get("totalPercentUsed")) {
        out.push(plan("included", "Included usage", Share::Percent(total), resets_at));
    }
    assert(plans_view(out@) =~= headline_window(v@));
    if let Some(api) = json::number_of_value(plan_v.get("apiPercentUsed")) {
        if is_above_zero(api) {
            out.push(plan("api", "API usage", Share::Percent(api), resets_at));
        }
    }
    assert(plans_view(out@) =~= headline_window(v@) + api_window(v@));
    if let Some(od) = usage.get("onDemand") {
        let enabled = json::flag_of_value(od.get("enabled"));
        let limit = json::number_of_value(od.get("limit"));
        let used = json::number_of_value(od.get("used"));
        let enabled_on = match enabled {
            Some(b) => b,
            None => false,
        };
        let limit_on = match limit {
            Some(l) => is_above_zero(l),
            None => false,
        };
        if enabled_on && limit_on {
            if let Some(u) = used {
                out.push(plan("on_demand", "On demand", Share::Ratio { used: u, limit: limit.unwrap() }, resets_at));
            }
        }
    }
    assert(plans_view(out@) =~= headline_window(v@) + api_window(v@) + on_demand_window(v@));
    if out.len() == 0 {
        if let Some(ov) = usage.get("overall") {
            let used = json::number_of_value(ov.get("used"));
            let limit = json::number_of_value(ov.get("limit"));
            let limit_on = match limit {
                Some(l) => is_above_zero(l),
                None => false,
            };
            if let Some(u) = used {
                if limit_on {
                    out.push(plan("included", "Included usage", Share::Ratio { used: u, limit: limit.unwrap() }, resets_at));
                }
            }
        }
        assert(plans_view(out@) =~= overall_window(v@));
    }
    if out.len() > 0 {
        return (out, String::new());
    }
    let membership: &str = match json::text_of_value(v.get("membershipType")) {
        Some(m) => m.as_str(),
        None => "this",
    };
    let unlimited = json::flag_of_value(v.get("isUnlimited"));
    let mut note = String::new();
    if unlimited == Some(true) {
        note.append("Unlimited on the ");
        note.append(membership);
        note.append(" plan \u{2014} nothing to meter");
    } else {
        note.append("The ");
        note.append(membership);
        note.append(" plan has nothing for Cursor to meter yet");
    }
    (out, note)
}

// ---------------- Grok Bot ----------------

/// The Grok Bot weekly window of a GetSandUsageStatus reply. Pooled enterprise seats and
/// accounts without a personal included allowance have no meter of their own.
pub open spec fn sand_window(v: JsonView) -> Option<WindowView> {
    if json::as_flag(json::json_get(v, "usesPooledEnterpriseAllowance"@)) == Some(true)
        || json::as_flag(json::json_get(v, "hasNonZeroIncludedLimit"@)) == Some(false)
        || json::as_flag(json::json_get(v, "includedLimitZero"@)) == Some(true) {
        None
    } else {
        match json::as_number(json::json_get(v, "usagePercent"@)) {
            Some(p) => if at_least_zero(p) {
                Some(window("grok_bot"@, "Grok Bot"@, Share::Percent(p),
                    iso_millis(json::json_get(v, "nextResetTimestampUtc"@))))
            } else {
                None
            },
            None => None,
        }
    }
}

pub open spec fn opt_plan_view(o: Option<WindowPlan>) -> Option<WindowView> {
    match o {
        Some(w) => Some(w@),
        None => None,
    }
}

/// GetSandUsageStatus reply to the Grok Bot weekly window, if the account has one.
pub fn parse_sand(v: &Json) -> (r: Option<WindowPlan>)
    ensures
        opt_plan_view(r) == sand_window(v@),
{
    if json::flag_of_value(v.get("usesPooledEnterpriseAllowance")) == Some(true)
        || json::flag_of_value(v.get("hasNonZeroIncludedLimit")) == Some(false)
        || json::flag_of_value(v.get("includedLimitZero")) == Some(true) {
        return None;
    }
    let percent = match json::number_of_value(v.get("usagePercent")) {
        Some(p) => p,
        None => return None,
    };
    if !is_at_least_zero(percent) {
        return None;
    }
    Some(plan("grok_bot", "Grok Bot", Share::Percent(percent), parse_iso(v.get("nextResetTimestampUtc"))))
}

/// The Grok Bot window from its fetch, if both the fetch and the account give one: a failed
/// Grok Bot fetch never costs the primary Cursor windows.
pub fn fetch_grok_bot(reply: Result<Json, String>) -> (r: Option<WindowPlan>)
    ensures
        opt_plan_view(r) == match reply {
            Ok(v) => sand_window(v@),
            Err(_) => None,
        },
{
    match reply {
        Ok(v) => parse_sand(&v),
        Err(_) => None,
    }
}

// ---------------- The borrowed session ----------------

/// The editor's session as the endpoints take it: the cookie, the raw access token (the
/// Connect RPC endpoints take it as a Bearer header) and the plan name, if cached.
#[derive(Debug)]
pub struct Creds {
    pub cookie: String,
    pub token: String,
    pub plan: Option<String>,
}

pub struct CredsView {
    pub cookie: Seq<char>,
    pub token: Seq<char>,
    pub plan: Option<Seq<char>>,
}

impl View for Creds {
    type V = CredsView;

    open spec fn view(&self) -> CredsView {
        CredsView { cookie: self.cookie@, token: self.token@, plan: text::opt_text(self.plan) }
    }
}

/// A stored item as the store hands it out: an empty value counts as missing.
pub open spec fn stored(o: Option<Seq<char>>) -> Option<Seq<char>> {
    match o {
        Some(s) => if s.len() > 0 { Some(s) } else { None },
        None => None,
    }
}

/// The session made of the stored items: the access token, and the account id from
/// `stripeMembershipAuthId`, or else from the token's `sub` claim.
pub open spec fn session_of(
    token: Option<Seq<char>>,
    auth_id: Option<Seq<char>>,
    plan: Option<Seq<char>>,
) -> Option<CredsView> {
    match stored(token) {
        None => None,
        Some(t) => {
            let a = match stored(auth_id) {
                Some(a) => Some(a),
                None => crate::token::jwt_subject(vstd::utf8::encode_utf8(t)),
            };
            match a {
                None => None,
                Some(a) => Some(CredsView {
                    cookie: "WorkosCursorSessionToken="@ + a + "::"@ + t,
                    token: t,
                    plan: stored(plan),
                }),
            }
        },
    }
}

pub open spec fn opt_creds_view(o: Option<Creds>) -> Option<CredsView> {
    match o {
        Some(c) => Some(c@),
        None => None,
    }
}

fn nonempty(o: Option<String>) -> (r: Option<String>)
    ensures
        text::opt_text(r) == stored(text::opt_text(o)),
{
    match o {
        Some(s) => if s.as_str().is_empty() { None } else { Some(s) },
        None => None,
    }
}

/// The session from the three stored items (`cursorAuth/accessToken`,
/// `cursorAuth/stripeMembershipAuthId`, `cursorAuth/stripeMembershipType`), read afresh each
/// time since the editor rotates the token.
pub fn read_credentials(token: Option<String>, auth_id: Option<String>, plan: Option<String>) -> (r: Option<Creds>)
    ensures
        opt_creds_view(r) == session_of(text::opt_text(token), text::opt_text(auth_id), text::opt_text(plan)),
{
    let token = match nonempty(token) {
        Some(t) => t,
        None => return None,
    };
    let auth_id = match nonempty(auth_id) {
        Some(a) => a,
        None => match crate::token::jwt_sub(token.as_str()) {
            Some(a) => a,
            None => return None,
        },
    };
    let plan = nonempty(plan);
    let mut cookie = String::from_str("WorkosCursorSessionToken=");
    cookie.append(auth_id.as_str());
    cookie.append("::");
    cookie.append(token.as_str());
    Some(Creds { cookie, token, plan })
}

// ---------------- Opening the store read-only ----------------

/// `\\` as `/`, leading `/` dropped, then `#` and `?` percent-encoded, char by char.
pub open spec fn uri_escaped(s: Seq<char>) -> Seq<char>
    decreases s.len(),
{
    if s.len() == 0 {
        s
    } else {
        let c = s[0];
        let head = if c == '#' {
            "%23"@
        } else if c == '?' {
            "%3F"@
        } else if c == '\\' {
            seq!['/']
        } else {
            seq![c]
        };
        head + uri_escaped(s.subrange(1, s.len() as int))
    }
}

/// `s` without its leading `/` and `\\` characters.
pub open spec fn trim_leading_slashes(s: Seq<char>) -> Seq<char>
    decreases s.len(),
{
    if s.len() > 0 && (s[0] == '/' || s[0] == '\\') {
        trim_leading_slashes(s.subrange(1, s.len() as int))
    } else {
        s
    }
}

/// The SQLite URI that opens the store with `immutable=1`: once the editor has exited and the
/// `-shm` file is gone, `mode=ro` fails to open, and by then the WAL has been checkpointed.
pub open spec fn immutable_uri_of(path: Seq<char>) -> Seq<char> {
    "file:///"@ + uri_escaped(trim_leading_slashes(path)) + "?immutable=1"@
}

/// The `immutable=1` URI of the store at `path`; a Windows path becomes `file:///C:/...`.
pub fn immutable_uri(path: &str) -> (r: String)
    ensures
        r@ == immutable_uri_of(path@),
{
    let v = text::chars_of(path);
    let mut i: usize = 0;
    assert(v@.subrange(0, v@.len() as int) =~= v@);
    while i < v.len() && (v[i] == '/' || v[i] == '\\')
        invariant
            v@ == path@,
            i <= v@.len(),
            trim_leading_slashes(path@) == trim_leading_slashes(v@.subrange(i as int, v@.len() as int)),
        decreases v.len() - i,
    {
        assert(v@.subrange(i as int, v@.len() as int).subrange(1, v@.len() - i) =~= v@.subrange(i + 1, v@.len() as int));
        i = i + 1;
    }
    let ghost start = i as int;
    assert(trim_leading_slashes(v@.subrange(start, v@.len() as int)) == v@.subrange(start, v@.len() as int));
    let mut out = String::from_str("file:///");
    let ghost prefix = out@;
    assert(v@.subrange(start, v@.len() as int) =~= v@.subrange(start, start) + v@.subrange(start, v@.len() as int));
    while i < v.len()
        invariant
            v@ == path@,
            start <= i <= v@.len(),
            prefix == "file:///"@,
            trim_leading_slashes(path@) == v@.subrange(start, v@.len() as int),
            out@ + uri_escaped(v@.subrange(i as int, v@.len() as int)) == prefix + uri_escaped(v@.subrange(start, v@.len() as int)),
        decreases v.len() - i,
    {
        let ghost rest = v@.subrange(i as int, v@.len() as int);
        assert(rest.subrange(1, rest.len() as int) =~= v@.subrange(i + 1, v@.len() as int));
        let c = v[i];
        if c == '#' {
            out.append("%23");
        } else if c == '?' {
            out.append("%3F");
        } else if c == '\\' {
            text::push_char(&mut out, '/');
        } else {
            text::push_char(&mut out, c);
        }
        proof {
            assert(rest[0] == c);
        }
        i = i + 1;
    }
    assert(v@.subrange(v@.len() as int, v@.len() as int) =~= Seq::<char>::empty());
    out.append("?immutable=1");
    out
}

// ---------------- Replies and their errors ----------------

/// Why a usage-summary fetch gave no reply: the session was refused, or something else
/// went wrong (the message says what).
#[derive(Debug)]
pub enum FetchErr {
    NeedsAuth,
    Other(String),
}

pub enum FetchErrView {
    NeedsAuth,
    Other(Seq<char>),
}

impl View for FetchErr {
    type V = FetchErrView;

    open spec fn view(&self) -> FetchErrView {
        match self {
            FetchErr::NeedsAuth => FetchErrView::NeedsAuth,
            FetchErr::Other(m) => FetchErrView::Other(m@),
        }
    }
}

/// "HTTP " and the status code.
pub open spec fn http_message(status: u16) -> Seq<char> {
    "HTTP "@ + text::decimal(status as nat)
}

fn http_text(status: u16) -> (r: String)
    ensures
        r@ == http_message(status),
{
    let mut m = String::from_str("HTTP ");
    text::push_decimal(&mut m, status as u64);
    m
}

/// A usage-summary error status: 401 and 403 mean the session was refused.
pub fn fetch_error(status: u16) -> (r: FetchErr)
    ensures
        r@ == if status == 401 || status == 403 {
            FetchErrView::NeedsAuth
        } else {
            FetchErrView::Other(http_message(status))
        },
{
    if status == 401 || status == 403 {
        FetchErr::NeedsAuth
    } else {
        FetchErr::Other(http_text(status))
    }
}

/// A Grok Bot error status, in words.
pub fn sand_error(status: u16) -> (r: String)
    ensures
        r@ == http_message(status),
{
    http_text(status)
}

/// A reply body read as JSON; a body that is no JSON gives `parse: Failed to read JSON: `
/// and the parser's message.
pub fn decode_reply(body: &[u8]) -> (r: Result<Json, String>)
    ensures
        match r {
            Ok(j) => json::parsed_json(body@) == Some(j@),
            Err(m) => json::parsed_json(body@) is None
                && m@ == "parse: Failed to read JSON: "@ + json::parse_error_text(body@),
        },
{
    reply_of(json::parse_json(body))
}

/// A parsed reply, or the parse error's message after `parse: Failed to read JSON: `.
pub fn reply_of(parsed: Result<Json, String>) -> (r: Result<Json, String>)
    ensures
        match (parsed, r) {
            (Ok(j), Ok(k)) => k@ == j@,
            (Err(e), Err(m)) => m@ == "parse: Failed to read JSON: "@ + e@,
            _ => false,
        },
        r matches Err(m) ==> "parse: Failed to read JSON: "@.is_prefix_of(m@),
{
    match parsed {
        Ok(j) => Ok(j),
        Err(e) => {
            let mut m = String::from_str("parse: Failed to read JSON: ");
            let ghost p = m@;
            m.append(e.as_str());
            assert(p.is_prefix_of(m@)) by {
                assert(m@.subrange(0, p.len() as int) =~= p);
            }
            Err(m)
        },
    }
}

// ---------------- Diagnostics ----------------

pub open spec fn presence_word(b: bool) -> Seq<char> {
    if b { "present"@ } else { "missing"@ }
}

/// What the store holds, when it could be opened: whether the access token and the
/// membership auth id are there (an empty value counts as missing).
pub open spec fn store_detail(db: Option<(Option<Seq<char>>, Option<Seq<char>>)>) -> Seq<char> {
    match db {
        None => "SQLite failed to open"@,
        Some((token, auth)) => "accessToken "@ + presence_word(stored(token) is Some) + ", stripeMembershipAuthId "@
            + presence_word(stored(auth) is Some) + " (editor signed out?)"@,
    }
}

/// The Cursor line of the self-diagnosis; it holds no secret value, only the cookie's
/// length and the plan name.
pub open spec fn probe_report(
    path: Option<Seq<char>>,
    is_file: bool,
    creds: Option<CredsView>,
    db: Option<(Option<Seq<char>>, Option<Seq<char>>)>,
) -> Seq<char> {
    match path {
        None => "Cursor: cannot locate %APPDATA%"@,
        Some(p) => if !is_file {
            "Cursor: "@ + p + " not found (not installed, or not signed in)"@
        } else {
            match creds {
                Some(c) => "Cursor: session borrowed (cookie "@ + text::decimal(text::byte_len(c.cookie))
                    + " chars, plan="@ + (match c.plan {
                        Some(x) => x,
                        None => "?"@,
                    }) + ")"@,
                None => "Cursor: "@ + p + " exists but the session could not be borrowed \u{2014} "@
                    + store_detail(db),
            }
        },
    }
}

fn presence_text(b: bool) -> (r: &'static str)
    ensures
        r@ == presence_word(b),
{
    if b { "present" } else { "missing" }
}

/// The Cursor self-diagnosis from what was found: the store's path (if it could be located),
/// whether it is a file, the session read from it, and, when there is no session, the store's
/// access token and membership auth id items, or nothing when the store did not open.
/// `creds` is read only for an existing store, `db` only when there is no session.
pub fn probe(
    path: Option<&str>,
    is_file: bool,
    creds: Option<&Creds>,
    db: Option<(Option<String>, Option<String>)>,
) -> (r: String)
    ensures
        r@ == probe_report(
            match path { Some(p) => Some(p@), None => None },
            is_file,
            match creds { Some(c) => Some(c@), None => None },
            match db { Some((t, a)) => Some((text::opt_text(t), text::opt_text(a))), None => None },
        ),
{
    let p = match path {
        None => return String::from_str("Cursor: cannot locate %APPDATA%"),
        Some(p) => p,
    };
    if !is_file {
        let mut m = String::from_str("Cursor: ");
        m.append(p);
        m.append(" not found (not installed, or not signed in)");
        return m;
    }
    match creds {
        Some(c) => {
            let mut m = String::from_str("Cursor: session borrowed (cookie ");
            text::push_decimal(&mut m, c.cookie.as_str().len() as u64);
            m.append(" chars, plan=");
            match &c.plan {
                Some(x) => m.append(x.as_str()),
                None => m.append("?"),
            }
            m.append(")");
            m
        },
        None => {
            let mut m = String::from_str("Cursor: ");
            m.append(p);
            m.append(" exists but the session could not be borrowed \u{2014} ");
            match db {
                None => m.append("SQLite failed to open"),
                Some((token, auth)) => {
                    m.append("accessToken ");
                    m.append(presence_text(nonempty(token).is_some()));
                    m.append(", stripeMembershipAuthId ");
                    m.append(presence_text(nonempty(auth).is_some()));
                    m.append(" (editor signed out?)");
                },
            }
            m
        },
    }
}

/// The live-reply diagnosis: with a session, the redacted shapes (as JSON text) of the
/// usage-summary and Grok Bot replies, or what went wrong with each.
pub open spec fn summary_report(
    replies: Option<(Result<Seq<char>, FetchErrView>, Result<Seq<char>, Seq<char>>)>,
) -> Seq<char> {
    match replies {
        None => "Cursor summary: no session to borrow"@,
        Some((summary, sand)) => {
            let first = match summary {
                Ok(shape) => "Cursor usage-summary shape: "@ + shape,
                Err(FetchErrView::NeedsAuth) => "Cursor summary: session rejected (401/403)"@,
                Err(FetchErrView::Other(m)) => "Cursor summary: "@ + m,
            };
            let second = match sand {
                Ok(shape) => "Grok Bot (GetSandUsageStatus) shape: "@ + shape,
                Err(m) => "Grok Bot (GetSandUsageStatus): "@ + m,
            };
            first + "\n  "@ + second
        },
    }
}

/// For the self-diagnosis: which buckets the account's replies carry, every string stripped.
/// `replies` is nothing without a session to borrow; otherwise the usage-summary outcome and
/// the Grok Bot outcome, each reply already given as the JSON text of its `redact_shape`.
pub fn probe_summary(replies: Option<(Result<String, FetchErr>, Result<String, String>)>) -> (r: String)
    ensures
        r@ == summary_report(match replies {
            None => None,
            Some((a, b)) => Some((
                match a { Ok(x) => Ok(x@), Err(e) => Err(e@) },
                match b { Ok(x) => Ok(x@), Err(e) => Err(e@) },
            )),
        }),
{
    let (summary, sand) = match replies {
        None => return String::from_str("Cursor summary: no session to borrow"),
        Some(pair) => pair,
    };
    let mut m = match summary {
        Ok(shape) => {
            let mut m = String::from_str("Cursor usage-summary shape: ");
            m.append(shape.as_str());
            m
        },
        Err(FetchErr::NeedsAuth) => String::from_str("Cursor summary: session rejected (401/403)"),
        Err(FetchErr::Other(e)) => {
            let mut m = String::from_str("Cursor summary: ");
            m.append(e.as_str());
            m
        },
    };
    m.append("\n  ");
    match sand {
        Ok(shape) => {
            m.append("Grok Bot (GetSandUsageStatus) shape: ");
            m.append(shape.as_str());
        },
        Err(e) => {
            m.append("Grok Bot (GetSandUsageStatus): ");
            m.append(e.as_str());
        },
    }
    m
}

// ---------------- One reading ----------------

/// What becomes of the windows of the previous reading.
#[derive(Debug)]
pub enum WindowsChange {
    /// The old windows stay (a stale reading beats an invented one).
    Keep,
    /// The windows are cleared.
    Clear,
    /// The windows are replaced by these.
    Replace(Vec<WindowPlan>),
}

pub enum WindowsChangeView {
    Keep,
    Clear,
    Replace(Seq<WindowView>),
}

/// How one reading changes the Cursor snapshot: its status, its note, the time of the
/// fetch when there was a reply, and its windows. Other fields of the snapshot stay.
#[derive(Debug)]
pub struct SnapshotUpdate {
    pub status: String,
    pub note: String,
    pub fetched_at: Option<u64>,
    pub windows: WindowsChange,
}

pub struct SnapshotUpdateView {
    pub status: Seq<char>,
    pub note: Seq<char>,
    pub fetched_at: Option<u64>,
    pub windows: WindowsChangeView,
}

impl View for SnapshotUpdate {
    type V = SnapshotUpdateView;

    open spec fn view(&self) -> SnapshotUpdateView {
        SnapshotUpdateView {
            status: self.status@,
            note: self.note@,
            fetched_at: self.fetched_at,
            windows: match self.windows {
                WindowsChange::Keep => WindowsChangeView::Keep,
                WindowsChange::Clear => WindowsChangeView::Clear,
                WindowsChange::Replace(w) => WindowsChangeView::Replace(plans_view(w@)),
            },
        }
    }
}

pub open spec fn update(status: Seq<char>, note: Seq<char>, fetched_at: Option<u64>, windows: WindowsChangeView) -> SnapshotUpdateView {
    SnapshotUpdateView { status, note, fetched_at, windows }
}

/// The reading when there is no session to borrow.
pub open spec fn no_session() -> SnapshotUpdateView {
    update("needsAuth"@, "Sign in to Cursor (the editor) to see usage."@, None, WindowsChangeView::Keep)
}

/// No session to borrow: the reading asks the user to sign in to the editor.
pub fn session_missing() -> (r: SnapshotUpdate)
    ensures
        r@ == no_session(),
{
    SnapshotUpdate {
        status: String::from_str("needsAuth"),
        note: String::from_str("Sign in to Cursor (the editor) to see usage."),
        fetched_at: None,
        windows: WindowsChange::Keep,
    }
}

/// The reading after a failed usage-summary fetch: a refused session asks for a new sign-in;
/// any other failure keeps the old windows, marked stale, or is an error when there are none.
pub open spec fn failed_reading(prev_has_windows: bool, err: FetchErrView) -> SnapshotUpdateView {
    match err {
        FetchErrView::NeedsAuth => update(
            "needsAuth"@,
            "Cursor session was rejected \u{2014} sign in again in the editor"@,
            None,
            WindowsChangeView::Keep,
        ),
        FetchErrView::Other(m) => update(
            if prev_has_windows { "stale"@ } else { "error"@ },
            m,
            None,
            WindowsChangeView::Keep,
        ),
    }
}

/// The reading after a failed usage-summary fetch.
pub fn fetch_failed(prev_has_windows: bool, err: FetchErr) -> (r: SnapshotUpdate)
    ensures
        r@ == failed_reading(prev_has_windows, err@),
{
    match err {
        FetchErr::NeedsAuth => SnapshotUpdate {
            status: String::from_str("needsAuth"),
            note: String::from_str("Cursor session was rejected \u{2014} sign in again in the editor"),
            fetched_at: None,
            windows: WindowsChange::Keep,
        },
        FetchErr::Other(m) => SnapshotUpdate {
            status: String::from_str(if prev_has_windows { "stale" } else { "error" }),
            note: m,
            fetched_at: None,
            windows: WindowsChange::Keep,
        },
    }
}

/// The plan line of a good reading: the reply's membership, else the cached plan,
/// capitalized, "via Cursor".
pub open spec fn plan_note(plan: Option<Seq<char>>, summary: JsonView) -> Seq<char> {
    match json::as_text(json::json_get(summary, "membershipType"@)) {
        Some(m) => text::capitalized(m) + " \u{b7} via Cursor"@,
        None => match plan {
            Some(p) => text::capitalized(p) + " \u{b7} via Cursor"@,
            None => Seq::empty(),
        },
    }
}

/// The windows of a reading: the usage-summary windows, then the Grok Bot window if any.
pub open spec fn reading_windows(summary: JsonView, grok: Option<JsonView>) -> Seq<WindowView> {
    let extra = match grok {
        Some(g) => match sand_window(g) {
            Some(w) => seq![w],
            None => Seq::empty(),
        },
        None => Seq::empty(),
    };
    summary_windows(summary) + extra
}

/// A reading with a usage-summary reply: nothing to meter ("none", the reply's note, windows
/// cleared) or the windows ("ok", the plan line), fetched now.
pub open spec fn good_reading(plan: Option<Seq<char>>, summary: JsonView, grok: Option<JsonView>, now: u64) -> SnapshotUpdateView {
    let w = reading_windows(summary, grok);
    if w.len() == 0 {
        update("none"@, summary_note(summary), Some(now), WindowsChangeView::Clear)
    } else {
        update("ok"@, plan_note(plan, summary), Some(now), WindowsChangeView::Replace(w))
    }
}

/// One reading with a usage-summary reply in hand: the reply, the Grok Bot reply (or its
/// failure) and the time of the fetch.
pub fn read_once(creds: &Creds, summary: &Json, grok: Result<Json, String>, now: u64) -> (r: SnapshotUpdate)
    ensures
        r@ == good_reading(creds@.plan, summary@, match grok { Ok(g) => Some(g@), Err(_) => None }, now),
{
    let (mut windows, note) = parse_summary(summary);
    let ghost base = plans_view(windows@);
    if let Some(gb) = fetch_grok_bot(grok) {
        windows.push(gb);
        assert(plans_view(windows@) =~= base + seq![gb@]);
    } else {
        assert(plans_view(windows@) =~= base + Seq::<WindowView>::empty());
    }
    if windows.len() == 0 {
        return SnapshotUpdate {
            status: String::from_str("none"),
            note,
            fetched_at: Some(now),
            windows: WindowsChange::Clear,
        };
    }
    let plan_line = match json::text_of_value(summary.get("membershipType")) {
        Some(m) => {
            let mut t = text::cap(m.as_str());
            t.append(" \u{b7} via Cursor");
            t
        },
        None => match &creds.plan {
            Some(p) => {
                let mut t = text::cap(p.as_str());
                t.append(" \u{b7} via Cursor");
                t
            },
            None => String::new(),
        },
    };
    SnapshotUpdate {
        status: String::from_str("ok"),
        note: plan_line,
        fetched_at: Some(now),
        windows: WindowsChange::Replace(windows),
    }
}

/// What one reading found: no editor session to borrow, a failed usage-summary fetch, or the
/// usage-summary reply with the session it was fetched with, the Grok Bot reply (or why that
/// failed) and the time of the fetch.
#[derive(Debug)]
pub enum ReadOutcome {
    NoSession,
    FetchFailed(FetchErr),
    Reply { creds: Creds, summary: Json, grok: Result<Json, String>, now: u64 },
}

/// A reply that parsed, by its view; nothing for a failure.
pub open spec fn opt_reply(r: Result<Json, String>) -> Option<JsonView> {
    match r {
        Ok(j) => Some(j@),
        Err(_) => None,
    }
}

/// How one reading changes the snapshot, by what it found.
pub open spec fn reading_update(prev_has_windows: bool, found: ReadOutcome) -> SnapshotUpdateView {
    match found {
        ReadOutcome::NoSession => no_session(),
        ReadOutcome::FetchFailed(e) => failed_reading(prev_has_windows, e@),
        ReadOutcome::Reply { creds, summary, grok, now } => good_reading(creds@.plan, summary@, opt_reply(grok), now),
    }
}

/// The Cursor snapshot the notch shows: the reading's status and note, the windows in the
/// caller's representation, and the time of the last fetch (Unix milliseconds).
pub struct Snapshot<W> {
    pub status: String,
    pub note: String,
    pub windows: Vec<W>,
    pub fetched_at: u64,
}

/// One reading's update of the snapshot `prev`, by what the reading found.
pub fn reading<W>(prev: &Snapshot<W>, found: ReadOutcome) -> (r: SnapshotUpdate)
    ensures
        r@ == reading_update(prev.windows@.len() > 0, found),
        r@.status == "ok"@ || r@.status == "none"@ || r@.status == "needsAuth"@ || r@.status == "stale"@
            || r@.status == "error"@,
        !(r@.status == "ok"@ || r@.status == "none"@) ==> r@.windows == WindowsChangeView::Keep
            && r@.fetched_at is None,
{
    proof {
        reveal_strlit("ok");
        reveal_strlit("none");
        reveal_strlit("needsAuth");
        reveal_strlit("stale");
        reveal_strlit("error");
        assert("needsAuth"@.len() == 9 && "stale"@.len() == 5 && "error"@.len() == 5);
        assert("ok"@.len() == 2 && "none"@.len() == 4);
    }
    match found {
        ReadOutcome::NoSession => session_missing(),
        ReadOutcome::FetchFailed(e) => fetch_failed(prev.windows.len() > 0, e),
        ReadOutcome::Reply { creds, summary, grok, now } => read_once(&creds, &summary, grok, now),
    }
}

/// The windows after an update: kept, cleared, or the replacement.
pub open spec fn applied_windows<W>(prev: Seq<W>, change: WindowsChangeView, replaced: Seq<W>) -> Seq<W> {
    match change {
        WindowsChangeView::Keep => prev,
        WindowsChangeView::Clear => Seq::empty(),
        WindowsChangeView::Replace(_) => replaced,
    }
}

/// The fetch time after an update: the new one when there was a reply, else the old one.
pub open spec fn applied_fetch(prev: u64, fetched_at: Option<u64>) -> u64 {
    match fetched_at {
        Some(t) => t,
        None => prev,
    }
}

/// The snapshot after the update `u`: its status and note, its fetch time when there was a
/// reply, and its windows kept, cleared, or replaced by `replaced` (the update's windows in
/// the snapshot's representation).
pub fn apply_reading<W>(prev: Snapshot<W>, u: SnapshotUpdate, replaced: Vec<W>) -> (r: Snapshot<W>)
    ensures
        r.status@ == u@.status,
        r.note@ == u@.note,
        r.fetched_at == applied_fetch(prev.fetched_at, u@.fetched_at),
        r.windows@ == applied_windows(prev.windows@, u@.windows, replaced@),
{
    let windows = match u.windows {
        WindowsChange::Keep => prev.windows,
        WindowsChange::Clear => Vec::new(),
        WindowsChange::Replace(_) => replaced,
    };
    let fetched_at = match u.fetched_at {
        Some(t) => t,
        None => prev.fetched_at,
    };
    Snapshot { status: u.status, note: u.note, windows, fetched_at }
}

/// The log line for a reading that failed ("error" or "stale"), if any.
pub fn log_line(u: &SnapshotUpdate) -> (r: Option<String>)
    ensures
        match r {
            Some(l) => (u@.status == "error"@ || u@.status == "stale"@) && l@ == "cursor: "@ + u@.note,
            None => !(u@.status == "error"@ || u@.status == "stale"@),
        },
{
    if text::same_text(u.status.as_str(), "error") || text::same_text(u.status.as_str(), "stale") {
        let mut l = String::from_str("cursor: ");
        l.append(u.note.as_str());
        Some(l)
    } else {
        None
    }
}

/// The status of a reading loaded from disk at start: one with windows is stale until the
/// first fresh reading.
pub fn persisted_status(status: String, has_windows: bool) -> (r: String)
    ensures
        r@ == if has_windows { "stale"@ } else { status@ },
{
    if has_windows {
        String::from_str("stale")
    } else {
        status
    }
}

// ---------------- Presence and polling ----------------

/// Cursor counts as installed when its state store could be located and is a file.
pub fn present(store_is_file: Option<bool>) -> (r: bool)
    ensures
        r == (store_is_file == Some(true)),
{
    match store_is_file {
        Some(b) => b,
        None => false,
    }
}

/// Seconds between two readings.
pub const POLL_SECS: u64 = 300;

/// Seconds between two looks for an editor that is not installed.
pub const ABSENT_RECHECK_SECS: u64 = 600;

/// Where the poller stands: not yet looked, editor absent, or polling its usage.
#[derive(Clone, Copy, Debug, PartialEq, Eq, Structural)]
pub enum PollPhase {
    Starting,
    Absent,
    Polling,
}

/// What the poller asks for next.
#[derive(Clone, Copy, Debug, PartialEq, Eq, Structural)]
pub enum PollStep {
    /// Look whether the editor is installed (`present`).
    CheckPresence,
    /// Publish the "absent" snapshot.
    BroadcastAbsent,
    /// Take one reading and publish it.
    ReadAndBroadcast,
    /// Take (and clear) the refresh request, if one was made.
    CheckRefresh,
    /// Sleep one second.
    SleepSecond,
}

/// What the caller did for the step it was asked for.
#[derive(Clone, Copy, Debug, PartialEq, Eq, Structural)]
pub enum PollEvent {
    Presence { present: bool },
    Broadcast,
    Refresh { requested: bool },
    Slept,
}

/// The polling loop's state: its phase, the step it asks for, and the seconds left of the
/// current wait.
#[derive(Clone, Copy, Debug, PartialEq, Eq, Structural)]
pub struct Poller {
    pub phase: PollPhase,
    pub next: PollStep,
    pub waiting: u64,
}

/// A wait ends: an absent editor is looked for again, a present one read again.
pub open spec fn wait_over(phase: PollPhase) -> Poller {
    if phase == PollPhase::Polling {
        Poller { phase: PollPhase::Polling, next: PollStep::ReadAndBroadcast, waiting: 0 }
    } else {
        Poller { phase, next: PollStep::CheckPresence, waiting: 0 }
    }
}

/// A wait of `n` seconds, each second begun by a look at the refresh request.
pub open spec fn wait_for(phase: PollPhase, n: u64) -> Poller {
    if n > 0 {
        Poller { phase, next: PollStep::CheckRefresh, waiting: n }
    } else {
        wait_over(phase)
    }
}

/// The poller after `e`; an event that does not answer the step asked for changes nothing.
pub open spec fn poll_next(s: Poller, e: PollEvent) -> Poller {
    match (s.next, e) {
        (PollStep::CheckPresence, PollEvent::Presence { present }) => if present {
            Poller { phase: PollPhase::Polling, next: PollStep::ReadAndBroadcast, waiting: 0 }
        } else if s.phase == PollPhase::Starting {
            Poller { phase: PollPhase::Absent, next: PollStep::BroadcastAbsent, waiting: 0 }
        } else {
            wait_for(PollPhase::Absent, ABSENT_RECHECK_SECS)
        },
        (PollStep::BroadcastAbsent, PollEvent::Broadcast) => wait_for(PollPhase::Absent, ABSENT_RECHECK_SECS),
        (PollStep::ReadAndBroadcast, PollEvent::Broadcast) => wait_for(PollPhase::Polling, POLL_SECS),
        (PollStep::CheckRefresh, PollEvent::Refresh { requested }) => if requested {
            wait_over(s.phase)
        } else {
            Poller { phase: s.phase, next: PollStep::SleepSecond, waiting: s.waiting }
        },
        (PollStep::SleepSecond, PollEvent::Slept) => wait_for(s.phase, (s.waiting - 1) as u64),
        _ => s,
    }
}

impl Poller {
    /// The poller keeps these: a wait is never longer than the longer period, a wait is under
    /// way exactly while it asks about the refresh request or for sleep, and only a poller
    /// that has not looked yet is starting.
    pub open spec fn wf(self) -> bool {
        &&& self.waiting <= ABSENT_RECHECK_SECS
        &&& (self.next == PollStep::CheckRefresh || self.next == PollStep::SleepSecond) <==> self.waiting > 0
        &&& self.phase == PollPhase::Starting ==> self.next == PollStep::CheckPresence
        &&& self.phase == PollPhase::Polling ==> self.waiting <= POLL_SECS
        &&& self.phase == PollPhase::Polling ==> self.next != PollStep::CheckPresence && self.next != PollStep::BroadcastAbsent
        &&& self.phase != PollPhase::Polling ==> self.next != PollStep::ReadAndBroadcast
    }

    /// A poller that first looks whether the editor is installed.
    pub fn new() -> (p: Poller)
        ensures
            p == (Poller { phase: PollPhase::Starting, next: PollStep::CheckPresence, waiting: 0 }),
            p.wf(),
    {
        Poller { phase: PollPhase::Starting, next: PollStep::CheckPresence, waiting: 0 }
    }

    fn wait(phase: PollPhase, n: u64) -> (p: Poller)
        requires
            n <= ABSENT_RECHECK_SECS,
            phase == PollPhase::Polling ==> n <= POLL_SECS,
            phase != PollPhase::Starting,
        ensures
            p == wait_for(phase, n),
            p.wf(),
    {
        if n > 0 {
            Poller { phase, next: PollStep::CheckRefresh, waiting: n }
        } else if phase == PollPhase::Polling {
            Poller { phase: PollPhase::Polling, next: PollStep::ReadAndBroadcast, waiting: 0 }
        } else {
            Poller { phase, next: PollStep::CheckPresence, waiting: 0 }
        }
    }

    /// Takes in what the caller did and sets the step asked for next.
    pub fn step(&mut self, e: PollEvent)
        requires
            old(self).wf(),
        ensures
            *final(self) == poll_next(*old(self), e),
            final(self).wf(),
    {
        let s = *self;
        *self = match (s.next, e) {
            (PollStep::CheckPresence, PollEvent::Presence { present }) => if present {
                Poller { phase: PollPhase::Polling, next: PollStep::ReadAndBroadcast, waiting: 0 }
            } else if s.phase == PollPhase::Starting {
                Poller { phase: PollPhase::Absent, next: PollStep::BroadcastAbsent, waiting: 0 }
            } else {
                Poller::wait(PollPhase::Absent, ABSENT_RECHECK_SECS)
            },
            (PollStep::BroadcastAbsent, PollEvent::Broadcast) => Poller::wait(PollPhase::Absent, ABSENT_RECHECK_SECS),
            (PollStep::ReadAndBroadcast, PollEvent::Broadcast) => Poller::wait(PollPhase::Polling, POLL_SECS),
            (PollStep::CheckRefresh, PollEvent::Refresh { requested }) => if requested {
                if s.phase == PollPhase::Polling {
                    Poller { phase: PollPhase::Polling, next: PollStep::ReadAndBroadcast, waiting: 0 }
                } else {
                    Poller { phase: s.phase, next: PollStep::CheckPresence, waiting: 0 }
                }
            } else {
                Poller { phase: s.phase, next: PollStep::SleepSecond, waiting: s.waiting }
            },
            (PollStep::SleepSecond, PollEvent::Slept) => Poller::wait(s.phase, s.waiting - 1),
            _ => s,
        };
    }
}

// ---------------- Laws ----------------

/// The headline follows the dashboard: the Auto usage row whenever the plan reports it, the
/// blended total only for older replies without it, and a percentage of 0 is a reading, not
/// a gap: the headline is shown whatever its value, and then there is no note.
pub proof fn lemma_headline_is_a_reading(v: JsonView)
    requires
        json::as_number(json::json_get(summary_plan(v), "autoPercentUsed"@)) is Some
            || json::as_number(json::json_get(summary_plan(v), "totalPercentUsed"@)) is Some,
    ensures
        summary_windows(v).len() >= 1,
        summary_note(v) == Seq::<char>::empty(),
        json::as_number(json::json_get(summary_plan(v), "autoPercentUsed"@)) matches Some(p) ==>
            summary_windows(v)[0].label == "Auto usage"@ && summary_windows(v)[0].used == Share::Percent(p),
        json::as_number(json::json_get(summary_plan(v), "autoPercentUsed"@)) is None ==>
            summary_windows(v)[0].label == "Included usage"@,
{
    assert(metered_windows(v)[0] == headline_window(v)[0]);
}

/// Where a window stands among the windows of a reply: the headline (Auto or Included usage)
/// first, then API usage, then on-demand; 3 for any other id.
pub open spec fn window_rank(id: Seq<char>) -> int {
    if id == "auto"@ || id == "included"@ {
        0
    } else if id == "api"@ {
        1
    } else if id == "on_demand"@ {
        2
    } else {
        3
    }
}

/// The windows of a usage-summary reply are each one of Auto, Included, API and on-demand
/// usage, come in that order with no id twice and never both Auto and Included, and all reset
/// at the end of the billing cycle.
pub proof fn lemma_summary_window_ids(v: JsonView)
    ensures
        forall|i: int| 0 <= i < summary_windows(v).len() ==> window_rank(#[trigger] summary_windows(v)[i].id) < 3,
        forall|i: int, j: int| 0 <= i < j < summary_windows(v).len() ==>
            window_rank(#[trigger] summary_windows(v)[i].id) < window_rank(#[trigger] summary_windows(v)[j].id),
        forall|i: int, j: int| 0 <= i < j < summary_windows(v).len() ==>
            #[trigger] summary_windows(v)[i].id != #[trigger] summary_windows(v)[j].id,
        forall|i: int, j: int| 0 <= i < summary_windows(v).len() && 0 <= j < summary_windows(v).len() ==>
            !(#[trigger] summary_windows(v)[i].id == "auto"@ && #[trigger] summary_windows(v)[j].id == "included"@),
        forall|i: int| 0 <= i < summary_windows(v).len() ==>
            (#[trigger] summary_windows(v)[i]).resets_at == iso_millis(json::json_get(v, "billingCycleEnd"@)),
{
    reveal_strlit("auto");
    reveal_strlit("included");
    reveal_strlit("api");
    reveal_strlit("on_demand");
    let h = headline_window(v);
    let a = api_window(v);
    let d = on_demand_window(v);
    let m = metered_windows(v);
    let w = summary_windows(v);
    assert("api"@.len() == 3 && "auto"@.len() == 4 && "included"@.len() == 8 && "on_demand"@.len() == 9);
    assert("api"@ != "auto"@ && "api"@ != "included"@);
    assert("on_demand"@ != "auto"@ && "on_demand"@ != "included"@ && "on_demand"@ != "api"@);
    assert(h.len() <= 1 && a.len() <= 1 && d.len() <= 1);
    assert(h.len() == 1 ==> window_rank(h[0].id) == 0);
    assert(a.len() == 1 ==> window_rank(a[0].id) == 1);
    assert(d.len() == 1 ==> window_rank(d[0].id) == 2);
    assert forall|i: int| 0 <= i < m.len() implies
        (i < h.len() ==> m[i] == h[i])
        && (h.len() <= i < h.len() + a.len() ==> m[i] == a[i - h.len()])
        && (h.len() + a.len() <= i ==> m[i] == d[i - h.len() - a.len()]) by {
    }
    assert forall|i: int| 0 <= i < w.len() implies window_rank(#[trigger] w[i].id) < 3 by {
        if m.len() == 0 {
            assert(w == overall_window(v));
        }
    }
    assert forall|i: int, j: int| 0 <= i < j < w.len() implies
        window_rank(#[trigger] w[i].id) < window_rank(#[trigger] w[j].id) by {
        if m.len() == 0 {
            assert(w == overall_window(v));
        }
    }
    assert forall|i: int, j: int| 0 <= i < w.len() && 0 <= j < w.len() implies
        !(#[trigger] w[i].id == "auto"@ && #[trigger] w[j].id == "included"@) by {
        if w[i].id == "auto"@ && w[j].id == "included"@ {
            assert(window_rank(w[i].id) == 0 && window_rank(w[j].id) == 0);
            if i != j {
                if i < j {
                    assert(window_rank(w[i].id) < window_rank(w[j].id));
                } else {
                    assert(window_rank(w[j].id) < window_rank(w[i].id));
                }
            }
            assert("auto"@.len() != "included"@.len());
        }
    }
}

/// On-demand usage is listed exactly when the reply's `onDemand` block is enabled, has a
/// limit above zero and a used amount; then it is listed once, as "On demand", used over
/// limit, resetting at the end of the billing cycle.
pub proof fn lemma_on_demand_listed(v: JsonView)
    ensures
        ({
            let w = summary_windows(v);
            let od = json::json_get(summary_usage(v), "onDemand"@);
            let limit = json::as_number(json::json_get(json::or_null(od), "limit"@));
            let used = json::as_number(json::json_get(json::or_null(od), "used"@));
            let on = od is Some && json::as_flag(json::json_get(json::or_null(od), "enabled"@)) == Some(true)
                && opt_above_zero(limit) && used is Some;
            &&& on ==> exists|i: int| 0 <= i < w.len() && #[trigger] w[i] == window(
                "on_demand"@,
                "On demand"@,
                Share::Ratio { used: used->0, limit: limit->0 },
                iso_millis(json::json_get(v, "billingCycleEnd"@)),
            )
            &&& !on ==> forall|i: int| 0 <= i < w.len() ==> (#[trigger] w[i]).id != "on_demand"@
            &&& forall|i: int, j: int| 0 <= i < w.len() && 0 <= j < w.len() && (#[trigger] w[i]).id == "on_demand"@
                && (#[trigger] w[j]).id == "on_demand"@ ==> i == j
        }),
{
    lemma_summary_window_ids(v);
    reveal_strlit("auto");
    reveal_strlit("included");
    reveal_strlit("api");
    reveal_strlit("on_demand");
    assert("api"@.len() == 3 && "auto"@.len() == 4 && "included"@.len() == 8 && "on_demand"@.len() == 9);
    let w = summary_windows(v);
    let h = headline_window(v);
    let a = api_window(v);
    let d = on_demand_window(v);
    let m = metered_windows(v);
    assert forall|i: int, j: int| 0 <= i < w.len() && 0 <= j < w.len() && (#[trigger] w[i]).id == "on_demand"@
        && (#[trigger] w[j]).id == "on_demand"@ implies i == j by {
        if i < j {
            assert(w[i].id != w[j].id);
        } else if j < i {
            assert(w[j].id != w[i].id);
        }
    }
    if d.len() == 1 {
        let k: int = (h.len() + a.len()) as int;
        assert(m[k] == d[0]);
        assert(w[k] == d[0]);
    } else {
        assert forall|i: int| 0 <= i < w.len() implies (#[trigger] w[i]).id != "on_demand"@ by {
            if m.len() > 0 {
                assert(w == m);
                if i < h.len() {
                    assert(m[i] == h[i]);
                } else {
                    assert(m[i] == a[i - h.len()]);
                }
            } else {
                assert(w == overall_window(v));
            }
        }
    }
}

/// The overall allowance is consulted only when nothing else is metered: two replies with the
/// same billing-cycle end, plan percentages and on-demand block, of which one has a metered
/// window, have the same windows and the same note, whatever their `overall` members hold.
pub proof fn lemma_overall_only_when_unmetered(v1: JsonView, v2: JsonView)
    requires
        json::json_get(v1, "billingCycleEnd"@) == json::json_get(v2, "billingCycleEnd"@),
        summary_plan(v1) == summary_plan(v2),
        json::json_get(summary_usage(v1), "onDemand"@) == json::json_get(summary_usage(v2), "onDemand"@),
        metered_windows(v1).len() > 0,
    ensures
        summary_windows(v1) == summary_windows(v2),
        summary_note(v1) == summary_note(v2),
{
    assert(metered_windows(v1) == metered_windows(v2));
}

/// There is a note exactly when there is nothing to show.
pub proof fn lemma_note_iff_no_windows(v: JsonView)
    ensures
        (summary_note(v).len() == 0) <==> (summary_windows(v).len() > 0),
{
    reveal_strlit("The ");
    reveal_strlit("Unlimited on the ");
}

/// A Grok Bot failure never drops the primary Cursor windows: they come first in the reading,
/// whatever the Grok Bot reply, and stand alone when it failed.
pub proof fn lemma_grok_bot_never_drops_primary(summary: JsonView, grok: Option<JsonView>)
    ensures
        summary_windows(summary).is_prefix_of(reading_windows(summary, grok)),
        reading_windows(summary, None) == summary_windows(summary),
{
    assert(reading_windows(summary, grok).subrange(0, summary_windows(summary).len() as int)
        =~= summary_windows(summary));
    assert(summary_windows(summary) + Seq::<WindowView>::empty() =~= summary_windows(summary));
}

/// Stale beats invented: a failed fetch never touches the windows or the fetch time, and a
/// failure other than a refused session marks existing windows stale.
pub proof fn lemma_failure_never_invents(prev_has_windows: bool, err: FetchErrView)
    ensures
        failed_reading(prev_has_windows, err).windows == WindowsChangeView::Keep,
        failed_reading(prev_has_windows, err).fetched_at is None,
        (err is Other && prev_has_windows) ==> failed_reading(prev_has_windows, err).status == "stale"@,
{
}

/// A reading with a reply is "ok" exactly when it has windows to show, and it replaces the
/// windows with exactly those; otherwise it is "none" and clears them.
pub proof fn lemma_reading_ok_iff_windows(plan: Option<Seq<char>>, summary: JsonView, grok: Option<JsonView>, now: u64)
    ensures
        good_reading(plan, summary, grok, now).fetched_at == Some(now),
        reading_windows(summary, grok).len() > 0 ==> good_reading(plan, summary, grok, now).windows
            == WindowsChangeView::Replace(reading_windows(summary, grok)),
        reading_windows(summary, grok).len() == 0 ==> good_reading(plan, summary, grok, now).windows
            == WindowsChangeView::Clear,
        (good_reading(plan, summary, grok, now).status == "ok"@) <==> reading_windows(summary, grok).len() > 0,
{
    reveal_strlit("ok");
    reveal_strlit("none");
    assert("none"@.len() != "ok"@.len());
}

/// What one reading leaves of the previous snapshot: its status is one of "ok", "none",
/// "needsAuth", "stale" and "error"; the windows and the fetch time change only when the
/// usage-summary fetch succeeded ("ok" or "none"), and then the fetch time is the reading's.
pub proof fn lemma_one_reading<W>(prev_windows: Seq<W>, prev_fetched: u64, found: ReadOutcome, replaced: Seq<W>)
    ensures
        ({
            let u = reading_update(prev_windows.len() > 0, found);
            &&& u.status == "ok"@ || u.status == "none"@ || u.status == "needsAuth"@
                || u.status == "stale"@ || u.status == "error"@
            &&& !(u.status == "ok"@ || u.status == "none"@) ==> applied_windows(prev_windows, u.windows, replaced)
                == prev_windows && applied_fetch(prev_fetched, u.fetched_at) == prev_fetched
            &&& (found matches ReadOutcome::Reply { now, .. } ==> applied_fetch(prev_fetched, u.fetched_at) == now)
        }),
{
    reveal_strlit("ok");
    reveal_strlit("none");
    reveal_strlit("needsAuth");
    reveal_strlit("stale");
    reveal_strlit("error");
    assert("needsAuth"@.len() == 9 && "stale"@.len() == 5 && "error"@.len() == 5);
    assert("ok"@.len() == 2 && "none"@.len() == 4);
}

proof fn lemma_escaped_is_clean(s: Seq<char>)
    ensures
        forall|i: int| 0 <= i < uri_escaped(s).len() ==> {
            let c = #[trigger] uri_escaped(s)[i];
            c != '#' && c != '?' && c != '\\'
        },
    decreases s.len(),
{
    reveal_strlit("%23");
    reveal_strlit("%3F");
    if s.len() > 0 {
        let rest = s.subrange(1, s.len() as int);
        lemma_escaped_is_clean(rest);
        let c = s[0];
        let head = if c == '#' {
            "%23"@
        } else if c == '?' {
            "%3F"@
        } else if c == '\\' {
            seq!['/']
        } else {
            seq![c]
        };
        assert(uri_escaped(s) == head + uri_escaped(rest));
        assert forall|i: int| 0 <= i < head.len() implies head[i] != '#' && head[i] != '?' && head[i] != '\\' by {
        }
        assert forall|i: int| 0 <= i < uri_escaped(s).len() implies {
            let d = #[trigger] uri_escaped(s)[i];
            d != '#' && d != '?' && d != '\\'
        } by {
            if i < head.len() {
                assert(uri_escaped(s)[i] == head[i]);
            } else {
                assert(uri_escaped(s)[i] == uri_escaped(rest)[i - head.len()]);
            }
        }
    }
}

/// The store's URI has no fragment and a single query: no `#`, `?` or `\\` is left of the
/// path, which follows `file:///`, and the query is `immutable=1`.
pub proof fn lemma_uri_has_one_query(path: Seq<char>)
    ensures
        immutable_uri_of(path).subrange(0, 8) == "file:///"@,
        immutable_uri_of(path).subrange(immutable_uri_of(path).len() - 12, immutable_uri_of(path).len() as int)
            == "?immutable=1"@,
        forall|i: int| 8 <= i < immutable_uri_of(path).len() - 12 ==> {
            let c = #[trigger] immutable_uri_of(path)[i];
            c != '#' && c != '?' && c != '\\'
        },
{
    reveal_strlit("file:///");
    reveal_strlit("?immutable=1");
    let e = uri_escaped(trim_leading_slashes(path));
    lemma_escaped_is_clean(trim_leading_slashes(path));
    let u = immutable_uri_of(path);
    assert(u.subrange(0, 8) =~= "file:///"@);
    assert(u.subrange(u.len() - 12, u.len() as int) =~= "?immutable=1"@);
    assert forall|i: int| 8 <= i < u.len() - 12 implies {
        let c = #[trigger] u[i];
        c != '#' && c != '?' && c != '\\'
    } by {
        assert(u[i] == e[i - 8]);
    }
}

/// A refresh request ends a wait at once: the next step is the reading (or, while the editor
/// is absent, the look for it), whatever was left of the wait.
pub proof fn lemma_refresh_ends_wait(s: Poller)
    requires
        s.wf(),
        s.next == PollStep::CheckRefresh,
    ensures
        poll_next(s, PollEvent::Refresh { requested: true }).waiting == 0,
        s.phase == PollPhase::Polling ==> poll_next(s, PollEvent::Refresh { requested: true }).next
            == PollStep::ReadAndBroadcast,
        s.phase == PollPhase::Absent ==> poll_next(s, PollEvent::Refresh { requested: true }).next
            == PollStep::CheckPresence,
{
}

/// Once the editor was found, the poller polls for good; after each reading it waits
/// `POLL_SECS` seconds, and an absent editor is looked for again every `ABSENT_RECHECK_SECS`.
pub proof fn lemma_polling_cadence(s: Poller, e: PollEvent)
    requires
        s.wf(),
    ensures
        s.phase == PollPhase::Polling ==> poll_next(s, e).phase == PollPhase::Polling,
        (s.next == PollStep::ReadAndBroadcast && e == PollEvent::Broadcast) ==> poll_next(s, e).waiting == POLL_SECS,
        (s.next == PollStep::BroadcastAbsent && e == PollEvent::Broadcast) ==> poll_next(s, e).waiting
            == ABSENT_RECHECK_SECS,
        (s.next == PollStep::CheckPresence && e == PollEvent::Presence { present: true }) ==>
            poll_next(s, e).phase == PollPhase::Polling && poll_next(s, e).next == PollStep::ReadAndBroadcast,
{
}

/// Each second of a wait without a refresh request takes one second off it.
pub proof fn lemma_quiet_second(s: Poller)
    requires
        s.wf(),
        s.next == PollStep::CheckRefresh,
    ensures
        poll_next(s, PollEvent::Refresh { requested: false }).next == PollStep::SleepSecond,
        poll_next(poll_next(s, PollEvent::Refresh { requested: false }), PollEvent::Slept).waiting
            == (if s.waiting > 1 { s.waiting - 1 } else { 0 }),
{
}

/// The poller after it is handed the events `evs`, one after another.
pub open spec fn run(s: Poller, evs: Seq<PollEvent>) -> Poller
    decreases evs.len(),
{
    if evs.len() == 0 {
        s
    } else {
        poll_next(run(s, evs.drop_last()), evs.last())
    }
}

/// `k` quiet seconds: each a look at the refresh request, none made, then a second's sleep.
pub open spec fn quiet(k: nat) -> Seq<PollEvent>
    decreases k,
{
    if k == 0 {
        Seq::empty()
    } else {
        quiet((k - 1) as nat) + seq![PollEvent::Refresh { requested: false }, PollEvent::Slept]
    }
}

proof fn lemma_run_concat(s: Poller, a: Seq<PollEvent>, b: Seq<PollEvent>)
    ensures
        run(s, a + b) == run(run(s, a), b),
    decreases b.len(),
{
    if b.len() == 0 {
        assert(a + b =~= a);
    } else {
        lemma_run_concat(s, a, b.drop_last());
        assert((a + b).drop_last() =~= a + b.drop_last());
        assert((a + b).last() == b.last());
    }
}

proof fn lemma_run_quiet(p: PollPhase, n: u64, k: nat)
    requires
        k <= n,
    ensures
        run(wait_for(p, n), quiet(k)) == wait_for(p, (n - k) as u64),
    decreases k,
{
    if k > 0 {
        lemma_run_quiet(p, n, (k - 1) as nat);
        let a = quiet((k - 1) as nat);
        let q = quiet(k);
        let r = PollEvent::Refresh { requested: false };
        let w = wait_for(p, n);
        assert(q == a + seq![r, PollEvent::Slept]);
        assert(q.drop_last() =~= a.push(r));
        assert(q.last() == PollEvent::Slept);
        assert(a.push(r).drop_last() =~= a);
        assert(a.push(r).last() == r);
        assert(run(w, a.push(r)) == poll_next(run(w, a), r));
        assert(run(w, q) == poll_next(run(w, q.drop_last()), PollEvent::Slept));
    }
}

/// The reading cadence: after a reading is published the poller waits; each quiet second
/// takes one off the `POLL_SECS` seconds, and only when all have passed is the next reading
/// asked for, while a refresh request at any second of the wait asks for it at once.
pub proof fn lemma_refresh_to_read(s: Poller, k: nat)
    requires
        s.wf(),
        s.next == PollStep::ReadAndBroadcast,
        k <= POLL_SECS,
    ensures
        k < POLL_SECS ==> run(s, seq![PollEvent::Broadcast] + quiet(k))
            == (Poller { phase: PollPhase::Polling, next: PollStep::CheckRefresh, waiting: (POLL_SECS - k) as u64 }),
        k == POLL_SECS ==> run(s, seq![PollEvent::Broadcast] + quiet(k)).next == PollStep::ReadAndBroadcast,
        k < POLL_SECS ==> run(s, seq![PollEvent::Broadcast] + quiet(k) + seq![PollEvent::Refresh { requested: true }]).next
            == PollStep::ReadAndBroadcast,
{
    let b = seq![PollEvent::Broadcast];
    assert(b.drop_last() =~= Seq::<PollEvent>::empty());
    assert(run(s, b.drop_last()) == s);
    assert(run(s, b) == poll_next(s, PollEvent::Broadcast));
    assert(run(s, b) == wait_for(PollPhase::Polling, POLL_SECS));
    lemma_run_concat(s, b, quiet(k));
    lemma_run_quiet(PollPhase::Polling, POLL_SECS, k);
    let t = seq![PollEvent::Refresh { requested: true }];
    lemma_run_concat(s, b + quiet(k), t);
    assert(t.drop_last() =~= Seq::<PollEvent>::empty());
    let mid = run(s, b + quiet(k));
    assert(run(mid, t.drop_last()) == mid);
    assert(run(mid, t) == poll_next(mid, PollEvent::Refresh { requested: true }));
}

/// The absent-editor cadence: a poller that starts and finds no editor publishes the "absent"
/// snapshot and then looks again every `ABSENT_RECHECK_SECS` quiet seconds, or at once on a
/// refresh request; it asks for a reading only after a look that found the editor.
pub proof fn lemma_absent_cadence(k: nat, s: Poller, e: PollEvent)
    requires
        k <= ABSENT_RECHECK_SECS,
        s.wf(),
    ensures
        ({
            let start = Poller { phase: PollPhase::Starting, next: PollStep::CheckPresence, waiting: 0 };
            let found_none = seq![PollEvent::Presence { present: false }, PollEvent::Broadcast];
            &&& run(start, seq![PollEvent::Presence { present: false }]).next == PollStep::BroadcastAbsent
            &&& k < ABSENT_RECHECK_SECS ==> run(start, found_none + quiet(k))
                == (Poller { phase: PollPhase::Absent, next: PollStep::CheckRefresh, waiting: (ABSENT_RECHECK_SECS - k) as u64 })
            &&& k == ABSENT_RECHECK_SECS ==> run(start, found_none + quiet(k))
                == (Poller { phase: PollPhase::Absent, next: PollStep::CheckPresence, waiting: 0 })
            &&& k < ABSENT_RECHECK_SECS ==> run(start, found_none + quiet(k) + seq![PollEvent::Refresh { requested: true }])
                == (Poller { phase: PollPhase::Absent, next: PollStep::CheckPresence, waiting: 0 })
        }),
        poll_next(s, e).next == PollStep::ReadAndBroadcast ==>
            s.phase == PollPhase::Polling || e == (PollEvent::Presence { present: true }),
{
    let start = Poller { phase: PollPhase::Starting, next: PollStep::CheckPresence, waiting: 0 };
    let p0 = seq![PollEvent::Presence { present: false }];
    let found_none = seq![PollEvent::Presence { present: false }, PollEvent::Broadcast];
    assert(p0.drop_last() =~= Seq::<PollEvent>::empty());
    assert(run(start, p0.drop_last()) == start);
    assert(run(start, p0) == poll_next(start, PollEvent::Presence { present: false }));
    assert(found_none.drop_last() =~= p0);
    assert(run(start, found_none) == poll_next(run(start, p0), PollEvent::Broadcast));
    assert(run(start, found_none) == wait_for(PollPhase::Absent, ABSENT_RECHECK_SECS));
    lemma_run_concat(start, found_none, quiet(k));
    lemma_run_quiet(PollPhase::Absent, ABSENT_RECHECK_SECS, k);
    let t = seq![PollEvent::Refresh { requested: true }];
    lemma_run_concat(start, found_none + quiet(k), t);
    assert(t.drop_last() =~= Seq::<PollEvent>::empty());
    let mid = run(start, found_none + quiet(k));
    assert(run(mid, t.drop_last()) == mid);
    assert(run(mid, t) == poll_next(mid, PollEvent::Refresh { requested: true }));
}

/// The Grok Bot window is the reply's weekly meter: when there is one it is "grok_bot", its
/// share is the reply's `usagePercent` as a percentage, and it resets at the reply's
/// `nextResetTimestampUtc`; it depends on no other member than those and the three flags, so
/// two replies that agree on them (differing, say, in `currentPeriodStart`) give the same
/// window.
pub proof fn lemma_grok_bot_window(v: JsonView, v2: JsonView)
    ensures
        sand_window(v) is Some <==> ({
            &&& json::as_flag(json::json_get(v, "usesPooledEnterpriseAllowance"@)) != Some(true)
            &&& json::as_flag(json::json_get(v, "hasNonZeroIncludedLimit"@)) != Some(false)
            &&& json::as_flag(json::json_get(v, "includedLimitZero"@)) != Some(true)
            &&& json::as_number(json::json_get(v, "usagePercent"@)) matches Some(p) && at_least_zero(p)
        }),
        sand_window(v) matches Some(w) ==> {
            &&& w.id == "grok_bot"@
            &&& w.label == "Grok Bot"@
            &&& json::as_number(json::json_get(v, "usagePercent"@)) is Some
            &&& w.used == Share::Percent(json::as_number(json::json_get(v, "usagePercent"@))->0)
            &&& w.resets_at == iso_millis(json::json_get(v, "nextResetTimestampUtc"@))
        },
        ({
            &&& json::json_get(v, "usesPooledEnterpriseAllowance"@) == json::json_get(v2, "usesPooledEnterpriseAllowance"@)
            &&& json::json_get(v, "hasNonZeroIncludedLimit"@) == json::json_get(v2, "hasNonZeroIncludedLimit"@)
            &&& json::json_get(v, "includedLimitZero"@) == json::json_get(v2, "includedLimitZero"@)
            &&& json::json_get(v, "usagePercent"@) == json::json_get(v2, "usagePercent"@)
            &&& json::json_get(v, "nextResetTimestampUtc"@) == json::json_get(v2, "nextResetTimestampUtc"@)
        }) ==> sand_window(v) == sand_window(v2),
{
}

/// Each plan-percentage window carries its own member as a percentage: Auto usage the plan's
/// `autoPercentUsed`, API usage its `apiPercentUsed` (above zero), Included usage its
/// `totalPercentUsed` when the plan reports no Auto usage, or else, with nothing metered, the
/// overall allowance's used over limit.
pub proof fn lemma_window_shares(v: JsonView)
    ensures
        forall|i: int| 0 <= i < summary_windows(v).len() ==> {
            let w = #[trigger] summary_windows(v)[i];
            let plan = summary_plan(v);
            let auto = json::as_number(json::json_get(plan, "autoPercentUsed"@));
            let api = json::as_number(json::json_get(plan, "apiPercentUsed"@));
            let total = json::as_number(json::json_get(plan, "totalPercentUsed"@));
            let ov = json::or_null(json::json_get(summary_usage(v), "overall"@));
            &&& w.id == "auto"@ ==> w.label == "Auto usage"@
            &&& w.id == "api"@ ==> w.label == "API usage"@
            &&& w.id == "included"@ ==> w.label == "Included usage"@
            &&& w.id == "on_demand"@ ==> w.label == "On demand"@
            &&& w.id == "auto"@ ==> auto is Some && w.used == Share::Percent(auto->0)
            &&& w.id == "api"@ ==> api is Some && above_zero(api->0) && w.used == Share::Percent(api->0)
            &&& w.id == "included"@ ==> auto is None && (total matches Some(t) ==> w.used == Share::Percent(t))
                && (total is None ==> w.used == Share::Ratio {
                    used: json::as_number(json::json_get(ov, "used"@))->0,
                    limit: json::as_number(json::json_get(ov, "limit"@))->0,
                })
        },
        json::as_number(json::json_get(summary_plan(v), "autoPercentUsed"@)) is Some ==>
            summary_windows(v).len() > 0 && summary_windows(v)[0].id == "auto"@,
        (json::as_number(json::json_get(summary_plan(v), "autoPercentUsed"@)) is None
            && json::as_number(json::json_get(summary_plan(v), "totalPercentUsed"@)) is Some) ==>
            summary_windows(v).len() > 0 && summary_windows(v)[0].id == "included"@,
        json::as_number(json::json_get(summary_plan(v), "apiPercentUsed"@)) matches Some(p) && above_zero(p) ==>
            exists|i: int| 0 <= i < summary_windows(v).len() && (#[trigger] summary_windows(v)[i]).id == "api"@,
        !(json::as_number(json::json_get(summary_plan(v), "apiPercentUsed"@)) matches Some(p) && above_zero(p)) ==>
            forall|i: int| 0 <= i < summary_windows(v).len() ==> (#[trigger] summary_windows(v)[i]).id != "api"@,
{
    reveal_strlit("auto");
    reveal_strlit("included");
    reveal_strlit("api");
    reveal_strlit("on_demand");
    assert("api"@.len() == 3 && "auto"@.len() == 4 && "included"@.len() == 8 && "on_demand"@.len() == 9);
    assert("api"@ != "auto"@ && "api"@ != "included"@ && "auto"@ != "included"@);
    assert("on_demand"@ != "auto"@ && "on_demand"@ != "included"@ && "on_demand"@ != "api"@);
    let w = summary_windows(v);
    let h = headline_window(v);
    let a = api_window(v);
    let d = on_demand_window(v);
    let m = metered_windows(v);
    assert forall|i: int| 0 <= i < m.len() implies
        (i < h.len() ==> m[i] == h[i])
        && (h.len() <= i < h.len() + a.len() ==> m[i] == a[i - h.len()])
        && (h.len() + a.len() <= i ==> m[i] == d[i - h.len() - a.len()]) by {
    }
    assert(h.len() <= 1 && a.len() <= 1 && d.len() <= 1);
    if m.len() == 0 {
        assert(w == overall_window(v));
    }
    if a.len() == 1 {
        let k: int = h.len() as int;
        assert(m[k] == a[0]);
        assert(w[k].id == "api"@);
    }
}

/// A missing account id and an empty one are the same: either way the session falls back to
/// the token's `sub` claim; with a stored, non-empty account id the cookie carries that id.
pub proof fn lemma_session_account_id(token: Option<Seq<char>>, plan: Option<Seq<char>>, tk: Seq<char>, a: Seq<char>)
    ensures
        session_of(token, None, plan) == session_of(token, Some(Seq::empty()), plan),
        (tk.len() > 0 && crate::token::jwt_subject(vstd::utf8::encode_utf8(tk)) == Some(a)) ==>
            session_of(Some(tk), None, plan) == Some(CredsView {
                cookie: "WorkosCursorSessionToken="@ + a + "::"@ + tk,
                token: tk,
                plan: stored(plan),
            }),
        (tk.len() > 0 && a.len() > 0) ==> session_of(Some(tk), Some(a), plan) == Some(CredsView {
            cookie: "WorkosCursorSessionToken="@ + a + "::"@ + tk,
            token: tk,
            plan: stored(plan),
        }),
        stored(token) is None ==> session_of(token, Some(a), plan) is None,
{
}

proof fn lemma_plain_is_unescaped(s: Seq<char>)
    requires
        forall|i: int| 0 <= i < s.len() ==> #[trigger] s[i] != '\\' && s[i] != '#' && s[i] != '?',
    ensures
        uri_escaped(s) == s,
    decreases s.len(),
{
    if s.len() > 0 {
        let rest = s.subrange(1, s.len() as int);
        assert forall|i: int| 0 <= i < rest.len() implies #[trigger] rest[i] != '\\' && rest[i] != '#' && rest[i] != '?' by {
            assert(rest[i] == s[i + 1]);
        }
        lemma_plain_is_unescaped(rest);
        assert(seq![s[0]] + rest =~= s);
    }
}

/// Every path character other than `\\`, `#` and `?` is copied into the URI unchanged: a path
/// with none of them that does not begin with `/` stands as it is between `file:///` and
/// `?immutable=1`.
pub proof fn lemma_plain_path_uri(path: Seq<char>)
    requires
        forall|i: int| 0 <= i < path.len() ==> #[trigger] path[i] != '\\' && path[i] != '#' && path[i] != '?',
        path.len() == 0 || path[0] != '/',
    ensures
        immutable_uri_of(path) == "file:///"@ + path + "?immutable=1"@,
{
    assert(trim_leading_slashes(path) == path);
    lemma_plain_is_unescaped(path);
}

/// How the path becomes the URI, character by character: the escaping of a joined path is the
/// joined escapings, `#` becomes `%23`, `?` becomes `%3F`, `\\` becomes `/`, and leading `/`
/// or `\\` are dropped before it.
pub proof fn lemma_uri_characters(a: Seq<char>, b: Seq<char>, p: Seq<char>)
    ensures
        uri_escaped(a + b) == uri_escaped(a) + uri_escaped(b),
        uri_escaped(seq!['#']) == "%23"@,
        uri_escaped(seq!['?']) == "%3F"@,
        uri_escaped(seq!['\\']) == seq!['/'],
        immutable_uri_of(seq!['/'] + p) == immutable_uri_of(p),
        immutable_uri_of(seq!['\\'] + p) == immutable_uri_of(p),
    decreases a.len(),
{
    if a.len() > 0 {
        let rest = a.subrange(1, a.len() as int);
        lemma_uri_characters(rest, b, p);
        assert((a + b).subrange(1, (a + b).len() as int) =~= rest + b);
        assert((a + b)[0] == a[0]);
    } else {
        assert(a + b =~= b);
    }
    let e: Seq<char> = Seq::empty();
    assert(uri_escaped(e) == e);
    assert(seq!['#'].subrange(1, 1) =~= e);
    assert(uri_escaped(seq!['#']) == "%23"@ + uri_escaped(e));
    assert(seq!['?'].subrange(1, 1) =~= e);
    assert(seq!['?'][0] == '?');
    assert(uri_escaped(seq!['?']) == "%3F"@ + uri_escaped(e));
    assert(seq!['?'].subrange(1, 1) =~= e);
    assert(seq!['\\'].subrange(1, 1) =~= e);
    assert("%23"@ + e =~= "%23"@);
    assert("%3F"@ + e =~= "%3F"@);
    assert((seq!['/'] + p).subrange(1, p.len() + 1int) =~= p);
    assert((seq!['\\'] + p).subrange(1, p.len() + 1int) =~= p);
}

} // verus!
