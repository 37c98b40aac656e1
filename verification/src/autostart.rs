//! Start at sign-in: an `HKCU\...\Run` registry value (per user, no administrator needed),
//! written and removed with `reg.exe`. The command carries `--silent`: wait in the background,
//! show no bar without sessions, appear when one starts.

use vstd::prelude::*;
use crate::text;

verus! {

/// The per-user Run key.
pub const RUN_KEY: &'static str = "HKCU\\Software\\Microsoft\\Windows\\CurrentVersion\\Run";

/// The value name under the Run key.
pub const NAME: &'static str = "Codenotch";

pub open spec fn texts(v: Seq<String>) -> Seq<Seq<char>> {
    v.map_values(|s: String| s@)
}

/// The arguments of `reg.exe` that look the value up.
pub fn query_args() -> (r: Vec<String>)
    ensures
        texts(r@) == seq!["query"@, RUN_KEY@, "/v"@, NAME@],
{
    let r = vec![String::from_str("query"), String::from_str(RUN_KEY), String::from_str("/v"), String::from_str(NAME)];
    assert(texts(r@) =~= seq!["query"@, RUN_KEY@, "/v"@, NAME@]);
    r
}

/// The arguments of `reg.exe` that write the value `value` (as `REG_SZ`, overwriting).
pub fn add_args(value: &str) -> (r: Vec<String>)
    ensures
        texts(r@) == seq!["add"@, RUN_KEY@, "/v"@, NAME@, "/t"@, "REG_SZ"@, "/d"@, value@, "/f"@],
{
    let r = vec![
        String::from_str("add"),
        String::from_str(RUN_KEY),
        String::from_str("/v"),
        String::from_str(NAME),
        String::from_str("/t"),
        String::from_str("REG_SZ"),
        String::from_str("/d"),
        String::from_str(value),
        String::from_str("/f"),
    ];
    assert(texts(r@) =~= seq!["add"@, RUN_KEY@, "/v"@, NAME@, "/t"@, "REG_SZ"@, "/d"@, value@, "/f"@]);
    r
}

/// The arguments of `reg.exe` that remove the value.
pub fn delete_args() -> (r: Vec<String>)
    ensures
        texts(r@) == seq!["delete"@, RUN_KEY@, "/v"@, NAME@, "/f"@],
{
    let r = vec![String::from_str("delete"), String::from_str(RUN_KEY), String::from_str("/v"), String::from_str(NAME), String::from_str("/f")];
    assert(texts(r@) =~= seq!["delete"@, RUN_KEY@, "/v"@, NAME@, "/f"@]);
    r
}

/// The command the Run value holds: the quoted executable path, then `--silent`.
pub fn run_value(exe: &str) -> (r: String)
    ensures
        r@ == "\""@ + exe@ + "\" --silent"@,
{
    let mut r = String::from_str("\"");
    r.append(exe);
    r.append("\" --silent");
    r
}

/// A run of `reg.exe`: whether it succeeded and its stdout and stderr, or nothing when it
/// could not be run.
pub open spec fn reply_view(reply: Option<(bool, String)>) -> Option<(bool, Seq<char>)> {
    match reply {
        Some((ok, out)) => Some((ok, out@)),
        None => None,
    }
}

/// Start at sign-in is on when the query succeeds and its output names the value.
pub open spec fn entry_present(reply: Option<(bool, Seq<char>)>) -> bool {
    match reply {
        Some((ok, out)) => ok && text::text_contains(out, NAME@),
        None => false,
    }
}

/// Whether start at sign-in is on, from the `reg.exe` run of `query_args`.
pub fn is_enabled(reply: Option<(bool, String)>) -> (r: bool)
    ensures
        r == entry_present(reply_view(reply)),
{
    match reply {
        Some((ok, out)) => ok && text::contains(out.as_str(), NAME),
        None => false,
    }
}

pub open spec fn result_view(r: Result<String, String>) -> Result<Seq<char>, Seq<char>> {
    match r {
        Ok(s) => Ok(s@),
        Err(e) => Err(e@),
    }
}

/// The outcome of writing the Run value, from the `reg.exe` run of `add_args`.
pub fn enable(reply: Option<(bool, String)>) -> (r: Result<String, String>)
    ensures
        result_view(r) == match reply_view(reply) {
            Some((true, _)) => Ok("start at sign-in enabled (silent until a session appears)"@),
            Some((false, out)) => Err(out),
            None => Err("reg.exe failed to run"@),
        },
{
    match reply {
        Some((true, _)) => Ok(String::from_str("start at sign-in enabled (silent until a session appears)")),
        Some((false, out)) => Err(out),
        None => Err(String::from_str("reg.exe failed to run")),
    }
}

/// `reg.exe` answers in the OS language that the value was not there: "unable to find" in
/// English (in any letter case), "找不到" in Chinese.
pub open spec fn says_not_found(out: Seq<char>) -> bool {
    text::text_contains(text::fold_ascii(out), "unable to find"@)
        || text::text_contains(out, "\u{627e}\u{4e0d}\u{5230}"@)
}

/// The outcome of removing the Run value, from the `reg.exe` run of `delete_args`; a value
/// that was not there is no failure.
pub fn disable(reply: Option<(bool, String)>) -> (r: Result<String, String>)
    ensures
        result_view(r) == match reply_view(reply) {
            Some((true, _)) => Ok("start at sign-in disabled"@),
            Some((false, out)) => if says_not_found(out) {
                Ok("start at sign-in was not enabled"@)
            } else {
                Err(out)
            },
            None => Err("reg.exe failed to run"@),
        },
{
    match reply {
        Some((true, _)) => Ok(String::from_str("start at sign-in disabled")),
        Some((false, out)) => {
            if text::contains_folded(out.as_str(), "unable to find") || text::contains(out.as_str(), "\u{627e}\u{4e0d}\u{5230}") {
                Ok(String::from_str("start at sign-in was not enabled"))
            } else {
                Err(out)
            }
        },
        None => Err(String::from_str("reg.exe failed to run")),
    }
}

/// What first-run onboarding does: nothing once the question was asked; otherwise it only
/// records the question as asked when a Run value is already there (the answer is known),
/// and asks first when there is none.
#[derive(Clone, Copy, Debug, PartialEq, Eq, Structural)]
pub enum OfferPlan {
    Skip,
    MarkAsked,
    AskThenMark,
}

/// The onboarding step for the remembered answer and the Run value's presence.
pub open spec fn offer_plan(already_offered: bool, entry_present: bool) -> OfferPlan {
    if already_offered {
        OfferPlan::Skip
    } else if entry_present {
        OfferPlan::MarkAsked
    } else {
        OfferPlan::AskThenMark
    }
}

/// Whether the question counts as asked after a step: it is recorded by every step but `Skip`.
pub open spec fn offered_after(already_offered: bool, plan: OfferPlan) -> bool {
    already_offered || plan != OfferPlan::Skip
}

/// Onboarding offers, never forces, start at sign-in, and asks exactly once.
pub fn offer_on_first_run(already_offered: bool, entry_present: bool) -> (r: OfferPlan)
    ensures
        r == offer_plan(already_offered, entry_present),
{
    if already_offered {
        OfferPlan::Skip
    } else if entry_present {
        OfferPlan::MarkAsked
    } else {
        OfferPlan::AskThenMark
    }
}

/// The log line for the answer "yes": what `enable` reported.
pub fn onboarding_log(result: &Result<String, String>) -> (r: String)
    ensures
        r@ == match result {
            Ok(m) => "onboarding: "@ + m@,
            Err(e) => "onboarding: autostart failed: "@ + e@,
        },
{
    match result {
        Ok(m) => {
            let mut l = String::from_str("onboarding: ");
            l.append(m.as_str());
            l
        },
        Err(e) => {
            let mut l = String::from_str("onboarding: autostart failed: ");
            l.append(e.as_str());
            l
        },
    }
}

/// The question is asked at most once: whatever the Run value says on the first run, the
/// answer is recorded, and every later run skips the question.
pub proof fn lemma_asked_at_most_once(first_entry: bool, later_entry: bool)
    ensures
        offered_after(false, offer_plan(false, first_entry)),
        offer_plan(offered_after(false, offer_plan(false, first_entry)), later_entry) == OfferPlan::Skip,
{
}

/// An existing Run value means the question is already answered: it is never asked then.
pub proof fn lemma_existing_entry_is_an_answer(already_offered: bool)
    ensures
        offer_plan(already_offered, true) != OfferPlan::AskThenMark,
{
}

} // verus!
