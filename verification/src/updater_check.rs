//! Background self-update decisions. Only an installed copy updates itself: the update's
//! payload is the setup executable, so running it from a portable copy would silently turn
//! that copy into an installation. A portable copy gets a notice on the notch instead.
//! Checks run at start and every 24 hours; a failed check waits for the next round.

use vstd::prelude::*;
use crate::text;

verus! {

/// Seconds between two update checks.
pub const CHECK_SECS: u64 = 24 * 60 * 60;

/// What an update check came to.
#[derive(Debug)]
pub enum Outcome {
    UpToDate,
    /// Downloaded and installed; the caller decides when to restart.
    Installed(String),
    /// A newer version exists but this is a portable copy.
    PortableNewer(String),
}

pub enum OutcomeView {
    UpToDate,
    Installed(Seq<char>),
    PortableNewer(Seq<char>),
}

impl View for Outcome {
    type V = OutcomeView;

    open spec fn view(&self) -> OutcomeView {
        match self {
            Outcome::UpToDate => OutcomeView::UpToDate,
            Outcome::Installed(v) => OutcomeView::Installed(v@),
            Outcome::PortableNewer(v) => OutcomeView::PortableNewer(v@),
        }
    }
}

pub open spec fn outcome_result_view(r: Result<Outcome, String>) -> Result<OutcomeView, Seq<char>> {
    match r {
        Ok(o) => Ok(o@),
        Err(e) => Err(e@),
    }
}

/// An installed copy: the installer's uninstaller lies next to the executable, or the
/// executable lies under the per-user install directory. Either is unknown (`None`) when the
/// executable's location is.
pub fn is_installed_copy(uninstaller_beside_exe: Option<bool>, under_install_root: Option<bool>) -> (r: bool)
    ensures
        r == (uninstaller_beside_exe == Some(true) || under_install_root == Some(true)),
{
    uninstaller_beside_exe == Some(true) || under_install_root == Some(true)
}

/// What follows an update check.
#[derive(Debug)]
pub enum CheckStep {
    /// The check is over with this result.
    Finish(Result<Outcome, String>),
    /// Download and install `version`, logging `log` first.
    Install { version: String, log: String },
}

pub enum CheckStepView {
    Finish(Result<OutcomeView, Seq<char>>),
    Install { version: Seq<char>, log: Seq<char> },
}

impl View for CheckStep {
    type V = CheckStepView;

    open spec fn view(&self) -> CheckStepView {
        match self {
            CheckStep::Finish(r) => CheckStepView::Finish(outcome_result_view(*r)),
            CheckStep::Install { version, log } => CheckStepView::Install { version: version@, log: log@ },
        }
    }
}

/// The step after the check's answer: up to date; a newer version that a portable copy
/// only announces; a newer version that an installed copy downloads and installs; a failure.
pub open spec fn check_step(found: Result<Option<Seq<char>>, Seq<char>>, installed: bool) -> CheckStepView {
    match found {
        Ok(None) => CheckStepView::Finish(Ok(OutcomeView::UpToDate)),
        Ok(Some(v)) => if installed {
            CheckStepView::Install { version: v, log: "updater: downloading "@ + v }
        } else {
            CheckStepView::Finish(Ok(OutcomeView::PortableNewer(v)))
        },
        Err(e) => CheckStepView::Finish(Err(e)),
    }
}

pub open spec fn found_view(found: Result<Option<String>, String>) -> Result<Option<Seq<char>>, Seq<char>> {
    match found {
        Ok(o) => Ok(text::opt_text(o)),
        Err(e) => Err(e@),
    }
}

/// What follows the check's answer (`Ok(None)`: up to date, `Ok(Some(v))`: version `v` is
/// available, `Err(e)`: the check failed), given whether this copy is installed.
pub fn after_check(found: Result<Option<String>, String>, installed: bool) -> (r: CheckStep)
    ensures
        r@ == check_step(found_view(found), installed),
{
    match found {
        Ok(None) => CheckStep::Finish(Ok(Outcome::UpToDate)),
        Ok(Some(v)) => {
            if !installed {
                CheckStep::Finish(Ok(Outcome::PortableNewer(v)))
            } else {
                let mut log = String::from_str("updater: downloading ");
                log.append(v.as_str());
                CheckStep::Install { version: v, log }
            }
        },
        Err(e) => CheckStep::Finish(Err(e)),
    }
}

/// The check's result once the download and install of `version` has finished or failed.
pub open spec fn install_result(version: Seq<char>, result: Result<(), Seq<char>>) -> Result<OutcomeView, Seq<char>> {
    match result {
        Ok(()) => Ok(OutcomeView::Installed(version)),
        Err(e) => Err(e),
    }
}

/// The check's result once the download and install of `version` is done or has failed.
pub fn after_install(version: String, result: Result<(), String>) -> (r: Result<Outcome, String>)
    ensures
        outcome_result_view(r) == install_result(version@, match result {
            Ok(()) => Ok(()),
            Err(e) => Err(e@),
        }),
{
    match result {
        Ok(()) => Ok(Outcome::Installed(version)),
        Err(e) => Err(e),
    }
}

/// "{v} is available — download it from the Releases page", localized: the template with
/// every `{v}` replaced by the version.
pub fn portable_notice(template: &str, version: &str) -> (r: String)
    ensures
        r@ == text::replace_all(template@, "{v}"@, version@),
{
    proof {
        reveal_strlit("{v}");
    }
    text::replace_text(template, "{v}", version)
}

/// What the update loop does with a check's result: what to log, whether to restart now,
/// and the version to announce on the notch for a portable copy.
#[derive(Debug)]
pub struct UpdaterAction {
    pub log: Option<String>,
    pub restart: bool,
    pub notice_version: Option<String>,
}

pub struct UpdaterActionView {
    pub log: Option<Seq<char>>,
    pub restart: bool,
    pub notice_version: Option<Seq<char>>,
}

impl View for UpdaterAction {
    type V = UpdaterActionView;

    open spec fn view(&self) -> UpdaterActionView {
        UpdaterActionView {
            log: text::opt_text(self.log),
            restart: self.restart,
            notice_version: text::opt_text(self.notice_version),
        }
    }
}

/// One round of the update loop: an installed update restarts the app, a newer version for a
/// portable copy is announced, a failure is logged and retried next round.
pub open spec fn updater_action(result: Result<OutcomeView, Seq<char>>) -> UpdaterActionView {
    match result {
        Ok(OutcomeView::Installed(v)) => UpdaterActionView {
            log: Some("updater: "@ + v + " installed \u{2014} restarting"@),
            restart: true,
            notice_version: None,
        },
        Ok(OutcomeView::PortableNewer(v)) => UpdaterActionView {
            log: Some("updater: "@ + v + " is available \u{2014} portable copy, not self-updating"@),
            restart: false,
            notice_version: Some(v),
        },
        Ok(OutcomeView::UpToDate) => UpdaterActionView { log: None, restart: false, notice_version: None },
        Err(e) => UpdaterActionView {
            log: Some("updater: check failed: "@ + e),
            restart: false,
            notice_version: None,
        },
    }
}

/// One round of the update loop, after a check; the loop then waits `CHECK_SECS`.
pub fn updater_step(result: &Result<Outcome, String>) -> (r: UpdaterAction)
    ensures
        r@ == updater_action(outcome_result_view(*result)),
{
    match result {
        Ok(Outcome::Installed(v)) => {
            let mut l = String::from_str("updater: ");
            l.append(v.as_str());
            l.append(" installed \u{2014} restarting");
            UpdaterAction { log: Some(l), restart: true, notice_version: None }
        },
        Ok(Outcome::PortableNewer(v)) => {
            let mut l = String::from_str("updater: ");
            l.append(v.as_str());
            l.append(" is available \u{2014} portable copy, not self-updating");
            UpdaterAction { log: Some(l), restart: false, notice_version: Some(v.clone()) }
        },
        Ok(Outcome::UpToDate) => UpdaterAction { log: None, restart: false, notice_version: None },
        Err(e) => {
            let mut l = String::from_str("updater: check failed: ");
            l.append(e.as_str());
            UpdaterAction { log: Some(l), restart: false, notice_version: None }
        },
    }
}

/// The result of a whole check: the step's own result, or the install's for an update that
/// was downloaded.
pub open spec fn check_result(
    found: Result<Option<Seq<char>>, Seq<char>>,
    installed: bool,
    install: Result<(), Seq<char>>,
) -> Result<OutcomeView, Seq<char>> {
    match check_step(found, installed) {
        CheckStepView::Finish(r) => r,
        CheckStepView::Install { version, log } => install_result(version, install),
    }
}

/// Only an installed copy updates itself: whatever the check and the install come to, the
/// update loop restarts the app only for an installed copy, and a portable copy is at most
/// told about a newer version, which it never installs.
pub proof fn lemma_only_installed_copies_update(
    found: Result<Option<Seq<char>>, Seq<char>>,
    installed: bool,
    install: Result<(), Seq<char>>,
)
    ensures
        updater_action(check_result(found, installed, install)).restart ==> installed,
        !installed ==> check_step(found, installed) is Finish,
        !installed ==> !(check_result(found, installed, install) matches Ok(OutcomeView::Installed(_))),
{
}

/// A newer version is announced on the notch exactly when a portable copy finds one.
pub proof fn lemma_portable_copies_are_told(
    found: Result<Option<Seq<char>>, Seq<char>>,
    installed: bool,
    install: Result<(), Seq<char>>,
)
    ensures
        updater_action(check_result(found, installed, install)).notice_version is Some
            <==> (!installed && found matches Ok(Some(_))),
        !installed ==> (found matches Ok(Some(v)) ==>
            updater_action(check_result(found, installed, install)).notice_version == Some(v)),
{
}

/// A template without `{v}` is the notice as it stands.
pub proof fn lemma_notice_without_placeholder(template: Seq<char>, version: Seq<char>)
    requires
        !text::text_contains(template, "{v}"@),
    ensures
        text::replace_all(template, "{v}"@, version) == template,
    decreases template.len(),
{
    reveal_strlit("{v}");
    if template.len() > 0 {
        let rest = template.subrange(1, template.len() as int);
        assert(!text::occurs_at(template, "{v}"@, 0));
        assert(!text::text_contains(rest, "{v}"@)) by {
            if text::text_contains(rest, "{v}"@) {
                let i = choose|i: int| text::occurs_at(rest, "{v}"@, i);
                assert(template.subrange(i + 1, i + 1 + 3) =~= rest.subrange(i, i + 3));
                assert(text::occurs_at(template, "{v}"@, i + 1));
            }
        }
        lemma_notice_without_placeholder(rest, version);
        assert(seq![template[0]] + rest =~= template);
    }
}

} // verus!
