use codenotch::updater_check::{
    after_check, after_install, is_installed_copy, portable_notice, updater_step, CheckStep, Outcome, CHECK_SECS,
};

#[test]
fn installed_copy_marks() {
    assert!(is_installed_copy(Some(true), None));
    assert!(is_installed_copy(Some(false), Some(true)));
    assert!(!is_installed_copy(Some(false), Some(false)));
    assert!(!is_installed_copy(None, None));
    assert_eq!(CHECK_SECS, 86_400);
}

#[test]
fn portable_copy_is_only_told() {
    match after_check(Ok(Some("1.2.0".to_string())), false) {
        CheckStep::Finish(Ok(Outcome::PortableNewer(v))) => assert_eq!(v, "1.2.0"),
        other => panic!("unexpected {:?}", other),
    }
}

#[test]
fn installed_copy_installs() {
    match after_check(Ok(Some("1.2.0".to_string())), true) {
        CheckStep::Install { version, log } => {
            assert_eq!(version, "1.2.0");
            assert_eq!(log, "updater: downloading 1.2.0");
            match after_install(version, Ok(())) {
                Ok(Outcome::Installed(v)) => assert_eq!(v, "1.2.0"),
                other => panic!("unexpected {:?}", other),
            }
        }
        other => panic!("unexpected {:?}", other),
    }
    match after_install("1.2.0".to_string(), Err("signature mismatch".to_string())) {
        Err(e) => assert_eq!(e, "signature mismatch"),
        other => panic!("unexpected {:?}", other),
    }
}

#[test]
fn up_to_date_and_failed_checks() {
    assert!(matches!(after_check(Ok(None), true), CheckStep::Finish(Ok(Outcome::UpToDate))));
    match after_check(Err("offline".to_string()), true) {
        CheckStep::Finish(Err(e)) => assert_eq!(e, "offline"),
        other => panic!("unexpected {:?}", other),
    }
}

#[test]
fn update_loop_actions() {
    let a = updater_step(&Ok(Outcome::Installed("2.0.0".to_string())));
    assert_eq!(a.log.as_deref(), Some("updater: 2.0.0 installed \u{2014} restarting"));
    assert!(a.restart);
    assert_eq!(a.notice_version, None);
    let a = updater_step(&Ok(Outcome::PortableNewer("2.0.0".to_string())));
    assert_eq!(a.log.as_deref(), Some("updater: 2.0.0 is available \u{2014} portable copy, not self-updating"));
    assert!(!a.restart);
    assert_eq!(a.notice_version.as_deref(), Some("2.0.0"));
    let a = updater_step(&Ok(Outcome::UpToDate));
    assert!(a.log.is_none() && !a.restart && a.notice_version.is_none());
    let a = updater_step(&Err("timeout".to_string()));
    assert_eq!(a.log.as_deref(), Some("updater: check failed: timeout"));
    assert!(!a.restart);
}

#[test]
fn notice_fills_every_placeholder() {
    assert_eq!(
        portable_notice("{v} is available \u{2014} download it from the Releases page", "1.3.0"),
        "1.3.0 is available \u{2014} download it from the Releases page"
    );
    assert_eq!(portable_notice("{v}/{v}", "9"), "9/9");
    assert_eq!(portable_notice("no placeholder", "9"), "no placeholder");
    assert_eq!(portable_notice("{{v}}", "x"), "{x}");
}
