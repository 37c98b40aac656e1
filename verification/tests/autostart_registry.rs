use codenotch::autostart::{
    add_args, delete_args, disable, enable, is_enabled, offer_on_first_run, onboarding_log, query_args, run_value,
    OfferPlan, NAME, RUN_KEY,
};

#[test]
fn registry_commands() {
    assert_eq!(RUN_KEY, r"HKCU\Software\Microsoft\Windows\CurrentVersion\Run");
    assert_eq!(query_args(), vec!["query", RUN_KEY, "/v", "Codenotch"]);
    assert_eq!(
        add_args("\"C:\\Apps\\Codenotch.exe\" --silent"),
        vec!["add", RUN_KEY, "/v", NAME, "/t", "REG_SZ", "/d", "\"C:\\Apps\\Codenotch.exe\" --silent", "/f"]
    );
    assert_eq!(delete_args(), vec!["delete", RUN_KEY, "/v", NAME, "/f"]);
    assert_eq!(run_value(r"C:\Apps\Codenotch.exe"), "\"C:\\Apps\\Codenotch.exe\" --silent");
}

#[test]
fn enabled_when_query_names_the_value() {
    let out = "\r\nHKEY_CURRENT_USER\\...\\Run\r\n    Codenotch    REG_SZ    \"C:\\x.exe\" --silent\r\n".to_string();
    assert!(is_enabled(Some((true, out.clone()))));
    assert!(!is_enabled(Some((false, out))));
    assert!(!is_enabled(Some((true, "nothing here".to_string()))));
    assert!(!is_enabled(None));
}

#[test]
fn enable_reports_outcome() {
    assert_eq!(enable(Some((true, String::new()))), Ok("start at sign-in enabled (silent until a session appears)".to_string()));
    assert_eq!(enable(Some((false, "ERROR: Access is denied.".to_string()))), Err("ERROR: Access is denied.".to_string()));
    assert_eq!(enable(None), Err("reg.exe failed to run".to_string()));
}

#[test]
fn disable_treats_missing_value_as_done() {
    assert_eq!(disable(Some((true, String::new()))), Ok("start at sign-in disabled".to_string()));
    let en = "ERROR: The system was Unable To Find the specified registry key or value.".to_string();
    assert_eq!(disable(Some((false, en))), Ok("start at sign-in was not enabled".to_string()));
    let zh = "错误: 系统找不到指定的注册表项或值。".to_string();
    assert_eq!(disable(Some((false, zh))), Ok("start at sign-in was not enabled".to_string()));
    assert_eq!(disable(Some((false, "ERROR: Access is denied.".to_string()))), Err("ERROR: Access is denied.".to_string()));
    assert_eq!(disable(None), Err("reg.exe failed to run".to_string()));
}

#[test]
fn onboarding_asks_once() {
    assert_eq!(offer_on_first_run(true, false), OfferPlan::Skip);
    assert_eq!(offer_on_first_run(true, true), OfferPlan::Skip);
    assert_eq!(offer_on_first_run(false, true), OfferPlan::MarkAsked);
    assert_eq!(offer_on_first_run(false, false), OfferPlan::AskThenMark);
    // the first run records the question; the next one skips it
    let first = offer_on_first_run(false, false);
    let offered = first != OfferPlan::Skip;
    assert_eq!(offer_on_first_run(offered, false), OfferPlan::Skip);
}

#[test]
fn onboarding_log_lines() {
    assert_eq!(onboarding_log(&Ok("done".to_string())), "onboarding: done");
    assert_eq!(onboarding_log(&Err("denied".to_string())), "onboarding: autostart failed: denied");
}
