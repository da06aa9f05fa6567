use baystate_runner::installer::{chromium_ready, InstallPhase, InstallSupervisor};
use baystate_runner::progress::{estimate_progress, extract_percentage};
use baystate_runner::settings::AppSettings;

#[test]
fn downloading_line_sets_ten() {
    assert_eq!(estimate_progress("Downloading update", 40), 10);
}

#[test]
fn percent_line_is_rescaled() {
    assert_eq!(estimate_progress("50% done", 10), 50);
    assert_eq!(estimate_progress("|■■■■| 100% of 150 MiB", 10), 90);
    assert_eq!(estimate_progress("at 0%", 30), 10);
    assert_eq!(estimate_progress("12.9%", 0), 19);
}

#[test]
fn extracting_and_installing_set_ninety_five() {
    assert_eq!(estimate_progress("Extracting files", 50), 95);
    assert_eq!(estimate_progress("Installing browser", 50), 95);
}

#[test]
fn other_lines_keep_estimate() {
    assert_eq!(estimate_progress("nothing to see", 42), 42);
    assert_eq!(estimate_progress("bad %", 42), 42);
}

#[test]
fn percentage_extraction() {
    assert_eq!(extract_percentage("50% done"), Some(50));
    assert_eq!(extract_percentage("50.5%"), Some(50));
    assert_eq!(extract_percentage("abc% then 30%"), Some(30));
    assert_eq!(extract_percentage("300%"), Some(255));
    assert_eq!(extract_percentage("7%%"), Some(7));
    assert_eq!(extract_percentage(".5%"), Some(0));
    assert_eq!(extract_percentage("no percent here"), None);
    assert_eq!(extract_percentage("x50% 1.2.3%"), None);
}

#[test]
fn percentage_with_sign_exponent_and_words() {
    assert_eq!(extract_percentage("+5%"), Some(5));
    assert_eq!(extract_percentage("-5%"), Some(0));
    assert_eq!(extract_percentage("1e2%"), Some(100));
    assert_eq!(extract_percentage("2.5E1%"), Some(25));
    assert_eq!(extract_percentage("5e-1%"), Some(0));
    assert_eq!(extract_percentage("1e400%"), Some(255));
    assert_eq!(extract_percentage("0e999%"), Some(0));
    assert_eq!(extract_percentage("inf%"), Some(255));
    assert_eq!(extract_percentage("INFINITY%"), Some(255));
    assert_eq!(extract_percentage("-inf%"), Some(0));
    assert_eq!(extract_percentage("NaN%"), Some(0));
    assert_eq!(extract_percentage("1e% 7.%"), Some(7));
    assert_eq!(extract_percentage("e5%"), None);
    assert_eq!(estimate_progress("-5% left", 40), 10);
    assert_eq!(estimate_progress("+5% done", 40), 14);
}

#[test]
fn supervisor_success_run() {
    let mut sup = InstallSupervisor::new();
    let first = sup.start();
    assert_eq!(first.progress, 0);
    assert_eq!(first.status, "starting");
    let ev = sup.on_line("Downloading Chromium".to_string());
    assert_eq!(ev.progress, 10);
    assert_eq!(ev.status, "downloading");
    assert_eq!(ev.message, "Downloading Chromium");
    let ev = sup.on_line("some other text".to_string());
    assert_eq!(ev.progress, 10);
    let last = sup.on_exit(true);
    assert_eq!(last.progress, 100);
    assert_eq!(last.status, "complete");
    assert_eq!(sup.phase, InstallPhase::Complete);
    assert!(sup.outcome().is_ok());
}

#[test]
fn supervisor_failed_run_reports_error() {
    let mut sup = InstallSupervisor::new();
    sup.start();
    sup.on_line("75%".to_string());
    assert_eq!(sup.progress, 70);
    assert!(sup.progress <= 100);
    let last = sup.on_exit(false);
    assert_eq!(last.progress, 0);
    assert_eq!(last.status, "error");
    assert_eq!(last.message, "Chromium installation failed");
    assert_eq!(sup.outcome(), Err("Chromium installation failed".to_string()));
}

#[test]
fn flag_alone_is_not_installed() {
    let mut s = AppSettings::defaults_with_host(None);
    s.chromium_installed = true;
    assert!(!chromium_ready(&s, false, false));
    assert!(!chromium_ready(&s, true, false));
    assert!(chromium_ready(&s, true, true));
    s.chromium_installed = false;
    assert!(!chromium_ready(&s, true, true));
}

#[test]
fn percentage_rounds_like_f32() {
    assert_eq!(extract_percentage("4.99999999%"), Some(5));
    assert_eq!(extract_percentage("4.9999999%"), Some(5));
    assert_eq!(extract_percentage("4.999999%"), Some(4));
    assert_eq!(extract_percentage("0.99999998%"), Some(1));
    assert_eq!(extract_percentage("0.99999997%"), Some(0));
    assert_eq!(extract_percentage("0.9999999701976776123046875%"), Some(1));
    assert_eq!(extract_percentage("0.9999999701976776123046874%"), Some(0));
    assert_eq!(extract_percentage("254.99999%"), Some(254));
    assert_eq!(extract_percentage("254.999995%"), Some(255));
    assert_eq!(extract_percentage("9.9999999e1%"), Some(100));
    assert_eq!(estimate_progress("4.99999999% done", 0), 14);
}
