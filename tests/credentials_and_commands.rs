use baystate_runner::commands::{
    check_chromium_installed, connection_healthy, get_scrapers, get_status, health_url, mark_chromium_installed,
    reset_app, run_scraper, save_api_key, scrape_outcome, scraper_config,
    stored_key_or_empty, ScrapeResult,
};
use baystate_runner::keychain::{classify_lookup_error, store_api_key, validate_api_key, KeychainError};
use baystate_runner::paths::{browsers_dir_in, data_dir_or_current, settings_path_in};
use baystate_runner::settings::{AppSettings, SettingsStore};

#[test]
fn key_without_prefix_is_refused() {
    assert!(matches!(store_api_key("abc123"), Err(KeychainError::InvalidKey)));
    assert!(matches!(validate_api_key("abc123"), Err(KeychainError::InvalidKey)));
    assert!(validate_api_key("bsr_abc123").is_ok());
    assert!(validate_api_key("bsr").is_err());
}

#[test]
fn save_api_key_reports_prefix_error() {
    assert_eq!(save_api_key("abc123".to_string()), Err("API key must start with 'bsr_'".to_string()));
}

#[test]
fn error_messages() {
    assert_eq!(KeychainError::NotFound.message(), "Key not found");
    assert_eq!(KeychainError::Access("locked".to_string()).message(), "Keychain access error: locked");
    assert_eq!(KeychainError::Store("full".to_string()).message(), "Failed to store key: full");
}

#[test]
fn lookup_errors_are_classified() {
    let e = classify_lookup_error("No matching entry found in secure storage".to_string());
    assert!(matches!(e, KeychainError::NotFound));
    assert!(matches!(classify_lookup_error("item not found".to_string()), KeychainError::NotFound));
    assert!(matches!(classify_lookup_error("NoEntry".to_string()), KeychainError::NotFound));
    match classify_lookup_error("permission denied".to_string()) {
        KeychainError::Access(t) => assert_eq!(t, "permission denied"),
        _ => panic!("expected an access error"),
    }
}

#[test]
fn health_url_drops_trailing_slashes() {
    assert_eq!(health_url("https://app.example.com//"), "https://app.example.com/api/admin/scraper-network/health");
    assert_eq!(health_url("http://h"), "http://h/api/admin/scraper-network/health");
}

#[test]
fn directories_are_joined() {
    assert_eq!(browsers_dir_in("/data/app"), "/data/app/browsers");
    assert_eq!(browsers_dir_in("/data/app/"), "/data/app/browsers");
    assert_eq!(settings_path_in("/data/app"), "/data/app/settings.json");
    assert_eq!(data_dir_or_current(None), ".");
    assert_eq!(data_dir_or_current(Some("/x".to_string())), "/x");
}

#[test]
fn installed_check_needs_directory() {
    let mut store = SettingsStore::new(None, AppSettings::defaults_with_host(None));
    mark_chromium_installed(&mut store);
    assert!(store.load().chromium_installed);
    assert!(!check_chromium_installed(&store, true, false));
    assert!(!check_chromium_installed(&store, false, false));
    assert!(check_chromium_installed(&store, true, true));
}

#[test]
fn reset_restores_defaults() {
    let mut store = SettingsStore::new(None, AppSettings::defaults_with_host(None));
    mark_chromium_installed(&mut store);
    let r = reset_app(&mut store);
    assert!(!r.chromium_installed);
    assert!(!store.load().chromium_installed);
    assert_eq!(store.load().runner_name, "Desktop Runner");
}

#[test]
fn scraper_list_and_status() {
    let list = get_scrapers();
    assert_eq!(list.len(), 2);
    assert_eq!(list[0].name, "petfoodex");
    assert_eq!(list[1].display_name, "Phillips Pet");
    let store = SettingsStore::new(None, AppSettings::defaults_with_host(Some("h1".to_string())));
    let st = get_status(&store, "0.1.0".to_string());
    assert!(st.online);
    assert_eq!(st.runner_name, "h1");
    assert_eq!(st.version, "0.1.0");
}

#[test]
fn scraper_request_carries_settings_and_key() {
    let store = SettingsStore::new(None, AppSettings::defaults_with_host(Some("h1".to_string())));
    let skus = vec!["a".to_string(), "b".to_string(), "c".to_string()];
    let req = run_scraper(&store, "phillips".to_string(), skus, Ok("bsr_k".to_string()));
    assert_eq!(req.scraper_name, "phillips");
    assert_eq!(req.skus.len(), 3);
    assert_eq!(req.config.api_url, "https://app.baystatepet.com");
    assert_eq!(req.config.runner_name, "h1");
    assert_eq!(req.config.api_key, "bsr_k");
    assert!(req.config.headless);
    let req = run_scraper(&store, "petfoodex".to_string(), vec![], Err(KeychainError::NotFound));
    assert_eq!(req.config.api_key, "");
    let c = scraper_config(AppSettings::defaults_with_host(None), "bsr_z".to_string());
    assert_eq!(c.api_key, "bsr_z");
}

#[test]
fn stored_key_lookup_results() {
    assert_eq!(stored_key_or_empty(Ok("bsr_1".to_string())), "bsr_1");
    assert_eq!(stored_key_or_empty(Err(KeychainError::Access("x".to_string()))), "");
}

fn report(found: i32) -> ScrapeResult {
    ScrapeResult {
        success: found > 0,
        products_found: found,
        errors: vec!["sku b missing".to_string()],
        logs: vec!["started".to_string()],
    }
}

#[test]
fn scraper_outcome_relays_report_or_error() {
    let ok = scrape_outcome(true, Some(report(2)), "ignored".to_string()).unwrap();
    assert!(ok.success);
    assert_eq!(ok.products_found, 2);
    assert_eq!(ok.errors, vec!["sku b missing".to_string()]);
    assert_eq!(ok.logs, vec!["started".to_string()]);
    assert_eq!(scrape_outcome(false, Some(report(2)), "crashed".to_string()).unwrap_err(), "crashed");
    assert_eq!(scrape_outcome(true, None, "bad output".to_string()).unwrap_err(), "bad output");
}

#[test]
fn health_status_ranges() {
    assert!(connection_healthy(200));
    assert!(connection_healthy(204));
    assert!(!connection_healthy(199));
    assert!(!connection_healthy(300));
    assert!(!connection_healthy(401));
}
