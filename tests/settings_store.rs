use baystate_runner::commands::{
    complete_setup, get_settings, get_setup_status, save_settings, Settings,
};
use baystate_runner::settings::{update_settings, AppSettings, SettingsStore, StoredSettings};

fn sample_defaults() -> AppSettings {
    AppSettings::defaults_with_host(Some("bench-01".to_string()))
}

fn same(a: &AppSettings, b: &AppSettings) -> bool {
    a.api_url == b.api_url
        && a.runner_name == b.runner_name
        && a.headless == b.headless
        && a.auto_update == b.auto_update
        && a.first_run_complete == b.first_run_complete
        && a.chromium_installed == b.chromium_installed
}

#[test]
fn test_default_settings() {
    let settings = AppSettings::default();
    assert_eq!(settings.api_url, "https://app.baystatepet.com");
    assert!(!settings.first_run_complete);
}

#[test]
fn defaults_use_host_or_fallback_name() {
    let named = AppSettings::defaults_with_host(Some("lab".to_string()));
    assert_eq!(named.runner_name, "lab");
    assert!(named.headless && named.auto_update);
    assert!(!named.chromium_installed);
    let unnamed = AppSettings::defaults_with_host(None);
    assert_eq!(unnamed.runner_name, "Desktop Runner");
}

#[test]
fn missing_file_loads_exact_defaults() {
    let store = SettingsStore::new(None, sample_defaults());
    let loaded = store.load();
    assert!(same(&loaded, &sample_defaults()));
}

#[test]
fn missing_fields_take_defaults() {
    let doc = StoredSettings {
        api_url: Some("http://localhost:3000".to_string()),
        runner_name: None,
        headless: Some(false),
        auto_update: None,
        first_run_complete: None,
        chromium_installed: Some(true),
    };
    let store = SettingsStore::new(Some(doc), sample_defaults());
    let s = store.load();
    assert_eq!(s.api_url, "http://localhost:3000");
    assert_eq!(s.runner_name, "bench-01");
    assert!(!s.headless);
    assert!(s.auto_update);
    assert!(!s.first_run_complete);
    assert!(s.chromium_installed);
}

#[test]
fn save_then_load_round_trips() {
    let mut store = SettingsStore::new(None, sample_defaults());
    let doc = AppSettings {
        api_url: "https://staging.example".to_string(),
        runner_name: "r2".to_string(),
        headless: false,
        auto_update: false,
        first_run_complete: true,
        chromium_installed: true,
    };
    store.save(&doc);
    assert!(same(&store.load(), &doc));
}

#[test]
fn update_then_load_gives_mutated_previous() {
    let mut store = SettingsStore::new(None, sample_defaults());
    let before = store.load();
    let returned = update_settings(&mut store, |s| AppSettings { headless: false, ..s });
    let after = store.load();
    assert!(same(&after, &returned));
    assert!(!after.headless);
    assert_eq!(after.api_url, before.api_url);
    assert_eq!(after.runner_name, before.runner_name);
    assert_eq!(after.auto_update, before.auto_update);
}

#[test]
fn save_settings_keeps_setup_flags() {
    let mut store = SettingsStore::new(None, sample_defaults());
    complete_setup(&mut store);
    let g = Settings {
        api_url: "https://other.example".to_string(),
        runner_name: "desk".to_string(),
        headless: false,
        auto_update: false,
    };
    save_settings(&mut store, g);
    let s = store.load();
    assert!(s.first_run_complete);
    assert_eq!(s.api_url, "https://other.example");
    let general = get_settings(&store);
    assert_eq!(general.runner_name, "desk");
    assert!(!general.headless);
}

#[test]
fn fresh_environment_setup_status() {
    let store = SettingsStore::new(None, sample_defaults());
    let status = get_setup_status(&store);
    assert!(!status.first_run_complete);
    assert!(!status.chromium_installed);
    assert!(!status.has_api_key);
    assert_eq!(status.api_url, "https://app.baystatepet.com");
}
