use vstd::prelude::*;
use crate::keychain;
use crate::keychain::{KeychainError, has_api_key, message_of};
use crate::text::has_prefix;
use crate::settings::{AppSettings, SettingsStore, update_settings};

verus! {

/// Path of the health endpoint under the API's base URL.
pub const HEALTH_PATH: &'static str = "/api/admin/scraper-network/health";

/// What the GUI needs to choose between the setup wizard and the dashboard.
#[derive(Debug)]
pub struct SetupStatus {
    pub first_run_complete: bool,
    pub chromium_installed: bool,
    pub has_api_key: bool,
    pub api_url: String,
    pub runner_name: String,
}

/// How this runner presents itself.
#[derive(Debug)]
pub struct RunnerStatus {
    pub online: bool,
    pub runner_name: String,
    pub version: String,
    pub current_job: Option<String>,
    pub last_job_time: Option<String>,
}

/// One scraper the runner offers.
#[derive(Debug)]
pub struct ScraperInfo {
    pub name: String,
    pub display_name: String,
    pub status: String,
    pub last_run: Option<String>,
}

/// The settings a user edits (the API key is kept apart).
#[derive(Debug)]
pub struct Settings {
    pub api_url: String,
    pub runner_name: String,
    pub headless: bool,
    pub auto_update: bool,
}

/// What a scraper run reports.
#[derive(Debug)]
pub struct ScrapeResult {
    pub success: bool,
    pub products_found: i32,
    pub errors: Vec<String>,
    pub logs: Vec<String>,
}

/// The configuration a scraper run is handed.
#[derive(Debug)]
pub struct ScraperConfig {
    pub api_url: String,
    pub api_key: String,
    pub runner_name: String,
    pub headless: bool,
}

/// The setup status for a settings document and whether a key is stored.
pub open spec fn status_of(s: AppSettings, has_key: bool) -> SetupStatus {
    SetupStatus {
        first_run_complete: s.first_run_complete,
        chromium_installed: s.chromium_installed,
        has_api_key: has_key,
        api_url: s.api_url,
        runner_name: s.runner_name,
    }
}

/// The document with the user-editable fields taken from `g`.
pub open spec fn with_general_spec(s: AppSettings, g: Settings) -> AppSettings {
    AppSettings {
        api_url: g.api_url,
        runner_name: g.runner_name,
        headless: g.headless,
        auto_update: g.auto_update,
        ..s
    }
}

/// `u` without its trailing `/` characters.
pub open spec fn trim_slashes(u: Seq<char>) -> Seq<char>
    decreases u.len(),
{
    if u.len() > 0 && u.last() == '/' {
        trim_slashes(u.drop_last())
    } else {
        u
    }
}

/// Builds the setup status.
pub fn setup_status(settings: AppSettings, has_key: bool) -> (r: SetupStatus)
    ensures
        r == status_of(settings, has_key),
{
    SetupStatus {
        first_run_complete: settings.first_run_complete,
        chromium_installed: settings.chromium_installed,
        has_api_key: has_key,
        api_url: settings.api_url,
        runner_name: settings.runner_name,
    }
}

/// The setup status from the current settings and the credential store.
pub fn get_setup_status(store: &SettingsStore) -> (r: SetupStatus)
    ensures
        r == status_of(store.loaded(), r.has_api_key),
{
    let settings = store.load();
    let has_key = has_api_key();
    setup_status(settings, has_key)
}

/// The user-editable part of a settings document.
pub fn general_settings(s: AppSettings) -> (r: Settings)
    ensures
        r == (Settings {
            api_url: s.api_url,
            runner_name: s.runner_name,
            headless: s.headless,
            auto_update: s.auto_update,
        }),
{
    Settings {
        api_url: s.api_url,
        runner_name: s.runner_name,
        headless: s.headless,
        auto_update: s.auto_update,
    }
}

/// The current user-editable settings.
pub fn get_settings(store: &SettingsStore) -> (r: Settings)
    ensures
        r == general_settings_spec(store.loaded()),
{
    general_settings(store.load())
}

pub open spec fn general_settings_spec(s: AppSettings) -> Settings {
    Settings {
        api_url: s.api_url,
        runner_name: s.runner_name,
        headless: s.headless,
        auto_update: s.auto_update,
    }
}

/// `s` with the user-editable fields replaced by those of `g`.
pub fn with_general(s: AppSettings, g: Settings) -> (r: AppSettings)
    ensures
        r == with_general_spec(s, g),
{
    AppSettings {
        api_url: g.api_url,
        runner_name: g.runner_name,
        headless: g.headless,
        auto_update: g.auto_update,
        first_run_complete: s.first_run_complete,
        chromium_installed: s.chromium_installed,
    }
}

/// Saves the user-editable settings; the setup flags are kept.
pub fn save_settings(store: &mut SettingsStore, settings: Settings) -> (r: AppSettings)
    ensures
        r == with_general_spec(old(store).loaded(), settings),
        *final(store) == old(store).saved(r),
{
    let ghost g = settings;
    update_settings(
        store,
        (move |s: AppSettings| -> (t: AppSettings)
            ensures
                t == with_general_spec(s, g),
            { with_general(s, settings) }),
    )
}

/// Marks the setup wizard as done.
pub fn complete_setup(store: &mut SettingsStore) -> (r: AppSettings)
    ensures
        r == (AppSettings { first_run_complete: true, ..old(store).loaded() }),
        *final(store) == old(store).saved(r),
{
    update_settings(
        store,
        (|s: AppSettings| -> (t: AppSettings)
            ensures
                t == (AppSettings { first_run_complete: true, ..s }),
            { AppSettings { first_run_complete: true, ..s } }),
    )
}

/// Records that the browsers were installed.
pub fn mark_chromium_installed(store: &mut SettingsStore) -> (r: AppSettings)
    ensures
        r == (AppSettings { chromium_installed: true, ..old(store).loaded() }),
        *final(store) == old(store).saved(r),
{
    update_settings(
        store,
        (|s: AppSettings| -> (t: AppSettings)
            ensures
                t == (AppSettings { chromium_installed: true, ..s }),
            { AppSettings { chromium_installed: true, ..s } }),
    )
}

/// Back to the first-run state: the stored key is removed where possible
/// (a failure there is ignored) and the defaults are saved.
pub fn reset_app(store: &mut SettingsStore) -> (r: AppSettings)
    ensures
        r == old(store).defaults,
        *final(store) == old(store).saved(r),
{
    let _ = keychain::delete_api_key();
    let defaults = store.defaults.duplicate();
    update_settings(
        store,
        (move |s: AppSettings| -> (t: AppSettings)
            ensures
                t == defaults,
            { defaults }),
    )
}

/// Stores an API key; the error is the text shown to the user.
pub fn save_api_key(key: String) -> (r: Result<(), String>)
    ensures
        !has_prefix(key@, keychain::API_KEY_PREFIX@) ==> (r matches Err(m) && m@ == message_of(
            KeychainError::InvalidKey,
        )),
        has_prefix(key@, keychain::API_KEY_PREFIX@) ==> (r matches Err(m) ==> exists|e:
            KeychainError|
            (e is Access || e is Store) && message_of(e) == m@),
{
    match keychain::store_api_key(key.as_str()) {
        Ok(()) => Ok(()),
        Err(e) => Err(e.message()),
    }
}

/// Reads the stored API key; the error is the text shown to the user.
pub fn get_api_key() -> (r: Result<String, String>)
    ensures
        r matches Err(m) ==> exists|e: KeychainError|
            (e is NotFound || e is Access) && message_of(e) == m@,
{
    match keychain::get_api_key() {
        Ok(k) => Ok(k),
        Err(e) => Err(e.message()),
    }
}

/// The health endpoint under `api_url`, trailing slashes of the base dropped.
pub fn health_url(api_url: &str) -> (r: String)
    ensures
        r@ == trim_slashes(api_url@) + HEALTH_PATH@,
{
    let n = api_url.unicode_len();
    let mut t = n;
    assert(api_url@.subrange(0, n as int) =~= api_url@);
    while t > 0 && api_url.get_char(t - 1) == '/'
        invariant
            n == api_url@.len(),
            t <= n,
            trim_slashes(api_url@) == trim_slashes(api_url@.subrange(0, t as int)),
        decreases t,
    {
        assert(api_url@.subrange(0, t as int).drop_last() =~= api_url@.subrange(0, t - 1));
        t = t - 1;
    }
    let mut r = api_url.substring_char(0, t).to_string();
    r.append(HEALTH_PATH);
    r
}

/// Whether a health check answered with a status in the success range (2xx).
pub fn connection_healthy(status: u16) -> (r: bool)
    ensures
        r == (200 <= status < 300),
{
    200 <= status && status < 300
}

/// Whether the browsers are installed: the saved flag, and a browsers
/// directory that exists and is not empty.
pub fn check_chromium_installed(store: &SettingsStore, dir_exists: bool, dir_has_entries: bool) -> (r:
    bool)
    ensures
        r == (store.loaded().chromium_installed && dir_exists && dir_has_entries),
{
    let settings = store.load();
    crate::installer::chromium_ready(&settings, dir_exists, dir_has_entries)
}

/// This runner's status, reporting `version` as its build.
pub fn get_status(store: &SettingsStore, version: String) -> (r: RunnerStatus)
    ensures
        r.online,
        r.runner_name == store.loaded().runner_name,
        r.version == version,
        r.current_job is None,
        r.last_job_time is None,
{
    let settings = store.load();
    RunnerStatus {
        online: true,
        runner_name: settings.runner_name,
        version,
        current_job: None,
        last_job_time: None,
    }
}

fn scraper_info(name: &str, display_name: &str) -> (r: ScraperInfo)
    ensures
        r.name@ == name@,
        r.display_name@ == display_name@,
        r.status@ == "active"@,
        r.last_run is None,
{
    ScraperInfo {
        name: name.to_string(),
        display_name: display_name.to_string(),
        status: "active".to_string(),
        last_run: None,
    }
}

/// The scrapers this runner offers.
pub fn get_scrapers() -> (r: Vec<ScraperInfo>)
    ensures
        r@.len() == 2,
        r@[0].name@ == "petfoodex"@,
        r@[0].display_name@ == "Pet Food Experts"@,
        r@[1].name@ == "phillips"@,
        r@[1].display_name@ == "Phillips Pet"@,
        forall|i: int| 0 <= i < 2 ==> (#[trigger] r@[i]).status@ == "active"@ && r@[i].last_run is None,
{
    let mut v: Vec<ScraperInfo> = Vec::new();
    v.push(scraper_info("petfoodex", "Pet Food Experts"));
    v.push(scraper_info("phillips", "Phillips Pet"));
    v
}

/// The configuration a scraper run gets: the API settings, the key and how
/// the browser runs.
pub fn scraper_config(settings: AppSettings, api_key: String) -> (r: ScraperConfig)
    ensures
        r == (ScraperConfig {
            api_url: settings.api_url,
            api_key,
            runner_name: settings.runner_name,
            headless: settings.headless,
        }),
{
    ScraperConfig {
        api_url: settings.api_url,
        api_key,
        runner_name: settings.runner_name,
        headless: settings.headless,
    }
}

/// The stored key's characters, or none when the lookup failed.
pub open spec fn key_or_empty(lookup: Result<String, KeychainError>) -> Seq<char> {
    match lookup {
        Ok(k) => k@,
        Err(_) => Seq::empty(),
    }
}

/// The key a scraper run is given: the stored one, or empty when the lookup failed.
pub fn stored_key_or_empty(lookup: Result<String, KeychainError>) -> (r: String)
    ensures
        lookup matches Ok(k) ==> r == k,
        lookup is Err ==> r@.len() == 0,
        r@ == key_or_empty(lookup),
{
    match lookup {
        Ok(k) => k,
        Err(_) => String::new(),
    }
}

/// What the scraping subsystem is asked to do.
#[derive(Debug)]
pub struct ScrapeRequest {
    pub scraper_name: String,
    pub skus: Vec<String>,
    pub config: ScraperConfig,
}

/// The request for a scraper run over `skus`: the configuration comes from
/// the current settings and the result of the API-key lookup (an empty key
/// when the lookup failed).
pub fn run_scraper(
    store: &SettingsStore,
    scraper_name: String,
    skus: Vec<String>,
    key_lookup: Result<String, KeychainError>,
) -> (r: ScrapeRequest)
    ensures
        r.scraper_name == scraper_name,
        r.skus == skus,
        r.config.api_url == store.loaded().api_url,
        r.config.runner_name == store.loaded().runner_name,
        r.config.headless == store.loaded().headless,
        r.config.api_key@ == key_or_empty(key_lookup),
{
    let settings = store.load();
    let api_key = stored_key_or_empty(key_lookup);
    let config = scraper_config(settings, api_key);
    ScrapeRequest { scraper_name, skus, config }
}

/// The outcome of a scraper run from what the subsystem gave back: its report
/// when it exited successfully and the report could be read, else its
/// diagnostic text as the error.
pub fn scrape_outcome(exited_ok: bool, report: Option<ScrapeResult>, diagnostic: String) -> (r:
    Result<ScrapeResult, String>)
    ensures
        (exited_ok && report is Some) ==> r == Ok::<ScrapeResult, String>(report->0),
        !(exited_ok && report is Some) ==> r == Err::<ScrapeResult, String>(diagnostic),
{
    match report {
        Some(rep) => {
            if exited_ok {
                Ok(rep)
            } else {
                Err(diagnostic)
            }
        },
        None => Err(diagnostic),
    }
}

} // verus!
