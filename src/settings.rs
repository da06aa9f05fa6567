use vstd::prelude::*;

verus! {

/// Base URL of the production API.
pub const DEFAULT_API_URL: &'static str = "https://app.baystatepet.com";

/// Runner name used when the host name cannot be read.
pub const FALLBACK_RUNNER_NAME: &'static str = "Desktop Runner";

/// The settings document: every field is always present.
/// API keys are never part of it; they live in the OS credential store.
#[derive(Debug)]
pub struct AppSettings {
    pub api_url: String,
    pub runner_name: String,
    pub headless: bool,
    pub auto_update: bool,
    pub first_run_complete: bool,
    pub chromium_installed: bool,
}

/// What a settings file held: a field the file lacked is `None`.
#[derive(Debug)]
pub struct StoredSettings {
    pub api_url: Option<String>,
    pub runner_name: Option<String>,
    pub headless: Option<bool>,
    pub auto_update: Option<bool>,
    pub first_run_complete: Option<bool>,
    pub chromium_installed: Option<bool>,
}

/// `s` is the default document for a machine whose host name lookup gave `host`.
pub open spec fn is_defaults_for(s: AppSettings, host: Option<String>) -> bool {
    &&& s.api_url@ == DEFAULT_API_URL@
    &&& s.runner_name@ == (match host {
        Some(h) => h@,
        None => FALLBACK_RUNNER_NAME@,
    })
    &&& s.headless
    &&& s.auto_update
    &&& !s.first_run_complete
    &&& !s.chromium_installed
}

pub open spec fn field_or<T>(v: Option<T>, d: T) -> T {
    match v {
        Some(x) => x,
        None => d,
    }
}

/// The document that a file's contents stand for: each field the file lacks,
/// and every field when there is no readable file, takes its default.
pub open spec fn resolve(document: Option<StoredSettings>, defaults: AppSettings) -> AppSettings {
    match document {
        None => defaults,
        Some(d) => AppSettings {
            api_url: field_or(d.api_url, defaults.api_url),
            runner_name: field_or(d.runner_name, defaults.runner_name),
            headless: field_or(d.headless, defaults.headless),
            auto_update: field_or(d.auto_update, defaults.auto_update),
            first_run_complete: field_or(d.first_run_complete, defaults.first_run_complete),
            chromium_installed: field_or(d.chromium_installed, defaults.chromium_installed),
        },
    }
}

/// The file contents that a saved document is written as.
pub open spec fn stored_of(s: AppSettings) -> StoredSettings {
    StoredSettings {
        api_url: Some(s.api_url),
        runner_name: Some(s.runner_name),
        headless: Some(s.headless),
        auto_update: Some(s.auto_update),
        first_run_complete: Some(s.first_run_complete),
        chromium_installed: Some(s.chromium_installed),
    }
}

/// Relies on whoami::fallible::hostname: the machine's host name, when the
/// system reports one. Nothing is promised of its value.
#[verifier::external_body]
fn local_hostname() -> (r: Option<String>) {
    whoami::fallible::hostname().ok()
}

fn text_copy(s: &String) -> (r: String)
    ensures
        r == *s,
{
    s.clone()
}

fn pick_text(v: &Option<String>, d: &String) -> (r: String)
    ensures
        r == field_or(*v, *d),
{
    match v {
        Some(x) => text_copy(x),
        None => text_copy(d),
    }
}

fn pick_flag(v: Option<bool>, d: bool) -> (r: bool)
    ensures
        r == field_or(v, d),
{
    match v {
        Some(x) => x,
        None => d,
    }
}

impl AppSettings {
    /// The default document, with `host` as the runner name where it is known.
    pub fn defaults_with_host(host: Option<String>) -> (r: AppSettings)
        ensures
            is_defaults_for(r, host),
    {
        let runner_name = match host {
            Some(h) => h,
            None => FALLBACK_RUNNER_NAME.to_string(),
        };
        AppSettings {
            api_url: DEFAULT_API_URL.to_string(),
            runner_name,
            headless: true,
            auto_update: true,
            first_run_complete: false,
            chromium_installed: false,
        }
    }

    /// A field-for-field copy.
    pub fn duplicate(&self) -> (r: AppSettings)
        ensures
            r == *self,
    {
        AppSettings {
            api_url: text_copy(&self.api_url),
            runner_name: text_copy(&self.runner_name),
            headless: self.headless,
            auto_update: self.auto_update,
            first_run_complete: self.first_run_complete,
            chromium_installed: self.chromium_installed,
        }
    }

    /// The file contents this document is saved as.
    pub fn to_stored(&self) -> (r: StoredSettings)
        ensures
            r == stored_of(*self),
    {
        StoredSettings {
            api_url: Some(text_copy(&self.api_url)),
            runner_name: Some(text_copy(&self.runner_name)),
            headless: Some(self.headless),
            auto_update: Some(self.auto_update),
            first_run_complete: Some(self.first_run_complete),
            chromium_installed: Some(self.chromium_installed),
        }
    }
}

impl Default for AppSettings {
    /// The default document, named after this machine's host name.
    fn default() -> (r: AppSettings)
        ensures
            r.api_url@ == DEFAULT_API_URL@,
            r.headless,
            r.auto_update,
            !r.first_run_complete,
            !r.chromium_installed,
    {
        AppSettings::defaults_with_host(local_hostname())
    }
}

/// The settings file as this process last read or wrote it, with the
/// defaults that fill in what it lacks.
pub struct SettingsStore {
    pub document: Option<StoredSettings>,
    pub defaults: AppSettings,
}

impl SettingsStore {
    /// The document a load gives.
    pub open spec fn loaded(&self) -> AppSettings {
        resolve(self.document, self.defaults)
    }

    /// The store after `s` was saved.
    pub open spec fn saved(&self, s: AppSettings) -> SettingsStore {
        SettingsStore { document: Some(stored_of(s)), defaults: self.defaults }
    }

    /// A store over the parsed contents of the settings file: `None` where the
    /// file is missing, unreadable or malformed.
    pub fn new(document: Option<StoredSettings>, defaults: AppSettings) -> (r: SettingsStore)
        ensures
            r.document == document,
            r.defaults == defaults,
    {
        SettingsStore { document, defaults }
    }

    /// The current document, every missing field taking its default. Never fails.
    pub fn load(&self) -> (r: AppSettings)
        ensures
            r == self.loaded(),
            self.document is None ==> r == self.defaults,
    {
        match &self.document {
            None => self.defaults.duplicate(),
            Some(d) => AppSettings {
                api_url: pick_text(&d.api_url, &self.defaults.api_url),
                runner_name: pick_text(&d.runner_name, &self.defaults.runner_name),
                headless: pick_flag(d.headless, self.defaults.headless),
                auto_update: pick_flag(d.auto_update, self.defaults.auto_update),
                first_run_complete: pick_flag(
                    d.first_run_complete,
                    self.defaults.first_run_complete,
                ),
                chromium_installed: pick_flag(
                    d.chromium_installed,
                    self.defaults.chromium_installed,
                ),
            },
        }
    }

    /// Replaces the file's contents with `settings`, every field written.
    pub fn save(&mut self, settings: &AppSettings)
        ensures
            *final(self) == old(self).saved(*settings),
    {
        self.document = Some(settings.to_stored());
    }
}

/// Loads the document, applies `updater`, saves and returns the result.
pub fn update_settings<F>(store: &mut SettingsStore, updater: F) -> (r: AppSettings) where
    F: FnOnce(AppSettings) -> AppSettings,

    requires
        updater.requires((old(store).loaded(),)),
    ensures
        updater.ensures((old(store).loaded(),), r),
        *final(store) == old(store).saved(r),
{
    let current = store.load();
    let next = updater(current);
    store.save(&next);
    next
}

/// A store whose file is missing or malformed loads exactly the defaults.
pub proof fn law_unreadable_file_loads_defaults(store: SettingsStore)
    requires
        store.document is None,
    ensures
        store.loaded() == store.defaults,
{
}

/// Saving a document and loading again gives the same document back.
pub proof fn law_save_then_load(store: SettingsStore, s: AppSettings)
    ensures
        store.saved(s).loaded() == s,
{
}

/// After `update_settings(f)`, a load gives what `f` made of the previous load.
pub proof fn law_update_then_load<F: FnOnce(AppSettings) -> AppSettings>(
    store: SettingsStore,
    f: F,
    r: AppSettings,
)
    requires
        f.ensures((store.loaded(),), r),
    ensures
        f.ensures((store.loaded(),), store.saved(r).loaded()),
{
    law_save_then_load(store, r);
}

} // verus!
