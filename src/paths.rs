use vstd::prelude::*;

verus! {

/// A single relative path component made of letters, digits, `.`, `_` and
/// `-`, other than `.` and `..`.
pub open spec fn is_plain_component(name: Seq<char>) -> bool {
    &&& name.len() > 0
    &&& name != "."@
    &&& name != ".."@
    &&& forall|i: int|
        0 <= i < name.len() ==> {
            let c = #[trigger] name[i];
            ('a' <= c <= 'z') || ('A' <= c <= 'Z') || ('0' <= c <= '9') || c == '.' || c == '_'
                || c == '-'
        }
}

/// `p` begins with the Windows verbatim prefix `\\?\`.
pub open spec fn is_verbatim(p: Seq<char>) -> bool {
    p.len() >= 4 && p[0] == '\\' && p[1] == '\\' && p[2] == '?' && p[3] == '\\'
}

/// `r` ends with `name`.
pub open spec fn ends_with(r: Seq<char>, name: Seq<char>) -> bool {
    name.len() <= r.len() && r.subrange(r.len() - name.len(), r.len() as int) == name
}

/// `r` is `base`, then nothing or one path separator, then `name`.
pub open spec fn is_joined(r: Seq<char>, base: Seq<char>, name: Seq<char>) -> bool {
    r == base + name || r == base + seq!['/'] + name || r == base + seq!['\\'] + name
}

/// Relies on directories::ProjectDirs::from and ProjectDirs::data_dir: the
/// platform's data directory for an application, when a home directory is known.
#[verifier::external_body]
fn project_data_dir(qualifier: &str, organization: &str, application: &str) -> (r: Option<
    String,
>) {
    match directories::ProjectDirs::from(qualifier, organization, application) {
        Some(p) => Some(p.data_dir().to_string_lossy().into_owned()),
        None => None,
    }
}

/// Relies on std::path::Path::join: appends a relative component to a path,
/// adding the platform's separator where the base does not end in one. Under
/// a Windows verbatim prefix the base is rebuilt from its components, so only
/// the ending is promised there.
#[verifier::external_body]
fn join_path(base: &str, name: &str) -> (r: String)
    requires
        is_plain_component(name@),
    ensures
        ends_with(r@, name@),
        !is_verbatim(base@) ==> is_joined(r@, base@, name@),
{
    std::path::Path::new(base).join(name).to_string_lossy().into_owned()
}

/// The data directory that was found, or the current directory (`.`) if none was.
pub fn data_dir_or_current(found: Option<String>) -> (r: String)
    ensures
        found matches Some(d) ==> r == d,
        found is None ==> r@ == "."@,
{
    match found {
        Some(d) => d,
        None => ".".to_string(),
    }
}

/// The application's data directory:
/// `~/Library/Application Support/com.baystate.scraper` on macOS,
/// `%APPDATA%\baystate\scraper` on Windows, `~/.local/share/scraper` on Linux.
pub fn get_app_data_dir() -> (r: String) {
    data_dir_or_current(project_data_dir("com", "baystate", "scraper"))
}

/// The directory inside `data_dir` that holds the automation browsers.
pub fn browsers_dir_in(data_dir: &str) -> (r: String)
    ensures
        ends_with(r@, "browsers"@),
        !is_verbatim(data_dir@) ==> is_joined(r@, data_dir@, "browsers"@),
{
    proof {
        reveal_strlit("browsers");
        reveal_strlit(".");
        reveal_strlit("..");
        assert("browsers"@.len() != "."@.len() && "browsers"@.len() != ".."@.len());
    }
    join_path(data_dir, "browsers")
}

/// The settings file inside `data_dir`.
pub fn settings_path_in(data_dir: &str) -> (r: String)
    ensures
        ends_with(r@, "settings.json"@),
        !is_verbatim(data_dir@) ==> is_joined(r@, data_dir@, "settings.json"@),
{
    proof {
        reveal_strlit("settings.json");
        reveal_strlit(".");
        reveal_strlit("..");
        assert("settings.json"@.len() != "."@.len() && "settings.json"@.len() != ".."@.len());
    }
    join_path(data_dir, "settings.json")
}

/// Where the automation browsers are installed.
pub fn get_browsers_dir() -> (r: String)
    ensures
        ends_with(r@, "browsers"@),
{
    let base = get_app_data_dir();
    browsers_dir_in(base.as_str())
}

} // verus!
