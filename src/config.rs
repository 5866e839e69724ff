//! Where the startup script lives, how the script's module search path is
//! extended, and how startup failures end the process.
use vstd::prelude::*;

verus! {

/// Content written to a startup script that does not exist yet.
pub const DEFAULT_CONFIG: &'static str = "\n\n";

/// Directory, under the user's configuration root, that holds the script.
pub const DATA_DIR_NAME: &'static str = "polymer/";

/// File name of the startup script.
pub const CONFIG_FILE_NAME: &'static str = "config.lua";

/// Pattern appended to a directory to make a module search path entry.
pub const MODULE_PATTERN: &'static str = "?.lua";

/// `base` joined with `segment` as a filesystem path: an absolute segment
/// replaces the base; otherwise one separator stands between them.
pub open spec fn joined(base: Seq<char>, segment: Seq<char>) -> Seq<char> {
    if segment.len() > 0 && segment[0] == '/' {
        segment
    } else if base.len() == 0 || base.last() == '/' {
        base + segment
    } else {
        base + "/"@ + segment
    }
}

/// The data root under the user configuration directory `config_dir`.
pub open spec fn data_root_under(config_dir: Seq<char>) -> Seq<char> {
    joined(config_dir, DATA_DIR_NAME@)
}

/// The startup script's path under the data root `root`.
pub open spec fn config_path_under(root: Seq<char>) -> Seq<char> {
    joined(root, CONFIG_FILE_NAME@)
}

/// The module search path with the user's data root searched first, then
/// the bundled library directory, then the runtime's default path.
pub open spec fn search_path(root: Seq<char>, library_dir: Seq<char>, default_path: Seq<char>) -> Seq<char> {
    joined(root, MODULE_PATTERN@) + ";"@ + joined(library_dir, MODULE_PATTERN@) + ";"@ + default_path
}

/// Joins `segment` onto `base` as a filesystem path.
pub fn join_path(base: &str, segment: &str) -> (r: String)
    ensures
        r@ == joined(base@, segment@),
{
    proof {
        reveal_strlit("/");
    }
    if segment.unicode_len() > 0 && segment.get_char(0) == '/' {
        return segment.to_owned();
    }
    let n = base.unicode_len();
    let mut r = base.to_owned();
    if n > 0 && base.get_char(n - 1) != '/' {
        r.append("/");
    }
    r.append(segment);
    r
}

/// Relies on `dirs::config_dir`: the user's configuration directory, which
/// depends on the environment and may be absent; a path that is not valid
/// Unicode counts as absent.
#[verifier::external_body]
fn user_config_dir() -> (r: Option<String>) {
    match dirs::config_dir() {
        Some(p) => p.into_os_string().into_string().ok(),
        None => None,
    }
}

/// Builds the script module search path; see `search_path`.
pub fn extended_search_path(root: &str, library_dir: &str, default_path: &str) -> (r: String)
    ensures
        r@ == search_path(root@, library_dir@, default_path@),
{
    let mut r = join_path(root, MODULE_PATTERN);
    r.append(";");
    let lib = join_path(library_dir, MODULE_PATTERN);
    r.append(lib.as_str());
    r.append(";");
    r.append(default_path);
    r
}

/// Locations of the user's configuration.
pub struct Config;

impl Config {
    /// The data root under a given user configuration directory.
    pub fn data_root_in(config_dir: &str) -> (r: String)
        ensures
            r@ == data_root_under(config_dir@),
    {
        join_path(config_dir, DATA_DIR_NAME)
    }

    /// The startup script's path under a given data root.
    pub fn config_path_in(root: &str) -> (r: String)
        ensures
            r@ == config_path_under(root@),
    {
        join_path(root, CONFIG_FILE_NAME)
    }

    /// The data root under this user's configuration directory, if there is one.
    pub fn data_root() -> (r: Option<String>)
        ensures
            r matches Some(root) ==> exists|dir: Seq<char>| root@ == #[trigger] data_root_under(dir),
    {
        match user_config_dir() {
            Some(dir) => Some(Config::data_root_in(dir.as_str())),
            None => None,
        }
    }

    /// The startup script's path for this user, if there is a data root.
    pub fn config_path() -> (r: Option<String>)
        ensures
            r matches Some(path) ==> exists|dir: Seq<char>|
                path@ == #[trigger] config_path_under(data_root_under(dir)),
    {
        match Config::data_root() {
            Some(root) => Some(Config::config_path_in(root.as_str())),
            None => None,
        }
    }
}

/// A startup failure; each ends the process with its own exit status.
pub enum StartupError {
    /// The configuration directory or the startup script is inaccessible.
    ConfigUnavailable,
    /// The startup script failed to load or run, with the script's error text.
    ScriptFailed(String),
}

pub open spec fn exit_code_of(e: StartupError) -> i32 {
    match e {
        StartupError::ConfigUnavailable => 1,
        StartupError::ScriptFailed(_) => 2,
    }
}

pub open spec fn message_of(e: StartupError) -> Seq<char> {
    match e {
        StartupError::ConfigUnavailable => "Unable to load config file"@,
        StartupError::ScriptFailed(text) => "Error loading user config file:\n\n"@ + text@,
    }
}

impl StartupError {
    /// The process's exit status for this failure.
    pub fn exit_code(&self) -> (c: i32)
        ensures
            c == exit_code_of(*self),
    {
        match self {
            StartupError::ConfigUnavailable => 1,
            StartupError::ScriptFailed(_) => 2,
        }
    }

    /// The text reported on standard error; a script failure carries the
    /// script's error text.
    pub fn message(&self) -> (m: String)
        ensures
            m@ == message_of(*self),
    {
        match self {
            StartupError::ConfigUnavailable => "Unable to load config file".to_owned(),
            StartupError::ScriptFailed(text) => {
                let mut m = "Error loading user config file:\n\n".to_owned();
                m.append(text.as_str());
                m
            },
        }
    }
}

/// The two fatal startup conditions end the process with different
/// statuses, and a script failure's report holds the script's error text.
pub proof fn lemma_startup_failures_distinct(text: String)
    ensures
        exit_code_of(StartupError::ConfigUnavailable) != exit_code_of(StartupError::ScriptFailed(text)),
        message_of(StartupError::ScriptFailed(text)).subrange(
            message_of(StartupError::ScriptFailed(text)).len() - text@.len(),
            message_of(StartupError::ScriptFailed(text)).len() as int,
        ) == text@,
{
    let m = message_of(StartupError::ScriptFailed(text));
    assert(m.subrange(m.len() - text@.len(), m.len() as int) =~= text@);
}

} // verus!
