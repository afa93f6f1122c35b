//! The persisted settings and their defaults.
use vstd::prelude::*;

use crate::hotkey::default_hotkey_spec;

verus! {

/// The verbosity of the log, applied at the next start.
#[derive(Debug, Clone, Copy, PartialEq, Eq, Structural)]
pub enum LogLevel {
    Info,
    Debug,
}

impl LogLevel {
    /// The lowercase name of the level.
    pub open spec fn name(self) -> Seq<char> {
        match self {
            LogLevel::Info => "info"@,
            LogLevel::Debug => "debug"@,
        }
    }

    /// The filter directive for the log subscriber.
    pub fn as_filter_directive(self) -> (r: &'static str)
        ensures
            r@ == self.name(),
    {
        match self {
            LogLevel::Info => "info",
            LogLevel::Debug => "debug",
        }
    }

    /// The label shown for the level in the settings.
    pub fn as_ui_label(self) -> (r: &'static str)
        ensures
            r@ == self.name(),
    {
        match self {
            LogLevel::Info => "info",
            LogLevel::Debug => "debug",
        }
    }
}

impl Default for LogLevel {
    fn default() -> (r: Self)
        ensures
            r == LogLevel::Info,
    {
        LogLevel::Info
    }
}

/// The settings of the application.
#[derive(Debug, Clone)]
pub struct AppConfig {
    pub autopaste: bool,
    pub language: Option<String>,
    pub model_path: String,
    pub hotkey: String,
    pub log_level: LogLevel,
}

/// Where the default model file lies below the data directory.
pub open spec fn model_file_rel() -> Seq<char> {
    "models/ggml-base.en.bin"@
}

/// `base` joined with the relative path `rel`, as `Path::join` does it: a
/// separator is put between them unless `base` is empty or ends with one.
pub open spec fn path_join(base: Seq<char>, rel: Seq<char>) -> Seq<char> {
    if base.len() == 0 {
        rel
    } else if base.last() == '/' {
        base + rel
    } else {
        base + "/"@ + rel
    }
}

/// The default model path for a given per-user data directory, if one is
/// known.
pub open spec fn default_model_path_for(data_dir: Option<Seq<char>>) -> Seq<char> {
    match data_dir {
        Some(d) => path_join(d, model_file_rel()),
        None => "./models/ggml-base.en.bin"@,
    }
}

/// `directories::ProjectDirs::from(..).data_local_dir()`: the per-user data
/// directory of the application, if the environment reveals a home
/// directory. It depends on the environment, so nothing is claimed of it.
#[verifier::external_body]
fn project_data_local_dir(qualifier: &str, organization: &str, application: &str) -> Option<
    String,
> {
    match directories::ProjectDirs::from(qualifier, organization, application) {
        Some(dirs) => Some(dirs.data_local_dir().to_string_lossy().into_owned()),
        None => None,
    }
}

/// The default model path below the given data directory.
pub fn default_model_path_in(data_dir: Option<&str>) -> (r: String)
    ensures
        r@ == default_model_path_for(
            match data_dir {
                Some(d) => Some(d@),
                None => None,
            },
        ),
{
    match data_dir {
        Some(d) => {
            let v = crate::text::to_chars(d);
            let mut out = crate::text::to_chars(d);
            if v.len() == 0 {
                return String::from_str("models/ggml-base.en.bin");
            }
            if v[v.len() - 1] != '/' {
                crate::text::append_str(&mut out, "/");
            }
            crate::text::append_str(&mut out, "models/ggml-base.en.bin");
            crate::text::from_chars(&out)
        },
        None => String::from_str("./models/ggml-base.en.bin"),
    }
}

/// The default model path below this user's data directory.
fn default_model_path() -> (r: String)
    ensures
        exists|d: Option<Seq<char>>| r@ == default_model_path_for(d),
{
    let dir = project_data_local_dir("com", "vdora", "vdora");
    match dir {
        Some(d) => default_model_path_in(Some(d.as_str())),
        None => default_model_path_in(None),
    }
}

impl Default for AppConfig {
    fn default() -> (r: Self)
        ensures
            !r.autopaste,
            r.language is None,
            r.hotkey@ == default_hotkey_spec(),
            r.log_level == LogLevel::Info,
            exists|d: Option<Seq<char>>| r.model_path@ == default_model_path_for(d),
    {
        let model_path = default_model_path();
        AppConfig {
            autopaste: false,
            language: None,
            model_path,
            hotkey: String::from_str(crate::hotkey::default_hotkey()),
            log_level: LogLevel::default(),
        }
    }
}

} // verus!
