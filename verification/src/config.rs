//! Configuration: its model, its default values and its validation.
//! Reading and writing the TOML file is the program's part.

use vstd::prelude::*;
use vstd::string::*;

use crate::text::{all_white_space, chars_of, lemma_trim_empty_iff_blank, trim, trim_str};

verus! {

/// Errors about the configuration.
#[derive(Debug, Clone, PartialEq, Eq)]
pub enum ConfigError {
    /// The file at `path` could not be read.
    Read { path: String, source: String },
    /// The default file at `path` could not be written.
    Write { path: String, source: String },
    /// The file at `path` is not a valid configuration.
    Parse { path: String, source: String },
    /// The configuration breaks a rule.
    Invalid(String),
}

/// Top-level configuration.
#[derive(Debug, Clone, PartialEq, Eq)]
pub struct Config {
    pub log: LogConfig,
    pub filter: FilterConfig,
}

/// Log output and rotation.
#[derive(Debug, Clone, PartialEq, Eq)]
pub struct LogConfig {
    /// Directory of the log files.
    pub dir: String,
    /// File name prefix (files are named like `loghound.2026-06-04`).
    pub file_prefix: String,
    /// How many daily files are kept; at least 1.
    pub max_days: usize,
    /// Line format, with the placeholders `{time}` `{pid}` `{process}` `{message}`.
    pub line_format: String,
}

/// Process filter. Both lists empty means that everything is captured.
#[derive(Debug, Clone, PartialEq, Eq)]
pub struct FilterConfig {
    /// Process names to capture (compared without regard to case).
    pub process_names: Vec<String>,
    /// Process ids to capture.
    pub pids: Vec<u32>,
}

/// Whether `c` separates path components: `/`, and on Windows also `\`.
pub open spec fn is_path_separator(c: char, windows: bool) -> bool {
    c == '/' || (windows && c == '\\')
}

/// Whether `base` is a bare Windows drive such as `C:`.
pub open spec fn is_bare_drive(base: Seq<char>) -> bool {
    &&& base.len() == 2
    &&& base[1] == ':'
    &&& ('a' <= base[0] <= 'z' || 'A' <= base[0] <= 'Z')
}

/// `base` extended by the relative component `name`, as `Path::join` does for
/// a plain name: a separator (`\` on Windows, `/` elsewhere) goes between
/// them unless `base` is empty, already ends with a separator, or (on Windows)
/// is a bare drive.
pub open spec fn push_name_spec(base: Seq<char>, name: Seq<char>, windows: bool) -> Seq<char> {
    if base.len() == 0 || is_path_separator(base.last(), windows) || (windows && is_bare_drive(
        base,
    )) {
        base + name
    } else {
        base.push(if windows {
            '\\'
        } else {
            '/'
        }) + name
    }
}

/// The default log directory: `loghound` then `logs` under the ProgramData
/// folder on Windows (`C:\ProgramData` when the variable is unset), under the
/// temporary directory elsewhere.
pub open spec fn default_log_dir_spec(
    program_data: Option<Seq<char>>,
    temp_dir: Seq<char>,
    windows: bool,
) -> Seq<char> {
    let base = if windows {
        match program_data {
            Some(p) => p,
            None => "C:\\ProgramData"@,
        }
    } else {
        temp_dir
    };
    push_name_spec(push_name_spec(base, "loghound"@, windows), "logs"@, windows)
}

/// Default file name prefix.
pub open spec fn default_prefix_spec() -> Seq<char> {
    "loghound"@
}

/// Default line format.
pub open spec fn default_line_format_spec() -> Seq<char> {
    "{time} [{pid} {process}] {message}"@
}

/// The only process name captured by default.
pub open spec fn default_process_name_spec() -> Seq<char> {
    "ISVCommServer.exe"@
}

/// Default number of daily files kept.
pub const DEFAULT_MAX_DAYS: usize = 15;

/// Message of the error for `log.max_days == 0`.
pub open spec fn zero_max_days_message() -> Seq<char> {
    "log.max_days 必须 >= 1"@
}

/// Message of the error for a blank `log.file_prefix`.
pub open spec fn blank_prefix_message() -> Seq<char> {
    "log.file_prefix 不能为空"@
}

/// The rules a configuration must meet.
pub open spec fn valid_config(c: &Config) -> bool {
    &&& c.log.max_days >= 1
    &&& trim(c.log.file_prefix@).len() > 0
}

/// `base` extended by the plain relative component `name` (see `push_name_spec`).
pub fn push_name(base: &str, name: &str, windows: bool) -> (r: String)
    ensures
        r@ == push_name_spec(base@, name@, windows),
{
    proof {
        reveal_strlit("\\");
        reveal_strlit("/");
    }
    let v = chars_of(base);
    let n = v.len();
    let mut out = String::from_str(base);
    let joined = n == 0 || v[n - 1] == '/' || (windows && v[n - 1] == '\\') || (windows && n == 2
        && v[1] == ':' && (('a' <= v[0] && v[0] <= 'z') || ('A' <= v[0] && v[0] <= 'Z')));
    if !joined {
        if windows {
            out.append("\\");
        } else {
            out.append("/");
        }
        proof {
            assert(out@ =~= base@.push(
                if windows {
                    '\\'
                } else {
                    '/'
                },
            ));
        }
    }
    out.append(name);
    out
}

/// The default log directory, given the value of the `ProgramData` variable,
/// the temporary directory and whether this is Windows: `loghound\logs` under
/// ProgramData (`C:\ProgramData` when unset) on Windows, `loghound/logs` under
/// the temporary directory elsewhere.
pub fn default_log_dir(program_data: Option<String>, temp_dir: String, windows: bool) -> (d: String)
    ensures
        d@ == default_log_dir_spec(
            match program_data {
                Some(p) => Some(p@),
                None => None,
            },
            temp_dir@,
            windows,
        ),
{
    let base = if windows {
        match program_data {
            Some(p) => p,
            None => String::from_str("C:\\ProgramData"),
        }
    } else {
        temp_dir
    };
    let with_app = push_name(base.as_str(), "loghound", windows);
    push_name(with_app.as_str(), "logs", windows)
}

impl LogConfig {
    /// Default log settings, writing to `dir`.
    pub fn with_dir(dir: String) -> (c: LogConfig)
        ensures
            c.dir == dir,
            c.file_prefix@ == default_prefix_spec(),
            c.max_days == DEFAULT_MAX_DAYS,
            c.line_format@ == default_line_format_spec(),
    {
        LogConfig {
            dir,
            file_prefix: String::from_str("loghound"),
            max_days: DEFAULT_MAX_DAYS,
            line_format: String::from_str("{time} [{pid} {process}] {message}"),
        }
    }
}

impl LogConfig {
    /// The default log settings of a machine: the directory from the
    /// `ProgramData` value or the temporary directory (see `default_log_dir`).
    pub fn default_for(program_data: Option<String>, temp_dir: String, windows: bool) -> (c: LogConfig)
        ensures
            c.dir@ == default_log_dir_spec(
                match program_data {
                    Some(p) => Some(p@),
                    None => None,
                },
                temp_dir@,
                windows,
            ),
            c.file_prefix@ == default_prefix_spec(),
            c.max_days == DEFAULT_MAX_DAYS,
            c.line_format@ == default_line_format_spec(),
    {
        LogConfig::with_dir(default_log_dir(program_data, temp_dir, windows))
    }
}

impl Default for FilterConfig {
    fn default() -> (c: FilterConfig)
        ensures
            c.process_names@.len() == 1,
            c.process_names@[0]@ == default_process_name_spec(),
            c.pids@.len() == 0,
    {
        let mut process_names: Vec<String> = Vec::new();
        process_names.push(String::from_str("ISVCommServer.exe"));
        FilterConfig { process_names, pids: Vec::new() }
    }
}

impl Config {
    /// The default configuration of a machine, given its `ProgramData` value,
    /// its temporary directory and whether it runs Windows.
    pub fn default_for(program_data: Option<String>, temp_dir: String, windows: bool) -> (c: Config)
        ensures
            c.log.dir@ == default_log_dir_spec(
                match program_data {
                    Some(p) => Some(p@),
                    None => None,
                },
                temp_dir@,
                windows,
            ),
            c.log.file_prefix@ == default_prefix_spec(),
            c.log.max_days == DEFAULT_MAX_DAYS,
            c.log.line_format@ == default_line_format_spec(),
            c.filter.process_names@.len() == 1,
            c.filter.process_names@[0]@ == default_process_name_spec(),
            c.filter.pids@.len() == 0,
    {
        Config { log: LogConfig::default_for(program_data, temp_dir, windows), filter: FilterConfig::default() }
    }

    /// The default configuration, with its log files under `dir`.
    pub fn with_log_dir(dir: String) -> (c: Config)
        ensures
            c.log.dir == dir,
            c.log.file_prefix@ == default_prefix_spec(),
            c.log.max_days == DEFAULT_MAX_DAYS,
            c.log.line_format@ == default_line_format_spec(),
            c.filter.process_names@.len() == 1,
            c.filter.process_names@[0]@ == default_process_name_spec(),
            c.filter.pids@.len() == 0,
    {
        Config { log: LogConfig::with_dir(dir), filter: FilterConfig::default() }
    }

    /// Checks the rules, failing on the first one broken: `log.max_days` at
    /// least 1, then `log.file_prefix` not blank.
    pub fn validate(&self) -> (r: Result<(), ConfigError>)
        ensures
            r is Ok <==> valid_config(self),
            r matches Err(e) ==> e matches ConfigError::Invalid(m) && (if self.log.max_days == 0 {
                m@ == zero_max_days_message()
            } else {
                m@ == blank_prefix_message()
            }),
    {
        if self.log.max_days == 0 {
            return Err(ConfigError::Invalid(String::from_str("log.max_days 必须 >= 1")));
        }
        if trim_str(self.log.file_prefix.as_str()).is_empty() {
            return Err(ConfigError::Invalid(String::from_str("log.file_prefix 不能为空")));
        }
        Ok(())
    }
}

/// A configuration is valid exactly when it keeps at least one daily file and
/// its file prefix is not made of whitespace only; nothing else counts.
pub proof fn law_valid_exactly_with_days_and_prefix(c: &Config)
    ensures
        valid_config(c) <==> (c.log.max_days >= 1 && !all_white_space(c.log.file_prefix@)),
{
    lemma_trim_empty_iff_blank(c.log.file_prefix@);
}

/// The default configuration meets the rules.
pub proof fn law_default_settings_are_valid(c: &Config)
    requires
        c.log.max_days == DEFAULT_MAX_DAYS,
        c.log.file_prefix@ == default_prefix_spec(),
    ensures
        valid_config(c),
{
    reveal_strlit("loghound");
    let p = c.log.file_prefix@;
    assert(p[0] == 'l');
    lemma_trim_empty_iff_blank(p);
}

} // verus!
