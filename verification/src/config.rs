//! The tracked-file registry: the configuration file's schema, its
//! structural validation, and the resolution of each configured path into a
//! live location and the base name its mirror copy is stored under.

use vstd::prelude::*;
use crate::errors::ConfigError;
use crate::errors::SydError;
use crate::paths::file_name_of;
use crate::paths::resolve;
use crate::paths::spec_file_name;
use crate::paths::tilde_prefixed;

verus! {

/// Which files are tracked and where the mirror folder is.
#[derive(Clone, Debug)]
pub struct FileConfig {
    /// The mirror directory, as configured (may use the home shorthand).
    pub folder: String,
    /// The live paths to manage, in configured order.
    pub paths: Vec<String>,
}

/// How the mirror repository is published.
#[derive(Clone, Debug)]
pub struct GitConfig {
    /// The remote repository URL.
    pub remote_url: String,
    /// The single branch the tool uses.
    pub branch: String,
}

/// The whole configuration. Constructed once from the configuration file's
/// text; read-only afterwards.
#[derive(Clone, Debug)]
pub struct Config {
    pub files: FileConfig,
    pub git: GitConfig,
}

/// The string value at `table.key` of the TOML document `text` denotes, or
/// nothing when the text is not a TOML document, the key is absent, or its
/// value is not a string.
pub uninterp spec fn toml_str_field(text: Seq<char>, table: Seq<char>, key: Seq<char>) -> Option<
    Seq<char>,
>;

/// The array of strings at `table.key` of the TOML document `text` denotes,
/// or nothing when the text is not a TOML document, the key is absent, or
/// its value is not an array of strings.
pub uninterp spec fn toml_str_list_field(
    text: Seq<char>,
    table: Seq<char>,
    key: Seq<char>,
) -> Option<Seq<Seq<char>>>;

/// Relies on toml::Table's FromStr, toml::map::Map::get and
/// toml::Value::as_str: extracts the string at `table.key` of the parsed
/// document. The result is a function of the three arguments alone.
#[verifier::external_body]
fn toml_string_at(text: &String, table: &str, key: &str) -> (r: Option<String>)
    ensures
        match r {
            Some(s) => toml_str_field(text@, table@, key@) == Some(s@),
            None => toml_str_field(text@, table@, key@) is None,
        },
{
    let doc: toml::Table = match text.as_str().parse() {
        Ok(d) => d,
        Err(_) => return None,
    };
    doc.get(table).and_then(|v| v.get(key)).and_then(|f| f.as_str()).map(|s| s.to_string())
}

/// Relies on toml::Table's FromStr, toml::map::Map::get, toml::Value::get
/// and toml::Value::as_array / as_str: extracts the array of strings at
/// `table.key` of the parsed document. The result is a function of the
/// three arguments alone.
#[verifier::external_body]
fn toml_string_list_at(text: &String, table: &str, key: &str) -> (r: Option<Vec<String>>)
    ensures
        match r {
            Some(v) => toml_str_list_field(text@, table@, key@) == Some(v.deep_view()),
            None => toml_str_list_field(text@, table@, key@) is None,
        },
{
    let doc: toml::Table = match text.as_str().parse() {
        Ok(d) => d,
        Err(_) => return None,
    };
    let arr = doc.get(table).and_then(|v| v.get(key)).and_then(|f| f.as_array())?;
    let mut out: Vec<String> = Vec::new();
    let mut i: usize = 0;
    while i < arr.len() {
        out.push(arr[i].as_str()?.to_string());
        i += 1;
    }
    Some(out)
}

impl Config {
    /// Build the configuration from the configuration file's text, handed in
    /// by the caller who searched the recognized locations — `None` when no
    /// file was found there.
    ///
    /// The mirror folder and the remote URL are required: if either is
    /// absent (or the text is not TOML at all, in which case no field can be
    /// extracted) the text is rejected as unparseable. The tracked-path list
    /// defaults to empty and the branch to "main".
    pub fn load(contents: Option<&String>) -> (r: Result<Config, SydError>)
        ensures
            match r {
                Ok(c) => contents matches Some(text) && {
                    &&& toml_str_field(text@, "files"@, "folder"@) == Some(c.files.folder@)
                    &&& toml_str_field(text@, "git"@, "remote_url"@) == Some(c.git.remote_url@)
                    &&& match toml_str_list_field(text@, "files"@, "paths"@) {
                        Some(l) => c.files.paths.deep_view() == l,
                        None => c.files.paths@.len() == 0,
                    }
                    &&& match toml_str_field(text@, "git"@, "branch"@) {
                        Some(b) => c.git.branch@ == b,
                        None => c.git.branch@ == "main"@,
                    }
                },
                Err(SydError::Config(ConfigError::NotFound)) => contents is None,
                Err(SydError::Config(ConfigError::Parse)) => contents matches Some(text) && (
                toml_str_field(text@, "files"@, "folder"@) is None || toml_str_field(
                    text@,
                    "git"@,
                    "remote_url"@,
                ) is None),
                Err(_) => false,
            },
    {
        let text = match contents {
            Some(t) => t,
            None => {
                return Err(SydError::Config(ConfigError::NotFound));
            },
        };
        let folder = match toml_string_at(text, "files", "folder") {
            Some(f) => f,
            None => {
                return Err(SydError::Config(ConfigError::Parse));
            },
        };
        let remote_url = match toml_string_at(text, "git", "remote_url") {
            Some(u) => u,
            None => {
                return Err(SydError::Config(ConfigError::Parse));
            },
        };
        let paths = match toml_string_list_at(text, "files", "paths") {
            Some(p) => p,
            None => Vec::new(),
        };
        let branch = match toml_string_at(text, "git", "branch") {
            Some(b) => b,
            None => String::from_str("main"),
        };
        Ok(Config { files: FileConfig { folder, paths }, git: GitConfig { remote_url, branch } })
    }

    /// Check semantic constraints beyond structure. An empty tracked-file
    /// list is a valid no-op configuration, so every loaded configuration
    /// passes.
    pub fn validate(&self) -> (r: Result<(), ConfigError>)
        ensures
            r is Ok,
    {
        Ok(())
    }
}

/// One tracked file after path resolution: where its live copy is, and the
/// base name its mirror copy is stored under.
#[derive(Clone, Debug)]
pub struct TrackedEntry {
    pub live_path: String,
    pub file_name: String,
}

impl TrackedEntry {
    /// The mirror name is the extractable base name of the live path.
    pub open spec fn wf(&self) -> bool {
        spec_file_name(self.live_path@) == Some(self.file_name@)
    }
}

/// Resolve every configured path: expand the home shorthand and extract the
/// base name the file is mirrored under. Fails with `PathExpansion` when a
/// shorthand cannot be expanded, and with an I/O error when a resolved path
/// has no extractable file name.
pub fn resolve_entries(cfg: &Config) -> (r: Result<Vec<TrackedEntry>, SydError>)
    ensures
        match r {
            Ok(v) => {
                &&& v@.len() == cfg.files.paths@.len()
                &&& forall|i: int| 0 <= i < v@.len() ==> (#[trigger] v@[i]).wf()
                &&& forall|i: int|
                    0 <= i < v@.len() ==> !tilde_prefixed(cfg.files.paths@[i]@) ==> (
                    #[trigger] v@[i]).live_path@ == cfg.files.paths@[i]@
            },
            Err(e) => match e {
                SydError::Config(ConfigError::PathExpansion(p)) => tilde_prefixed(p@) && exists|
                    i: int,
                |
                    0 <= i < cfg.files.paths@.len() && (#[trigger] cfg.files.paths@[i])@ == p@,
                SydError::Io(_) => exists|i: int|
                    0 <= i < cfg.files.paths@.len() && (tilde_prefixed(
                        (#[trigger] cfg.files.paths@[i])@,
                    ) || spec_file_name(cfg.files.paths@[i]@) is None),
                _ => false,
            },
        },
{
    let n = cfg.files.paths.len();
    let mut out: Vec<TrackedEntry> = Vec::new();
    let mut i: usize = 0;
    while i < n
        invariant
            n == cfg.files.paths@.len(),
            i <= n,
            out@.len() == i,
            forall|j: int| 0 <= j < i ==> (#[trigger] out@[j]).wf(),
            forall|j: int|
                0 <= j < i ==> !tilde_prefixed(cfg.files.paths@[j]@) ==> (
                #[trigger] out@[j]).live_path@ == cfg.files.paths@[j]@,
        decreases n - i,
    {
        let p = &cfg.files.paths[i];
        let resolved = match resolve(p) {
            Ok(s) => s,
            Err(e) => {
                proof {
                    assert(cfg.files.paths@[i as int]@ == p@);
                }
                return Err(e);
            },
        };
        let name = match file_name_of(&resolved) {
            Some(nm) => nm,
            None => {
                return Err(SydError::Io(String::from_str("tracked path has no file name")));
            },
        };
        out.push(TrackedEntry { live_path: resolved, file_name: name });
        i += 1;
    }
    Ok(out)
}

} // verus!
