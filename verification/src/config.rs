//! User configuration: server URLs, watched folders and their album mapping.

use vstd::prelude::*;
use std::path::PathBuf;
use crate::text::{has_prefix, is_prefix, trim_whitespace, trimmed, opt_view};

verus! {

/// std's `PathBuf`, carried through unchanged: the library never looks inside
/// a path value, it only hands it back to the code that reads and writes files.
#[verifier::external_type_specification]
#[verifier::external_body]
pub struct ExPathBuf(PathBuf);

/// A watched folder: a plain path, or a path with its album settings.
#[derive(Clone, Debug)]
pub enum WatchPathEntry {
    Simple(String),
    WithConfig {
        path: String,
        album_id: Option<String>,
        album_name: Option<String>,
    },
}

impl WatchPathEntry {
    /// The folder of an entry.
    pub open spec fn path_view(&self) -> Seq<char> {
        match self {
            WatchPathEntry::Simple(p) => p@,
            WatchPathEntry::WithConfig { path, .. } => path@,
        }
    }

    /// The configured album id of an entry.
    pub open spec fn album_id_view(&self) -> Option<Seq<char>> {
        match self {
            WatchPathEntry::Simple(_) => None,
            WatchPathEntry::WithConfig { album_id, .. } => opt_view(*album_id),
        }
    }

    /// The configured album name of an entry.
    pub open spec fn album_name_view(&self) -> Option<Seq<char>> {
        match self {
            WatchPathEntry::Simple(_) => None,
            WatchPathEntry::WithConfig { album_name, .. } => opt_view(*album_name),
        }
    }

    /// The watched folder.
    pub fn path(&self) -> (p: &str)
        ensures
            p@ == self.path_view(),
    {
        match self {
            WatchPathEntry::Simple(p) => p.as_str(),
            WatchPathEntry::WithConfig { path, .. } => path.as_str(),
        }
    }

    /// The album id configured for the folder (never for a plain path).
    pub fn album_id(&self) -> (a: Option<&str>)
        ensures
            match a { Some(s) => Some(s@), None => None } == self.album_id_view(),
    {
        match self {
            WatchPathEntry::Simple(_) => None,
            WatchPathEntry::WithConfig { album_id, .. } => match album_id {
                Some(s) => Some(s.as_str()),
                None => None,
            },
        }
    }

    /// The album name configured for the folder (never for a plain path).
    pub fn album_name(&self) -> (a: Option<&str>)
        ensures
            match a { Some(s) => Some(s@), None => None } == self.album_name_view(),
    {
        match self {
            WatchPathEntry::Simple(_) => None,
            WatchPathEntry::WithConfig { album_name, .. } => match album_name {
                Some(s) => Some(s.as_str()),
                None => None,
            },
        }
    }
}

/// The settings stored in `config.json`.
#[derive(Clone, Debug)]
pub struct ConfigData {
    pub internal_url: String,
    pub external_url: String,
    pub internal_url_enabled: bool,
    pub external_url_enabled: bool,
    pub watch_paths: Vec<WatchPathEntry>,
    pub run_on_startup: bool,
    pub album_sync: bool,
    pub delete_after_sync: bool,
}

/// The value a missing URL toggle takes: enabled.
pub fn default_true() -> (b: bool)
    ensures
        b,
{
    true
}

/// Settings with nothing configured: no URLs (both toggles on), no folders,
/// every option off.
pub open spec fn is_default_config(d: ConfigData) -> bool {
    &&& d.internal_url@.len() == 0
    &&& d.external_url@.len() == 0
    &&& d.internal_url_enabled
    &&& d.external_url_enabled
    &&& d.watch_paths@.len() == 0
    &&& !d.run_on_startup
    &&& !d.album_sync
    &&& !d.delete_after_sync
}

impl Default for ConfigData {
    fn default() -> (d: Self)
        ensures
            is_default_config(d),
    {
        ConfigData {
            internal_url: String::new(),
            external_url: String::new(),
            internal_url_enabled: default_true(),
            external_url_enabled: default_true(),
            watch_paths: Vec::new(),
            run_on_startup: false,
            album_sync: false,
            delete_after_sync: false,
        }
    }
}

/// The settings together with the file they live in.
pub struct Config {
    pub data: ConfigData,
    pub config_file: PathBuf,
}

/// What reading the configuration file gave.
pub enum ConfigSource {
    /// There is no file.
    Missing,
    /// The file exists but could not be read.
    Unreadable,
    /// The file was read but is not valid settings.
    Malformed,
    /// The file held these settings.
    Parsed(ConfigData),
}

impl Config {
    /// Settings in `config_file`, starting from the defaults.
    pub fn with_defaults(config_file: PathBuf) -> (c: Config)
        ensures
            is_default_config(c.data),
            c.config_file == config_file,
    {
        Config { data: ConfigData::default(), config_file }
    }

    /// Takes in what reading the file gave. Parsed settings replace the
    /// current ones (returns true). A missing file leaves the settings as they
    /// are (no folder is added) and asks the caller to write them out. An unreadable or malformed file changes
    /// nothing. The boolean result says whether settings were loaded; the
    /// second whether the defaults must be saved.
    pub fn apply_source(&mut self, source: ConfigSource) -> (r: (bool, bool))
        ensures
            final(self).config_file == old(self).config_file,
            match source {
                ConfigSource::Parsed(d) => r == (true, false) && final(self).data == d,
                ConfigSource::Missing => r == (false, true) && final(self).data == old(self).data,
                _ => r == (false, false) && final(self).data == old(self).data,
            },
    {
        match source {
            ConfigSource::Parsed(d) => {
                self.data = d;
                (true, false)
            },
            ConfigSource::Missing => (false, true),
            ConfigSource::Unreadable => (false, false),
            ConfigSource::Malformed => (false, false),
        }
    }

    /// The watched folders as plain paths, in configuration order.
    pub fn watch_path_strings(&self) -> (r: Vec<String>)
        ensures
            r@.len() == self.data.watch_paths@.len(),
            forall|i: int| 0 <= i < r@.len() ==> #[trigger] r@[i]@ == self.data.watch_paths@[i].path_view(),
    {
        let entries = &self.data.watch_paths;
        let n = entries.len();
        let mut r: Vec<String> = Vec::new();
        let mut i: usize = 0;
        while i < n
            invariant
                n == entries@.len(),
                entries == &self.data.watch_paths,
                i <= n,
                r@.len() == i,
                forall|j: int| 0 <= j < i ==> #[trigger] r@[j]@ == entries@[j].path_view(),
            decreases n - i,
        {
            r.push(String::from_str(entries[i].path()));
            i = i + 1;
        }
        r
    }
}

/// The API key read back from the keyring: the lookup's output without
/// surrounding white space, when the lookup succeeded and that is not empty.
pub open spec fn api_key_from(succeeded: bool, output: Seq<char>) -> Option<Seq<char>> {
    if succeeded && trimmed(output).len() > 0 { Some(trimmed(output)) } else { None }
}

/// Interprets the keyring lookup (`secret-tool lookup service mimick account
/// api_key`): whether it succeeded and what it printed.
pub fn api_key_from_lookup(succeeded: bool, output: &str) -> (k: Option<String>)
    ensures
        opt_view(k) == api_key_from(succeeded, output@),
{
    if !succeeded {
        return None;
    }
    let key = trim_whitespace(output);
    if key.as_str().unicode_len() > 0 { Some(key) } else { None }
}

/// Index of the first entry with album settings whose folder is a prefix of
/// `path`, if any.
pub open spec fn first_album_entry(path: Seq<char>, entries: Seq<WatchPathEntry>, from: int) -> Option<int>
    decreases entries.len() - from,
{
    if from < 0 || from >= entries.len() {
        None
    } else if entries[from] is WithConfig && is_prefix(entries[from].path_view(), path) {
        Some(from)
    } else {
        first_album_entry(path, entries, from + 1)
    }
}

/// The album settings (id, name) that apply to a new file at `path`: those of
/// the first folder with album settings that the path starts with, or none.
pub fn album_config_for(path: &str, entries: &Vec<WatchPathEntry>) -> (r: (Option<String>, Option<String>))
    ensures
        match first_album_entry(path@, entries@, 0) {
            Some(i) => opt_view(r.0) == entries@[i].album_id_view() && opt_view(r.1)
                == entries@[i].album_name_view(),
            None => r.0 is None && r.1 is None,
        },
{
    let n = entries.len();
    let mut i: usize = 0;
    while i < n
        invariant
            n == entries@.len(),
            i <= n,
            first_album_entry(path@, entries@, i as int) == first_album_entry(path@, entries@, 0),
        decreases n - i,
    {
        match &entries[i] {
            WatchPathEntry::WithConfig { path: base, album_id, album_name } => {
                if has_prefix(path, base.as_str()) {
                    return (album_id.clone(), album_name.clone());
                }
            },
            WatchPathEntry::Simple(_) => {},
        }
        i = i + 1;
    }
    (None, None)
}

} // verus!
