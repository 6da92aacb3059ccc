//! The saved configuration and user data, where they are kept, and how data
//! written in older formats is read.
use vstd::prelude::*;
use crate::file_entry::FileEntry;

verus! {

/// The saved settings: the theme's name, an optional path of the user data
/// file, and the compact display mode.
pub struct AppConfig {
    pub theme_mode: String,
    pub data_file_path: Option<String>,
    pub compact_mode: bool,
}

impl Default for AppConfig {
    fn default() -> (c: Self)
        ensures
            c.theme_mode@ == "Light"@,
            c.data_file_path is None,
            !c.compact_mode,
    {
        AppConfig { theme_mode: String::from_str("Light"), data_file_path: None, compact_mode: false }
    }
}

/// The saved entries, with the version of the format.
pub struct UserData {
    pub entries: Vec<FileEntry>,
    pub version: String,
}

/// The version written with data read from an older format.
pub open spec fn legacy_version() -> Seq<char> {
    "0.2.0"@
}

impl Default for UserData {
    fn default() -> (d: Self)
        ensures
            d.entries@.len() == 0,
            d.version@ == legacy_version(),
    {
        UserData { entries: Vec::new(), version: String::from_str("0.2.0") }
    }
}

/// Where the configuration is kept.
pub struct ConfigManager {
    config_path: String,
}

impl ConfigManager {
    /// A manager of the configuration file at `path`.
    pub fn new_with_path(path: String) -> (m: Self)
        ensures
            m.path() == path,
    {
        ConfigManager { config_path: path }
    }

    /// The path of the configuration file.
    pub closed spec fn path(&self) -> String {
        self.config_path
    }

    /// The path of the configuration file.
    pub fn get_config_path(&self) -> (r: &String)
        ensures
            *r == self.path(),
    {
        &self.config_path
    }
}

/// Where the user data is kept.
pub struct DataManager {
    data_path: String,
}

impl DataManager {
    /// A manager of the data file at `path`.
    pub fn new_with_path(path: String) -> (m: Self)
        ensures
            m.path() == path,
    {
        DataManager { data_path: path }
    }

    /// The path of the data file.
    pub closed spec fn path(&self) -> String {
        self.data_path
    }

    /// The path of the data file.
    pub fn get_data_path(&self) -> (r: &String)
        ensures
            *r == self.path(),
    {
        &self.data_path
    }
}

/// What the text of a data file turned out to be, trying the formats in turn:
/// the current one, a bare list of entries, any JSON value (with or without
/// a readable `entries` field), or nothing readable.
pub enum LoadedData {
    Current(UserData),
    EntryList(Vec<FileEntry>),
    EntriesField(Option<Vec<FileEntry>>),
    OtherJson,
    Unreadable,
}

/// The user data a data file gives: data in the current format as it is;
/// entries from an older format with the legacy version; and no entries
/// when nothing could be read.
pub fn user_data_from(loaded: LoadedData) -> (d: UserData)
    ensures
        match loaded {
            LoadedData::Current(u) => d == u,
            LoadedData::EntryList(es) => d.entries == es && d.version@ == legacy_version(),
            LoadedData::EntriesField(Some(es)) => d.entries == es && d.version@ == legacy_version(),
            _ => d.entries@.len() == 0 && d.version@ == legacy_version(),
        },
{
    match loaded {
        LoadedData::Current(u) => u,
        LoadedData::EntryList(es) => UserData { entries: es, version: String::from_str("0.2.0") },
        LoadedData::EntriesField(Some(es)) => UserData {
            entries: es,
            version: String::from_str("0.2.0"),
        },
        _ => UserData::default(),
    }
}

/// The data file the configuration asks for, when it names one that is not
/// empty and that can be used (the file or its folder exists); otherwise the
/// default file is used.
pub fn configured_data_path(config: &AppConfig, path_usable: bool) -> (r: Option<String>)
    ensures
        match config.data_file_path {
            Some(p) => if p@.len() > 0 && path_usable {
                r == Some(p)
            } else {
                r is None
            },
            None => r is None,
        },
{
    match &config.data_file_path {
        Some(p) => {
            if !p.as_str().is_empty() && path_usable {
                Some(p.clone())
            } else {
                None
            }
        },
        None => None,
    }
}

} // verus!
