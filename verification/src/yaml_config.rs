//! The configuration of the single-program variant of the watcher, kept in a YAML
//! file: its types, its defaults and what is done when the file is loaded.
use vstd::prelude::*;

pub use crate::config::{HistoryConfig, HistoryConfigView, HISTORY_FILENAME};
use crate::paths::{is_absolute, path_join, spec_is_absolute, spec_join, spec_with_extension, with_extension};
use crate::time_span::TimeSpan;

verus! {

/// The name of the configuration file inside the configuration folder.
pub const CONFIG_FILENAME: &'static str = "config.yml";

/// The extension of the copy kept of a configuration file that could not be parsed.
pub const CONFIG_BACKUP_EXTENSION: &'static str = "yaml.bak";

/// The abstract value of a folder monitor.
pub struct FolderMonitorView {
    pub extensions: Seq<Seq<char>>,
    pub source_folder: Seq<char>,
    pub destination_folder: Seq<char>,
}

/// Files with one of `extensions` that appear in `source_folder` are moved to
/// `destination_folder`.
#[derive(Debug)]
pub struct FolderMonitor {
    pub extensions: Vec<String>,
    pub source_folder: String,
    pub destination_folder: String,
}

impl View for FolderMonitor {
    type V = FolderMonitorView;

    open spec fn view(&self) -> FolderMonitorView {
        FolderMonitorView {
            extensions: self.extensions.deep_view(),
            source_folder: self.source_folder@,
            destination_folder: self.destination_folder@,
        }
    }
}

impl Default for FolderMonitor {
    /// No extensions and empty folders.
    fn default() -> (r: Self)
        ensures
            r@ == (FolderMonitorView {
                extensions: Seq::empty(),
                source_folder: Seq::empty(),
                destination_folder: Seq::empty(),
            }),
    {
        let r = FolderMonitor {
            extensions: Vec::new(),
            source_folder: String::new(),
            destination_folder: String::new(),
        };
        proof {
            assert(r.extensions.deep_view() =~= Seq::<Seq<char>>::empty());
        }
        r
    }
}

/// The abstract value of a file handling configuration.
pub struct FileHandlingConfigView {
    pub part_temp_file_check: bool,
    pub folder_monitors: Seq<FolderMonitorView>,
    pub move_attempts: u8,
    pub check_interval: nat,
    pub file_timeout: nat,
}

/// How files are handled.
#[derive(Debug)]
pub struct FileHandlingConfig {
    pub part_temp_file_check: bool,
    pub folder_monitors: Vec<FolderMonitor>,
    pub move_attempts: u8,
    pub check_interval: TimeSpan,
    pub file_timeout: TimeSpan,
}

impl View for FileHandlingConfig {
    type V = FileHandlingConfigView;

    open spec fn view(&self) -> FileHandlingConfigView {
        FileHandlingConfigView {
            part_temp_file_check: self.part_temp_file_check,
            folder_monitors: self.folder_monitors@.map_values(|m: FolderMonitor| m@),
            move_attempts: self.move_attempts,
            check_interval: self.check_interval@,
            file_timeout: self.file_timeout@,
        }
    }
}

impl Default for FileHandlingConfig {
    /// No monitors, no checks and no attempts; all spans empty.
    fn default() -> (r: Self)
        ensures
            r@ == (FileHandlingConfigView {
                part_temp_file_check: false,
                folder_monitors: Seq::empty(),
                move_attempts: 0,
                check_interval: 0,
                file_timeout: 0,
            }),
    {
        let r = FileHandlingConfig {
            part_temp_file_check: false,
            folder_monitors: Vec::new(),
            move_attempts: 0,
            check_interval: TimeSpan::zero(),
            file_timeout: TimeSpan::zero(),
        };
        proof {
            assert(r.folder_monitors@.map_values(|m: FolderMonitor| m@) =~= Seq::<
                FolderMonitorView,
            >::empty());
        }
        r
    }
}

/// The abstract value of a configuration.
pub struct ConfigView {
    pub file_handling_config: FileHandlingConfigView,
    pub history_config: HistoryConfigView,
}

/// The whole configuration.
#[derive(Debug)]
pub struct Config {
    pub file_handling_config: FileHandlingConfig,
    pub history_config: HistoryConfig,
}

impl View for Config {
    type V = ConfigView;

    open spec fn view(&self) -> ConfigView {
        ConfigView {
            file_handling_config: self.file_handling_config@,
            history_config: self.history_config@,
        }
    }
}

/// The configuration used where the file gives none.
pub open spec fn spec_default_config() -> ConfigView {
    ConfigView {
        file_handling_config: FileHandlingConfigView {
            part_temp_file_check: true,
            folder_monitors: Seq::empty(),
            move_attempts: 5,
            check_interval: 1_000_000_000,
            file_timeout: 5_000_000_000,
        },
        history_config: HistoryConfigView {
            filepath: Seq::empty(),
            max_size_mb: 5,
            flush_interval: 1_000_000_000,
        },
    }
}

impl Default for Config {
    /// Part files checked, no monitors, five attempts, a check every second, five
    /// seconds of quiet, and a five-megabyte history flushed every second at a path
    /// yet to be chosen.
    fn default() -> (r: Self)
        ensures
            r@ == spec_default_config(),
    {
        let r = Config {
            file_handling_config: FileHandlingConfig {
                part_temp_file_check: true,
                folder_monitors: Vec::new(),
                move_attempts: 5u8,
                check_interval: TimeSpan::from_millis(1000),
                file_timeout: TimeSpan::from_millis(5000),
            },
            history_config: HistoryConfig {
                filepath: String::new(),
                max_size_mb: 5,
                flush_interval: TimeSpan::from_millis(1000),
            },
        };
        proof {
            assert(r.file_handling_config.folder_monitors@.map_values(|m: FolderMonitor| m@)
                =~= Seq::<FolderMonitorView>::empty());
        }
        r
    }
}

/// The data folder and the configuration file.
#[derive(Debug)]
pub struct AppPaths {
    pub data_dir: String,
    pub config_path: String,
}

impl AppPaths {
    /// The paths for the given folders: the configuration file is `config.yml`
    /// inside the configuration folder.
    pub fn new(data_dir: String, config_dir: String) -> (r: AppPaths)
        ensures
            r.data_dir@ == data_dir@,
            r.config_path@ == spec_join(config_dir@, CONFIG_FILENAME@),
    {
        let config_path = path_join(config_dir.as_str(), CONFIG_FILENAME);
        AppPaths { data_dir, config_path }
    }
}

/// What the configuration file held when it was opened.
pub enum ConfigSource {
    /// There was no file.
    Missing,
    /// The file could not be read.
    Unreadable,
    /// The file held no valid configuration.
    Invalid,
    /// The file held this configuration.
    Parsed(Config),
}

/// What is to be done with the configuration file.
pub enum ConfigFileAction {
    /// Create an empty file at the configuration path.
    Create,
    /// Copy the file to this path, and leave it in place.
    CopyToBackup(String),
    /// Leave the file as it is.
    Keep,
}

/// The configuration to use, and what to do with the file it came from.
pub struct LoadPlan {
    pub config: Config,
    pub action: ConfigFileAction,
}

impl Config {
    /// Decides the configuration from what the file at `config_path` held: a parsed
    /// configuration is kept; a missing file is created and the default used; a
    /// file that could not be parsed is copied to the `yaml.bak` backup path and
    /// the default used; a file that could not be read is left alone and the
    /// default used.
    pub fn plan_load(config_path: &str, source: ConfigSource) -> (r: LoadPlan)
        ensures
            match source {
                ConfigSource::Parsed(c) => r.config@ == c@ && r.action is Keep,
                ConfigSource::Missing => r.config@ == spec_default_config() && r.action is Create,
                ConfigSource::Unreadable => r.config@ == spec_default_config() && r.action is Keep,
                ConfigSource::Invalid => r.config@ == spec_default_config() && match r.action {
                    ConfigFileAction::CopyToBackup(p) => p@ == spec_with_extension(
                        config_path@,
                        CONFIG_BACKUP_EXTENSION@,
                    ),
                    _ => false,
                },
            },
    {
        match source {
            ConfigSource::Parsed(c) => LoadPlan { config: c, action: ConfigFileAction::Keep },
            ConfigSource::Missing => LoadPlan {
                config: Config::default(),
                action: ConfigFileAction::Create,
            },
            ConfigSource::Unreadable => LoadPlan {
                config: Config::default(),
                action: ConfigFileAction::Keep,
            },
            ConfigSource::Invalid => {
                let backup = with_extension(config_path, CONFIG_BACKUP_EXTENSION);
                LoadPlan {
                    config: Config::default(),
                    action: ConfigFileAction::CopyToBackup(backup),
                }
            },
        }
    }

    /// Where the history should be written instead, if the configured path is
    /// empty or relative: `history.json` inside `data_dir`.
    pub fn history_fallback(&self, data_dir: &str) -> (r: Option<String>)
        ensures
            r is Some <==> !spec_is_absolute(self.history_config.filepath@),
            r matches Some(p) ==> p@ == spec_join(data_dir@, HISTORY_FILENAME@),
    {
        if is_absolute(self.history_config.filepath.as_str()) {
            None
        } else {
            Some(path_join(data_dir, HISTORY_FILENAME))
        }
    }
}

} // verus!
