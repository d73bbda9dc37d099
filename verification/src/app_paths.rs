//! Where the service keeps its data and its configuration.
use vstd::prelude::*;

use crate::config::CONFIG_FILENAME;
use crate::paths::{path_join, spec_join};

verus! {

/// The name of the application, which names its folders.
pub const APP_NAME: &'static str = "file-watcher";

/// The name of the folder for logs inside the data folder.
pub const LOG_DIRNAME: &'static str = "log";

/// The data folder, the configuration folder, and the configuration file inside it.
#[derive(Debug)]
pub struct AppPaths {
    pub data_dir: String,
    pub config_dir: String,
    pub config_path: String,
}

impl AppPaths {
    /// The paths for the given data and configuration folders: the configuration
    /// file is `config.json` inside the configuration folder.
    pub fn from_dirs(data_dir: String, config_dir: String) -> (r: AppPaths)
        ensures
            r.data_dir@ == data_dir@,
            r.config_dir@ == config_dir@,
            r.config_path@ == spec_join(config_dir@, CONFIG_FILENAME@),
    {
        let config_path = path_join(config_dir.as_str(), CONFIG_FILENAME);
        AppPaths { data_dir, config_dir, config_path }
    }

    /// The folder for logs: `log` inside the data folder.
    pub fn log_dir(&self) -> (r: String)
        ensures
            r@ == spec_join(self.data_dir@, LOG_DIRNAME@),
    {
        path_join(self.data_dir.as_str(), LOG_DIRNAME)
    }
}

} // verus!
