//! Verified core of a folder-watching service that moves or copies new files
//! from source folders to destination folders, as configured by folder monitors.
pub mod time_span;
pub mod paths;
pub mod config;
pub mod history_manager;
pub mod handle_files;
pub mod monitor_folders;
pub mod app_paths;
pub mod gui;
pub mod yaml_config;
