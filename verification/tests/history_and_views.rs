use file_watcher::app_paths::AppPaths;
use file_watcher::config::HistoryConfig;
use file_watcher::handle_files::{after_rename, MoveStep, RenameOutcome};
use file_watcher::gui::{AppMessage, MenuItem, ViewState};
use std::sync::{Arc, RwLock};

use file_watcher::history_manager::{EventType, HistoryManager, HistoryState};
use file_watcher::time_span::TimeSpan;
use file_watcher::yaml_config;

fn history(path: &str, mb: usize) -> HistoryConfig {
    HistoryConfig { filepath: path.to_string(), max_size_mb: mb, flush_interval: TimeSpan::from_secs(1) }
}

#[test]
fn manager_shares_given_lock() {
    let shared = Arc::new(RwLock::new(history("/data/history.json", 5)));
    let m = HistoryManager::default().init(shared.clone());
    assert!(Arc::ptr_eq(&m.config, &shared));
    shared.write().unwrap().max_size_mb = 8;
    assert_eq!(m.config.read().unwrap().max_size_mb, 8);
}

#[test]
fn default_manager_holds_default_config() {
    let m = HistoryManager::default();
    assert_eq!(m.config.read().unwrap().max_size_mb, 0);
    assert_eq!(m.config.read().unwrap().filepath, "");
}

#[test]
fn state_starts_from_config() {
    let s = HistoryState::from_config(&history("/data/history.json", 5));
    assert_eq!(s.filepath, "/data/history.json");
    assert_eq!(s.max_size_mb, 5);
    assert!(!s.recreate_file);
}

#[test]
fn new_path_asks_for_reopen_once() {
    let mut s = HistoryState::from_config(&history("/data/history.json", 5));
    s.apply_config(&history("/data/history.json", 9));
    assert!(!s.recreate_file);
    assert_eq!(s.max_size_mb, 9);
    s.apply_config(&history("/data/other.json", 9));
    assert!(s.recreate_file);
    assert_eq!(s.filepath, "/data/other.json");
    assert!(s.take_recreate());
    assert!(!s.take_recreate());
}

#[test]
fn rotation_at_size_limit() {
    let s = HistoryState::from_config(&history("/data/history.json", 1));
    assert!(!s.needs_rotation(1_048_575));
    assert!(s.needs_rotation(1_048_576));
    assert_eq!(s.rotation_path(), "/data/history.bak");
    assert_eq!(s.rotation_after_flush(1_048_575), None);
    assert_eq!(s.rotation_after_flush(2_000_000), Some("/data/history.bak".to_string()));
    let zero = HistoryState::from_config(&history("/h.json", 0));
    assert!(zero.needs_rotation(0));
}

#[test]
fn detected_event_has_no_destination() {
    match EventType::file_detected("movie.mkv".to_string()) {
        EventType::FileDetected(info) => {
            assert_eq!(info.filepath, "movie.mkv");
            assert_eq!(info.destination_path, "");
        }
        other => panic!("unexpected event {:?}", other),
    }
}

#[test]
fn menu_selection_is_shown() {
    let mut v = ViewState::new();
    assert_eq!(v.view_selected, None);
    v.update(AppMessage::ViewSelected(MenuItem::History));
    assert_eq!(v.view_selected, Some(MenuItem::History));
    v.update(AppMessage::ViewSelected(MenuItem::Configuration));
    assert_eq!(v.view_selected, Some(MenuItem::Configuration));
}

#[test]
fn app_paths_put_config_in_config_dir() {
    let p = AppPaths::from_dirs("/home/u/.local/share/fw".to_string(), "/home/u/.config/fw".to_string());
    assert_eq!(p.config_path, "/home/u/.config/fw/config.json");
    assert_eq!(p.log_dir(), "/home/u/.local/share/fw/log");
    let y = yaml_config::AppPaths::new("/d".to_string(), "/c/".to_string());
    assert_eq!(y.config_path, "/c/config.yml");
    assert_eq!(y.data_dir, "/d");
}

#[test]
fn yaml_load_plans() {
    let plan = yaml_config::Config::plan_load("/c/config.yml", yaml_config::ConfigSource::Invalid);
    match plan.action {
        yaml_config::ConfigFileAction::CopyToBackup(p) => assert_eq!(p, "/c/config.yaml.bak"),
        _ => panic!("expected a backup copy"),
    }
    let plan = yaml_config::Config::plan_load("/c/config.yml", yaml_config::ConfigSource::Unreadable);
    assert!(matches!(plan.action, yaml_config::ConfigFileAction::Keep));
    assert_eq!(plan.config.file_handling_config.move_attempts, 5);
    let plan = yaml_config::Config::plan_load("/c/config.yml", yaml_config::ConfigSource::Missing);
    assert!(matches!(plan.action, yaml_config::ConfigFileAction::Create));
    assert_eq!(plan.config.history_fallback("/d"), Some("/d/history.json".to_string()));
}

#[test]
fn history_paths_compare_as_paths() {
    let mut h = history("/h/x", 5);
    assert!(h.same_as(&history("/h//x/", 5)));
    assert!(!h.replace_if_changed(history("/h/x/", 5)));
    assert_eq!(h.filepath, "/h/x");
    assert!(h.replace_if_changed(history("/h/y", 5)));
    assert_eq!(h.filepath, "/h/y");
    let mut s = HistoryState::from_config(&history("/h/x", 5));
    s.apply_config(&history("/h/x/", 5));
    assert!(!s.recreate_file);
    assert_eq!(s.filepath, "/h/x/");
}

#[test]
fn move_falls_back_to_copy_across_devices() {
    assert_eq!(after_rename(RenameOutcome::Renamed), MoveStep::Done);
    assert_eq!(after_rename(RenameOutcome::CrossesDevices), MoveStep::CopyThenRemove);
    assert_eq!(after_rename(RenameOutcome::Failed), MoveStep::Fail);
}
