use file_watcher::config::file_handling_config::{
    FileHandlingConfig, FileOperationType, FolderMonitor,
};
use file_watcher::config::{Config, ConfigFileAction, ConfigSource, HistoryConfig};
use file_watcher::time_span::TimeSpan;

fn monitor(enabled: bool, exts: &[&str], src: &str, dst: &str) -> FolderMonitor {
    FolderMonitor {
        enabled,
        file_operation_type: FileOperationType::Move,
        extensions: exts.iter().map(|e| e.to_string()).collect(),
        source_folder: src.to_string(),
        destination_folder: dst.to_string(),
    }
}

fn config_with(monitors: Vec<FolderMonitor>) -> Config {
    let mut c = Config::default();
    c.file_handling_config.folder_monitors = monitors;
    c
}

fn enabled_flags(c: &Config) -> Vec<bool> {
    c.file_handling_config.folder_monitors.iter().map(|m| m.enabled).collect()
}

#[test]
fn default_config_values() {
    let c = Config::default();
    let f = &c.file_handling_config;
    assert!(f.part_temp_file_check);
    assert!(f.folder_monitors.is_empty());
    assert_eq!(f.move_attempts, 5);
    assert!(f.check_interval.same_as(&TimeSpan::from_secs(1)));
    assert!(f.file_timeout.same_as(&TimeSpan::from_secs(5)));
    assert_eq!(c.history_config.filepath, "");
    assert_eq!(c.history_config.max_size_mb, 5);
    assert!(c.history_config.flush_interval.same_as(&TimeSpan::from_secs(1)));
}

#[test]
fn field_defaults() {
    assert!(FolderMonitor::enabled_default());
    assert!(FileHandlingConfig::part_temp_file_check_default());
    assert_eq!(FileHandlingConfig::move_attempts_default(), 5);
    assert!(FileHandlingConfig::check_interval_default().same_as(&TimeSpan::from_secs(1)));
    assert!(FileHandlingConfig::file_timeout_default().same_as(&TimeSpan::from_secs(1)));
    assert_eq!(HistoryConfig::max_size_mb_default(), 5);
    assert!(HistoryConfig::flush_interval_default().same_as(&TimeSpan::from_secs(1)));
    assert_eq!(FileOperationType::default(), FileOperationType::Move);
    assert!(!FolderMonitor::default().enabled);
    assert_eq!(FileHandlingConfig::default().move_attempts, 0);
    assert_eq!(HistoryConfig::default().max_size_mb, 0);
}

#[test]
fn operation_names() {
    assert_eq!(FileOperationType::Move.as_text(), "move");
    assert_eq!(FileOperationType::Copy.as_text(), "copy");
}

#[test]
fn same_source_and_destination_is_disabled() {
    let mut c = config_with(vec![
        monitor(true, &["mkv"], "/in", "/out"),
        monitor(true, &["mp4"], "/in", "/out"),
    ]);
    c.check_for_duplicate_monitors();
    assert_eq!(enabled_flags(&c), vec![true, false]);
}

#[test]
fn same_extensions_and_source_is_disabled() {
    let mut c = config_with(vec![
        monitor(true, &["mkv", "avi"], "/in", "/a"),
        monitor(true, &["mkv", "avi"], "/in", "/b"),
    ]);
    c.check_for_duplicate_monitors();
    assert_eq!(enabled_flags(&c), vec![true, false]);
}

#[test]
fn extensions_in_other_order_are_not_the_same() {
    let mut c = config_with(vec![
        monitor(true, &["mkv", "avi"], "/in", "/a"),
        monitor(true, &["avi", "mkv"], "/in", "/b"),
    ]);
    c.check_for_duplicate_monitors();
    assert_eq!(enabled_flags(&c), vec![true, true]);
}

#[test]
fn different_sources_are_kept() {
    let mut c = config_with(vec![
        monitor(true, &["mkv"], "/in1", "/out"),
        monitor(true, &["mkv"], "/in2", "/out"),
    ]);
    c.check_for_duplicate_monitors();
    assert_eq!(enabled_flags(&c), vec![true, true]);
}

#[test]
fn disabled_monitors_do_not_conflict() {
    let mut c = config_with(vec![
        monitor(false, &["mkv"], "/in", "/out"),
        monitor(true, &["mkv"], "/in", "/out"),
    ]);
    c.check_for_duplicate_monitors();
    assert_eq!(enabled_flags(&c), vec![false, true]);
}

#[test]
fn conflicts_are_those_of_the_monitors_as_given() {
    // B repeats A (same folders); C repeats B (same extensions and source) but
    // not A. C is disabled although B is disabled too.
    let mut c = config_with(vec![
        monitor(true, &["a"], "/in", "/out1"),
        monitor(true, &["b"], "/in", "/out1"),
        monitor(true, &["b"], "/in", "/out2"),
    ]);
    c.check_for_duplicate_monitors();
    assert_eq!(enabled_flags(&c), vec![true, false, false]);
}

#[test]
fn duplicate_check_keeps_other_fields_and_is_idempotent() {
    let mut c = config_with(vec![
        monitor(true, &["mkv"], "/in", "/out"),
        monitor(true, &["mkv"], "/in", "/out"),
        monitor(true, &["mkv"], "/in", "/out"),
    ]);
    c.history_config.filepath = "/h.json".to_string();
    c.check_for_duplicate_monitors();
    assert_eq!(enabled_flags(&c), vec![true, false, false]);
    let before = c.file_handling_config.folder_monitors[1].duplicate();
    c.check_for_duplicate_monitors();
    assert_eq!(enabled_flags(&c), vec![true, false, false]);
    assert!(c.file_handling_config.folder_monitors[1].same_as(&before));
    assert_eq!(c.file_handling_config.folder_monitors[2].source_folder, "/in");
    assert_eq!(c.history_config.filepath, "/h.json");
}

#[test]
fn parsed_configuration_is_kept() {
    let parsed = config_with(vec![monitor(true, &["mkv"], "/in", "/out")]);
    let plan = Config::plan_load("/cfg/config.json", ConfigSource::Parsed(parsed));
    assert!(matches!(plan.action, ConfigFileAction::Keep));
    assert_eq!(plan.config.file_handling_config.folder_monitors.len(), 1);
}

#[test]
fn missing_configuration_is_created() {
    let plan = Config::plan_load("/cfg/config.json", ConfigSource::Missing);
    assert!(matches!(plan.action, ConfigFileAction::Create));
    assert_eq!(plan.config.file_handling_config.move_attempts, 5);
}

#[test]
fn broken_configuration_is_backed_up() {
    for source in [ConfigSource::Invalid, ConfigSource::Unreadable] {
        let plan = Config::plan_load("/cfg/config.json", source);
        match plan.action {
            ConfigFileAction::BackupAndRecreate(p) => assert_eq!(p, "/cfg/config.json.bak"),
            _ => panic!("expected a backup"),
        }
        assert!(plan.config.file_handling_config.part_temp_file_check);
    }
}

#[test]
fn relative_history_path_falls_back_to_data_dir() {
    let mut c = Config::default();
    assert_eq!(c.history_fallback("/data"), Some("/data/history.json".to_string()));
    c.history_config.filepath = "logs/history.json".to_string();
    assert_eq!(c.history_fallback("/data"), Some("/data/history.json".to_string()));
    c.history_config.filepath = "/var/history.json".to_string();
    assert_eq!(c.history_fallback("/data"), None);
}

#[test]
fn replacing_with_equal_config_reports_no_change() {
    let mut f = FileHandlingConfig::default();
    let mut updated = FileHandlingConfig::default();
    updated.folder_monitors.push(monitor(true, &["mkv"], "/in", "/out"));
    let mut same = FileHandlingConfig::default();
    same.folder_monitors.push(monitor(true, &["mkv"], "/in", "/out"));
    assert!(f.replace_if_changed(updated));
    assert_eq!(f.folder_monitors.len(), 1);
    assert!(!f.replace_if_changed(same));
    let mut h = HistoryConfig::default();
    let mut h2 = HistoryConfig::default();
    h2.max_size_mb = 7;
    assert!(h.replace_if_changed(h2));
    assert_eq!(h.max_size_mb, 7);
    let mut h3 = HistoryConfig::default();
    h3.max_size_mb = 7;
    assert!(!h.replace_if_changed(h3));
}

#[test]
fn watch_targets_are_enabled_monitors_in_order() {
    let mut f = FileHandlingConfig::default();
    f.folder_monitors = vec![
        monitor(true, &["a"], "/s1", "/d1"),
        monitor(false, &["b"], "/s2", "/d2"),
        monitor(true, &["c"], "/s3", "/d3"),
    ];
    let t = f.watch_targets();
    assert_eq!(t.len(), 2);
    assert_eq!(t[0].source_folder, "/s1");
    assert_eq!(t[0].destination_folder, "/d1");
    assert_eq!(t[1].source_folder, "/s3");
    assert_eq!(t[1].destination_folder, "/d3");
}

fn repair(mut c: Config, data_dir: &str) -> Config {
    if let Some(p) = c.history_fallback(data_dir) {
        c.history_config.filepath = p;
    }
    c.check_for_duplicate_monitors();
    c
}

#[test]
fn second_load_of_written_config_changes_nothing() {
    let mut parsed = config_with(vec![
        monitor(true, &["mkv"], "/in", "/out"),
        monitor(true, &["mkv"], "/in", "/out"),
    ]);
    parsed.history_config.filepath = "relative.json".to_string();
    let first = Config::plan_load("/cfg/config.json", ConfigSource::Parsed(parsed));
    let first = repair(first.config, "/data");
    let copy = Config {
        file_handling_config: FileHandlingConfig {
            part_temp_file_check: first.file_handling_config.part_temp_file_check,
            folder_monitors: first.file_handling_config.folder_monitors.iter().map(|m| m.duplicate()).collect(),
            move_attempts: first.file_handling_config.move_attempts,
            check_interval: first.file_handling_config.check_interval.duplicate(),
            file_timeout: first.file_handling_config.file_timeout.duplicate(),
        },
        history_config: first.history_config.duplicate(),
    };
    let second = Config::plan_load("/cfg/config.json", ConfigSource::Parsed(copy));
    assert!(matches!(second.action, ConfigFileAction::Keep));
    let second = repair(second.config, "/data");
    assert!(second.file_handling_config.same_as(&first.file_handling_config));
    assert!(second.history_config.same_as(&first.history_config));
    assert_eq!(second.history_config.filepath, "/data/history.json");
}

#[test]
fn repair_sets_history_path_only_when_folder_created() {
    let mut c = config_with(vec![
        monitor(true, &["mkv"], "/in", "/out"),
        monitor(true, &["mkv"], "/in", "/out"),
    ]);
    c.repair("/data", false);
    assert_eq!(c.history_config.filepath, "");
    assert_eq!(enabled_flags(&c), vec![true, false]);
    c.repair("/data", true);
    assert_eq!(c.history_config.filepath, "/data/history.json");
    c.history_config.filepath = "/abs/h.json".to_string();
    c.repair("/data", true);
    assert_eq!(c.history_config.filepath, "/abs/h.json");
}
