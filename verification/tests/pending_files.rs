use file_watcher::config::file_handling_config::{
    FileHandlingConfig, FileOperationType, FolderMonitor,
};
use file_watcher::handle_files::{watched_name, PendingFiles};
use file_watcher::history_manager::EventType;
use file_watcher::time_span::TimeSpan;

fn monitor(enabled: bool, op: FileOperationType, exts: &[&str], src: &str, dst: &str) -> FolderMonitor {
    FolderMonitor {
        enabled,
        file_operation_type: op,
        extensions: exts.iter().map(|e| e.to_string()).collect(),
        source_folder: src.to_string(),
        destination_folder: dst.to_string(),
    }
}

fn config() -> FileHandlingConfig {
    FileHandlingConfig {
        part_temp_file_check: true,
        folder_monitors: vec![
            monitor(true, FileOperationType::Move, &["mkv", "mp4"], "/downloads", "/videos"),
            monitor(true, FileOperationType::Copy, &["mkv", "pdf"], "/downloads", "/docs"),
        ],
        move_attempts: 2,
        check_interval: TimeSpan::from_secs(1),
        file_timeout: TimeSpan::from_secs(3),
    }
}

#[test]
fn part_files_are_followed_under_their_final_name() {
    assert_eq!(watched_name("movie.mkv.part".to_string(), true), "movie.mkv");
    assert_eq!(watched_name("movie.mkv.part".to_string(), false), "movie.mkv.part");
    assert_eq!(watched_name("movie.mkv".to_string(), true), "movie.mkv");
    assert_eq!(watched_name(".part".to_string(), true), ".part");
}

#[test]
fn new_file_starts_waiting_with_first_matching_monitor() {
    let cfg = config();
    let mut files = PendingFiles::new();
    files.update_files_list("movie.mkv".to_string(), true, &cfg);
    let info = files.get(&"movie.mkv".to_string()).expect("file waits");
    assert_eq!(info.file_operation_type, FileOperationType::Move);
    assert_eq!(info.source_folder, "/downloads");
    assert_eq!(info.destination_folder, "/videos");
    assert_eq!(info.attempts, 2);
    assert!(info.timeout.same_as(&TimeSpan::from_secs(3)));
}

#[test]
fn second_monitor_used_when_first_does_not_take_extension() {
    let cfg = config();
    let mut files = PendingFiles::new();
    files.update_files_list("paper.pdf".to_string(), true, &cfg);
    let info = files.get(&"paper.pdf".to_string()).expect("file waits");
    assert_eq!(info.file_operation_type, FileOperationType::Copy);
    assert_eq!(info.destination_folder, "/docs");
}

#[test]
fn unknown_or_missing_extension_is_ignored() {
    let cfg = config();
    let mut files = PendingFiles::new();
    files.update_files_list("notes.txt".to_string(), true, &cfg);
    files.update_files_list("Makefile".to_string(), true, &cfg);
    assert!(!files.contains(&"notes.txt".to_string()));
    assert!(!files.contains(&"Makefile".to_string()));
}

#[test]
fn disabled_monitors_still_match_extensions() {
    let mut cfg = config();
    cfg.folder_monitors[0].enabled = false;
    let mut files = PendingFiles::new();
    files.update_files_list("clip.mp4".to_string(), true, &cfg);
    assert!(files.contains(&"clip.mp4".to_string()));
}

#[test]
fn second_event_for_same_file_drops_it() {
    let cfg = config();
    let mut files = PendingFiles::new();
    files.update_files_list("movie.mkv".to_string(), true, &cfg);
    assert!(files.contains(&"movie.mkv".to_string()));
    files.update_files_list("movie.mkv".to_string(), true, &cfg);
    assert!(!files.contains(&"movie.mkv".to_string()));
}

#[test]
fn part_file_then_final_file_cancel_out() {
    let cfg = config();
    let mut files = PendingFiles::new();
    files.update_files_list("movie.mkv.part".to_string(), true, &cfg);
    assert!(files.contains(&"movie.mkv".to_string()));
    assert!(!files.contains(&"movie.mkv.part".to_string()));
    files.update_files_list("movie.mkv".to_string(), true, &cfg);
    assert!(!files.contains(&"movie.mkv".to_string()));
}

#[test]
fn tick_reports_files_whose_time_is_up() {
    let cfg = config();
    let mut files = PendingFiles::new();
    files.update_files_list("a.mkv".to_string(), true, &cfg);
    let one = TimeSpan::from_secs(1);
    assert!(files.tick(&one).is_empty());
    files.update_files_list("b.mkv".to_string(), true, &cfg);
    assert!(files.tick(&one).is_empty());
    assert_eq!(files.tick(&one), vec!["a.mkv".to_string()]);
    let mut both = files.tick(&one);
    both.sort();
    assert_eq!(both, vec!["a.mkv".to_string(), "b.mkv".to_string()]);
    let info = files.get(&"a.mkv".to_string()).unwrap();
    assert!(info.timeout.is_zero());
}

#[test]
fn plan_joins_name_to_folders() {
    let cfg = config();
    let mut files = PendingFiles::new();
    files.update_files_list("movie.mkv".to_string(), true, &cfg);
    let plan = files.plan_operation(&"movie.mkv".to_string()).unwrap();
    assert_eq!(plan.file_operation_type, FileOperationType::Move);
    assert_eq!(plan.source_path, "/downloads/movie.mkv");
    assert_eq!(plan.destination_path, "/videos/movie.mkv");
    assert!(files.plan_operation(&"other.mkv".to_string()).is_none());
}

#[test]
fn success_ends_wait_and_reports_move() {
    let cfg = config();
    let mut files = PendingFiles::new();
    files.update_files_list("movie.mkv".to_string(), true, &cfg);
    match files.record_outcome(&"movie.mkv".to_string(), true) {
        Some(EventType::FileMoved(info)) => {
            assert_eq!(info.filepath, "/downloads/movie.mkv");
            assert_eq!(info.destination_path, "/videos/movie.mkv");
        }
        other => panic!("unexpected outcome {:?}", other),
    }
    assert!(!files.contains(&"movie.mkv".to_string()));
}

#[test]
fn failures_use_up_attempts() {
    let cfg = config();
    let mut files = PendingFiles::new();
    let name = "movie.mkv".to_string();
    files.update_files_list(name.clone(), true, &cfg);
    assert!(files.record_outcome(&name, false).is_none());
    assert_eq!(files.get(&name).unwrap().attempts, 1);
    assert!(files.record_outcome(&name, false).is_none());
    assert_eq!(files.get(&name).unwrap().attempts, 0);
    assert!(files.record_outcome(&name, false).is_none());
    assert!(!files.contains(&name));
}

#[test]
fn outcome_for_unknown_file_changes_nothing() {
    let cfg = config();
    let mut files = PendingFiles::new();
    files.update_files_list("movie.mkv".to_string(), true, &cfg);
    assert!(files.record_outcome(&"x.mkv".to_string(), true).is_none());
    assert!(files.contains(&"movie.mkv".to_string()));
}

#[test]
fn file_is_due_once_checks_cover_its_timeout() {
    let mut cfg = config();
    cfg.file_timeout = TimeSpan::from_millis(2500);
    let mut files = PendingFiles::new();
    files.update_files_list("a.mkv".to_string(), true, &cfg);
    let one = TimeSpan::from_secs(1);
    assert!(files.tick(&one).is_empty());
    assert!(files.tick(&one).is_empty());
    assert_eq!(files.tick(&one), vec!["a.mkv".to_string()]);
}

#[test]
fn waiting_files_are_looked_up_as_paths() {
    let cfg = config();
    let mut files = PendingFiles::new();
    files.update_files_list("dir/movie.mkv".to_string(), true, &cfg);
    assert!(files.contains(&"dir//movie.mkv".to_string()));
    assert!(files.contains(&"./dir/movie.mkv".to_string()) == false);
    files.update_files_list("dir/./movie.mkv".to_string(), true, &cfg);
    assert!(!files.contains(&"dir/movie.mkv".to_string()));
}

#[test]
fn plan_joins_the_given_name() {
    let cfg = config();
    let mut files = PendingFiles::new();
    files.update_files_list("movie.mkv".to_string(), true, &cfg);
    let plan = files.plan_operation(&"./movie.mkv".to_string());
    assert!(plan.is_none());
    let plan = files.plan_operation(&"movie.mkv".to_string()).unwrap();
    assert_eq!(plan.source_path, "/downloads/movie.mkv");
}

#[test]
fn tick_gives_names_as_registered() {
    let mut cfg = config();
    cfg.file_timeout = TimeSpan::from_secs(1);
    let mut files = PendingFiles::new();
    files.update_files_list("dir//movie.mkv".to_string(), true, &cfg);
    let due = files.tick(&TimeSpan::from_secs(1));
    assert_eq!(due, vec!["dir//movie.mkv".to_string()]);
    let plan = files.plan_operation(&due[0]).unwrap();
    assert_eq!(plan.source_path, "/downloads/dir//movie.mkv");
}
