//! The service's configuration: file handling and history, their defaults, what
//! is done when the configuration file is loaded, and the rule that disables
//! folder monitors which repeat an earlier one.
use vstd::prelude::*;

pub mod file_handling_config;

use crate::config::file_handling_config::{
    FileHandlingConfig, FileHandlingConfigView, FolderMonitorView, monitors_view, same_texts,
};
use crate::paths::{
    is_absolute, path_join, same_path, spec_components, spec_is_absolute, spec_join, spec_same_path,
    spec_with_extension, with_extension,
};
use crate::time_span::TimeSpan;

verus! {

/// The name of the configuration file inside the configuration folder.
pub const CONFIG_FILENAME: &'static str = "config.json";

/// The name of the history file inside the data folder, where the configuration
/// names no usable one.
pub const HISTORY_FILENAME: &'static str = "history.json";

/// The extension that a configuration file which could not be used is renamed to.
pub const CONFIG_BACKUP_EXTENSION: &'static str = "json.bak";

/// The abstract value of a history configuration.
pub struct HistoryConfigView {
    pub filepath: Seq<char>,
    pub max_size_mb: usize,
    pub flush_interval: nat,
}

/// Two history configurations are equal when their files are the same path,
/// compared component by component, and their limits and intervals are equal.
pub open spec fn spec_same_history(a: HistoryConfigView, b: HistoryConfigView) -> bool {
    spec_same_path(a.filepath, b.filepath) && a.max_size_mb == b.max_size_mb
        && a.flush_interval == b.flush_interval
}

/// Two history configurations are the same exactly when their files have the same
/// components and their size limits and flush intervals are equal; in particular
/// configurations that differ in the flush interval alone are not the same.
pub proof fn lemma_same_history_compares_every_setting(a: HistoryConfigView, b: HistoryConfigView)
    ensures
        spec_same_history(a, b) ==> a.max_size_mb == b.max_size_mb && a.flush_interval
            == b.flush_interval && spec_components(a.filepath) == spec_components(b.filepath),
        spec_components(a.filepath) == spec_components(b.filepath) && a.max_size_mb
            == b.max_size_mb && a.flush_interval == b.flush_interval ==> spec_same_history(a, b),
        a.flush_interval != b.flush_interval ==> !spec_same_history(a, b),
        a == b ==> spec_same_history(a, b),
{
}

/// Where the history of events is written, how large it may grow before it is
/// set aside, and how often it is flushed.
#[derive(Debug)]
pub struct HistoryConfig {
    pub filepath: String,
    pub max_size_mb: usize,
    pub flush_interval: TimeSpan,
}

impl View for HistoryConfig {
    type V = HistoryConfigView;

    open spec fn view(&self) -> HistoryConfigView {
        HistoryConfigView {
            filepath: self.filepath@,
            max_size_mb: self.max_size_mb,
            flush_interval: self.flush_interval@,
        }
    }
}

impl Default for HistoryConfig {
    /// An empty path, no size and an empty interval.
    fn default() -> (r: Self)
        ensures
            r@ == (HistoryConfigView { filepath: Seq::empty(), max_size_mb: 0, flush_interval: 0 }),
    {
        HistoryConfig { filepath: String::new(), max_size_mb: 0, flush_interval: TimeSpan::zero() }
    }
}

impl HistoryConfig {
    /// Five megabytes, unless the configuration says otherwise.
    pub fn max_size_mb_default() -> (r: usize)
        ensures
            r == 5,
    {
        5
    }

    /// One second between flushes, unless the configuration says otherwise.
    pub fn flush_interval_default() -> (r: TimeSpan)
        ensures
            r@ == 1_000_000_000,
    {
        TimeSpan::from_secs(1)
    }

    /// Whether two history configurations are equal: the same file as a path
    /// (component by component), the same limit and the same interval.
    pub fn same_as(&self, other: &HistoryConfig) -> (r: bool)
        ensures
            r == spec_same_history(self@, other@),
    {
        same_path(self.filepath.as_str(), other.filepath.as_str()) && self.max_size_mb == other.max_size_mb
            && self.flush_interval.same_as(&other.flush_interval)
    }

    /// A copy of the history configuration.
    pub fn duplicate(&self) -> (r: HistoryConfig)
        ensures
            r@ == self@,
    {
        HistoryConfig {
            filepath: self.filepath.clone(),
            max_size_mb: self.max_size_mb,
            flush_interval: self.flush_interval.duplicate(),
        }
    }

    /// Puts `updated` in place of the configuration where it differs from it (see
    /// `spec_same_history`), and tells whether it did. An equal configuration
    /// leaves the present one as it is, path text included. A differing size limit
    /// or flush interval is always a change, and afterwards both are those of
    /// `updated`.
    pub fn replace_if_changed(&mut self, updated: HistoryConfig) -> (changed: bool)
        ensures
            changed == !spec_same_history(old(self)@, updated@),
            final(self)@ == if changed {
                updated@
            } else {
                old(self)@
            },
            old(self)@.max_size_mb != updated@.max_size_mb || old(self)@.flush_interval
                != updated@.flush_interval ==> changed,
            final(self)@.max_size_mb == updated@.max_size_mb,
            final(self)@.flush_interval == updated@.flush_interval,
    {
        let changed = !self.same_as(&updated);
        if changed {
            *self = updated;
        }
        changed
    }
}

/// The abstract value of a configuration.
pub struct ConfigView {
    pub file_handling_config: FileHandlingConfigView,
    pub history_config: HistoryConfigView,
}

/// The whole configuration of the service.
#[derive(Debug)]
pub struct Config {
    pub file_handling_config: FileHandlingConfig,
    pub history_config: HistoryConfig,
}

impl View for Config {
    type V = ConfigView;

    open spec fn view(&self) -> ConfigView {
        ConfigView {
            file_handling_config: self.file_handling_config@,
            history_config: self.history_config@,
        }
    }
}

/// The configuration used where the file gives none.
pub open spec fn spec_default_config() -> ConfigView {
    ConfigView {
        file_handling_config: FileHandlingConfigView {
            part_temp_file_check: true,
            folder_monitors: Seq::empty(),
            move_attempts: 5,
            check_interval: 1_000_000_000,
            file_timeout: 5_000_000_000,
        },
        history_config: HistoryConfigView {
            filepath: Seq::empty(),
            max_size_mb: 5,
            flush_interval: 1_000_000_000,
        },
    }
}

impl Default for Config {
    /// Part files checked, no monitors, five attempts, a check every second, five
    /// seconds of quiet, and a five-megabyte history flushed every second at a path
    /// yet to be chosen.
    fn default() -> (r: Self)
        ensures
            r@ == spec_default_config(),
    {
        let r = Config {
            file_handling_config: FileHandlingConfig {
                part_temp_file_check: true,
                folder_monitors: Vec::new(),
                move_attempts: 5u8,
                check_interval: TimeSpan::from_millis(1000),
                file_timeout: TimeSpan::from_millis(5000),
            },
            history_config: HistoryConfig {
                filepath: String::new(),
                max_size_mb: 5,
                flush_interval: TimeSpan::from_millis(1000),
            },
        };
        proof {
            assert(monitors_view(r.file_handling_config.folder_monitors@) =~= Seq::<
                FolderMonitorView,
            >::empty());
        }
        r
    }
}

/// Two enabled monitors that watch the same source folder and either send to the
/// same destination or take the same extensions.
pub open spec fn monitors_conflict(a: FolderMonitorView, b: FolderMonitorView) -> bool {
    &&& a.enabled && b.enabled
    &&& (a.source_folder == b.source_folder && a.destination_folder == b.destination_folder) || (
    a.extensions == b.extensions && a.source_folder == b.source_folder)
}

/// The monitor at `j` conflicts with one before it.
pub open spec fn is_duplicate(ms: Seq<FolderMonitorView>, j: int) -> bool {
    exists|i: int| 0 <= i < j && #[trigger] monitors_conflict(ms[i], ms[j])
}

/// The monitor, disabled.
pub open spec fn disabled(m: FolderMonitorView) -> FolderMonitorView {
    FolderMonitorView { enabled: false, ..m }
}

/// The monitors, with each one that conflicts with an earlier one disabled. The
/// conflicts are those among the monitors as they were given.
pub open spec fn without_duplicates(ms: Seq<FolderMonitorView>) -> Seq<FolderMonitorView> {
    Seq::new(
        ms.len(),
        |j: int|
            if is_duplicate(ms, j) {
                disabled(ms[j])
            } else {
                ms[j]
            },
    )
}

/// After duplicates are disabled, no two enabled monitors conflict.
pub proof fn lemma_no_conflict_remains(ms: Seq<FolderMonitorView>)
    ensures
        forall|i: int, j: int|
            0 <= i < j < ms.len() ==> !monitors_conflict(
                #[trigger] without_duplicates(ms)[i],
                #[trigger] without_duplicates(ms)[j],
            ),
{
    let w = without_duplicates(ms);
    assert forall|i: int, j: int| 0 <= i < j < ms.len() implies !monitors_conflict(
        #[trigger] w[i],
        #[trigger] w[j],
    ) by {
        if monitors_conflict(w[i], w[j]) {
            assert(!is_duplicate(ms, i));
            assert(!is_duplicate(ms, j));
            assert(monitors_conflict(ms[i], ms[j]));
            assert(is_duplicate(ms, j));
        }
    }
}

/// Disabling duplicates a second time changes nothing.
pub proof fn lemma_without_duplicates_idempotent(ms: Seq<FolderMonitorView>)
    ensures
        without_duplicates(without_duplicates(ms)) == without_duplicates(ms),
{
    let w = without_duplicates(ms);
    lemma_no_conflict_remains(ms);
    assert forall|j: int| 0 <= j < w.len() implies #[trigger] without_duplicates(w)[j] == w[j] by {
        if is_duplicate(w, j) {
            let i = choose|i: int| 0 <= i < j && #[trigger] monitors_conflict(w[i], w[j]);
            assert(monitors_conflict(w[i], w[j]));
        }
    }
    assert(without_duplicates(w) =~= w);
}

/// Disabling duplicates only turns monitors off: every monitor keeps its place and
/// its other fields, none is turned on, and the first one is never turned off.
pub proof fn lemma_without_duplicates_only_disables(ms: Seq<FolderMonitorView>)
    ensures
        without_duplicates(ms).len() == ms.len(),
        forall|j: int|
            0 <= j < ms.len() ==> #[trigger] without_duplicates(ms)[j] == ms[j]
                || without_duplicates(ms)[j] == disabled(ms[j]),
        forall|j: int|
            0 <= j < ms.len() && #[trigger] without_duplicates(ms)[j].enabled ==> ms[j].enabled,
        ms.len() > 0 ==> without_duplicates(ms)[0] == ms[0],
{
}

/// The configuration that loading starts from: the parsed one, or the default
/// where the file gave none.
pub open spec fn spec_loaded_config(parsed: Option<ConfigView>) -> ConfigView {
    match parsed {
        Some(c) => c,
        None => spec_default_config(),
    }
}

/// The configuration after the repairs made at loading, with the folder of the
/// history file created: a history path that is not absolute is replaced by
/// `history.json` inside `data_dir`, then duplicate monitors are disabled.
pub open spec fn spec_repaired(c: ConfigView, data_dir: Seq<char>) -> ConfigView {
    ConfigView {
        file_handling_config: FileHandlingConfigView {
            folder_monitors: without_duplicates(c.file_handling_config.folder_monitors),
            ..c.file_handling_config
        },
        history_config: if spec_is_absolute(c.history_config.filepath) {
            c.history_config
        } else {
            HistoryConfigView {
                filepath: spec_join(data_dir, HISTORY_FILENAME@),
                ..c.history_config
            }
        },
    }
}

/// The configuration with duplicate monitors disabled and nothing else changed.
pub open spec fn spec_deduplicated(c: ConfigView) -> ConfigView {
    ConfigView {
        file_handling_config: FileHandlingConfigView {
            folder_monitors: without_duplicates(c.file_handling_config.folder_monitors),
            ..c.file_handling_config
        },
        ..c
    }
}

/// Loading again the configuration that a load wrote back gives the same
/// configuration: whatever the file first held, the repaired result, read back
/// as a parsed configuration and repaired again, is unchanged.
pub proof fn lemma_second_load_changes_nothing(parsed: Option<ConfigView>, data_dir: Seq<char>)
    ensures
        ({
            let first = spec_repaired(spec_loaded_config(parsed), data_dir);
            spec_repaired(spec_loaded_config(Some(first)), data_dir) == first
        }),
{
    let first = spec_repaired(spec_loaded_config(parsed), data_dir);
    lemma_without_duplicates_idempotent(
        spec_loaded_config(parsed).file_handling_config.folder_monitors,
    );
    assert(spec_repaired(first, data_dir).history_config == first.history_config);
    assert(spec_repaired(first, data_dir).file_handling_config == first.file_handling_config);
}

/// Two monitors conflict exactly when both are enabled, they watch the same source
/// folder, and they either send to the same destination or take extension lists
/// that are equal as whole lists (same length, same items in order).
pub proof fn lemma_conflict_needs_whole_equal_lists(a: FolderMonitorView, b: FolderMonitorView)
    ensures
        monitors_conflict(a, b) ==> a.enabled && b.enabled && a.source_folder == b.source_folder
            && (a.destination_folder == b.destination_folder || (a.extensions.len()
            == b.extensions.len() && forall|i: int|
            0 <= i < a.extensions.len() ==> a.extensions[i] == b.extensions[i])),
        a.enabled && b.enabled && a.source_folder == b.source_folder && (a.destination_folder
            == b.destination_folder || a.extensions == b.extensions) ==> monitors_conflict(a, b),
{
}

/// What the duplicate check does to each monitor: the monitor at `j` stays enabled
/// exactly when it was enabled and no earlier enabled monitor watches its source
/// folder with its destination or with an equal extension list; every other
/// field is kept.
pub proof fn lemma_duplicate_check_outcome(ms: Seq<FolderMonitorView>, j: int)
    requires
        0 <= j < ms.len(),
    ensures
        without_duplicates(ms).len() == ms.len(),
        without_duplicates(ms)[j].enabled <==> ms[j].enabled && forall|i: int|
            0 <= i < j ==> !(ms[i].enabled && ms[i].source_folder == ms[j].source_folder && (
            ms[i].destination_folder == ms[j].destination_folder || ms[i].extensions
            == ms[j].extensions)),
        without_duplicates(ms)[j].file_operation_type == ms[j].file_operation_type,
        without_duplicates(ms)[j].extensions == ms[j].extensions,
        without_duplicates(ms)[j].source_folder == ms[j].source_folder,
        without_duplicates(ms)[j].destination_folder == ms[j].destination_folder,
{
    let w = without_duplicates(ms);
    if ms[j].enabled && !w[j].enabled {
        let i = choose|i: int| 0 <= i < j && #[trigger] monitors_conflict(ms[i], ms[j]);
        assert(monitors_conflict(ms[i], ms[j]));
    }
    if w[j].enabled {
        assert forall|i: int| 0 <= i < j implies !(ms[i].enabled && ms[i].source_folder
            == ms[j].source_folder && (ms[i].destination_folder == ms[j].destination_folder
            || ms[i].extensions == ms[j].extensions)) by {
            if ms[i].enabled && ms[i].source_folder == ms[j].source_folder && (
            ms[i].destination_folder == ms[j].destination_folder || ms[i].extensions
                == ms[j].extensions) {
                assert(monitors_conflict(ms[i], ms[j]));
            }
        }
    }
}

/// What the configuration file held when it was read.
pub enum ConfigSource {
    /// There was no file.
    Missing,
    /// The file could not be read.
    Unreadable,
    /// The file held no valid configuration.
    Invalid,
    /// The file held this configuration.
    Parsed(Config),
}

/// What is to be done with the configuration file.
pub enum ConfigFileAction {
    /// Create an empty file at the configuration path.
    Create,
    /// Rename the file to this path, then create an empty file in its place.
    BackupAndRecreate(String),
    /// Leave the file as it is.
    Keep,
}

/// The configuration to use, and what to do with the file it came from.
pub struct LoadPlan {
    pub config: Config,
    pub action: ConfigFileAction,
}

impl Config {
    /// Decides the configuration from what the file at `config_path` held: a parsed
    /// configuration is kept; a missing file is created and the default used; a
    /// file that could not be read or parsed is renamed to the `json.bak` backup
    /// path, recreated, and the default used.
    pub fn plan_load(config_path: &str, source: ConfigSource) -> (r: LoadPlan)
        ensures
            match source {
                ConfigSource::Parsed(c) => r.config@ == c@ && r.action is Keep,
                ConfigSource::Missing => r.config@ == spec_default_config() && r.action is Create,
                _ => r.config@ == spec_default_config() && match r.action {
                    ConfigFileAction::BackupAndRecreate(p) => p@ == spec_with_extension(
                        config_path@,
                        CONFIG_BACKUP_EXTENSION@,
                    ),
                    _ => false,
                },
            },
    {
        match source {
            ConfigSource::Parsed(c) => LoadPlan { config: c, action: ConfigFileAction::Keep },
            ConfigSource::Missing => LoadPlan {
                config: Config::default(),
                action: ConfigFileAction::Create,
            },
            _ => {
                let backup = with_extension(config_path, CONFIG_BACKUP_EXTENSION);
                LoadPlan {
                    config: Config::default(),
                    action: ConfigFileAction::BackupAndRecreate(backup),
                }
            },
        }
    }

    /// Where the history should be written instead, if the configured path is
    /// empty or relative: `history.json` inside `data_dir`.
    pub fn history_fallback(&self, data_dir: &str) -> (r: Option<String>)
        ensures
            r is Some <==> !spec_is_absolute(self.history_config.filepath@),
            r matches Some(p) ==> p@ == spec_join(data_dir@, HISTORY_FILENAME@),
    {
        if is_absolute(self.history_config.filepath.as_str()) {
            None
        } else {
            Some(path_join(data_dir, HISTORY_FILENAME))
        }
    }

    /// The repairs made at loading: where the history path is not absolute and
    /// the folder for `history.json` inside `data_dir` could be created, that file
    /// becomes the history path; then duplicate monitors are disabled.
    pub fn repair(&mut self, data_dir: &str, history_dir_created: bool)
        ensures
            final(self)@ == if history_dir_created {
                spec_repaired(old(self)@, data_dir@)
            } else {
                spec_deduplicated(old(self)@)
            },
    {
        if history_dir_created {
            if let Some(history_filepath) = self.history_fallback(data_dir) {
                self.history_config.filepath = history_filepath;
            }
        }
        self.check_for_duplicate_monitors();
    }

    /// Disables every enabled folder monitor that watches the same source folder as
    /// an earlier enabled one and either sends to the same destination or takes the
    /// same extensions. Nothing else changes.
    pub fn check_for_duplicate_monitors(&mut self)
        ensures
            final(self)@ == (ConfigView {
                file_handling_config: FileHandlingConfigView {
                    folder_monitors: without_duplicates(
                        old(self)@.file_handling_config.folder_monitors,
                    ),
                    ..old(self)@.file_handling_config
                },
                ..old(self)@
            }),
    {
        let ghost ms = old(self)@.file_handling_config.folder_monitors;
        let len = self.file_handling_config.folder_monitors.len();
        let mut duplicates: Vec<usize> = Vec::new();
        for i in 0..len
            invariant
                len == self.file_handling_config.folder_monitors.len(),
                ms == monitors_view(self.file_handling_config.folder_monitors@),
                ms.len() == len,
                forall|k: int|
                    0 <= k < duplicates.len() ==> duplicates@[k] < len && is_duplicate(
                        ms,
                        #[trigger] duplicates@[k] as int,
                    ),
                forall|i2: int, j: int|
                    0 <= i2 < i && i2 < j < len && #[trigger] monitors_conflict(ms[i2], ms[j])
                        ==> duplicates@.contains(j as usize),
        {
            for j in (i + 1)..len
                invariant
                    i < len,
                    len == self.file_handling_config.folder_monitors.len(),
                    ms == monitors_view(self.file_handling_config.folder_monitors@),
                    ms.len() == len,
                    forall|k: int|
                        0 <= k < duplicates.len() ==> duplicates@[k] < len && is_duplicate(
                            ms,
                            #[trigger] duplicates@[k] as int,
                        ),
                    forall|i2: int, j2: int|
                        0 <= i2 < i && i2 < j2 < len && #[trigger] monitors_conflict(
                            ms[i2],
                            ms[j2],
                        ) ==> duplicates@.contains(j2 as usize),
                    forall|j2: int|
                        i < j2 < j && #[trigger] monitors_conflict(ms[i as int], ms[j2])
                            ==> duplicates@.contains(j2 as usize),
            {
                let a = &self.file_handling_config.folder_monitors[i];
                let b = &self.file_handling_config.folder_monitors[j];
                proof {
                    assert(ms[i as int] == a@);
                    assert(ms[j as int] == b@);
                }
                if a.enabled && b.enabled {
                    let same_source_and_dest = a.source_folder == b.source_folder
                        && a.destination_folder == b.destination_folder;
                    let same_ext_and_source = same_texts(&a.extensions, &b.extensions)
                        && a.source_folder == b.source_folder;
                    if same_source_and_dest || same_ext_and_source {
                        proof {
                            assert(monitors_conflict(ms[i as int], ms[j as int]));
                            assert(is_duplicate(ms, j as int));
                        }
                        let ghost prev = duplicates@;
                        duplicates.push(j);
                        proof {
                            assert(duplicates@[prev.len() as int] == j);
                            assert forall|x: usize| prev.contains(x) implies duplicates@.contains(
                                x,
                            ) by {
                                let idx = choose|idx: int| 0 <= idx < prev.len() && prev[idx] == x;
                                assert(duplicates@[idx] == x);
                            }
                        }
                    }
                }
            }
        }
        let n = duplicates.len();
        for k in 0..n
            invariant
                n == duplicates.len(),
                len == self.file_handling_config.folder_monitors.len(),
                ms.len() == len,
                self.history_config@ == old(self)@.history_config,
                self.file_handling_config.part_temp_file_check == old(
                    self,
                ).file_handling_config.part_temp_file_check,
                self.file_handling_config.move_attempts == old(
                    self,
                ).file_handling_config.move_attempts,
                self.file_handling_config.check_interval@ == old(
                    self,
                ).file_handling_config.check_interval@,
                self.file_handling_config.file_timeout@ == old(
                    self,
                ).file_handling_config.file_timeout@,
                forall|k2: int| 0 <= k2 < n ==> #[trigger] duplicates@[k2] < len,
                forall|j: int|
                    0 <= j < len ==> #[trigger] monitors_view(
                        self.file_handling_config.folder_monitors@,
                    )[j] == if duplicates@.take(k as int).contains(j as usize) {
                        disabled(ms[j])
                    } else {
                        ms[j]
                    },
        {
            let d = duplicates[k];
            let ghost prev = self.file_handling_config.folder_monitors@;
            self.file_handling_config.folder_monitors[d].enabled = false;
            proof {
                let cur = self.file_handling_config.folder_monitors@;
                assert(cur =~= prev.update(d as int, cur[d as int]));
                assert forall|j: int| 0 <= j < len implies #[trigger] monitors_view(cur)[j] == if j
                    == d {
                    disabled(monitors_view(prev)[j])
                } else {
                    monitors_view(prev)[j]
                } by {
                    if j != d {
                        assert(cur[j] == prev[j]);
                    }
                }
                let before = duplicates@.take(k as int);
                let after = duplicates@.take(k + 1);
                assert(after =~= before.push(d));
                assert forall|j: int| 0 <= j < len implies (#[trigger] after.contains(j as usize) <==> (
                before.contains(j as usize) || j == d)) by {
                    if after.contains(j as usize) {
                        let idx = choose|idx: int| 0 <= idx < after.len() && after[idx] == j as usize;
                        if idx < before.len() {
                            assert(before[idx] == j as usize);
                        }
                    }
                    if before.contains(j as usize) {
                        let idx = choose|idx: int| 0 <= idx < before.len() && before[idx] == j as usize;
                        assert(after[idx] == j as usize);
                    }
                    if j == d {
                        assert(after[k as int] == d);
                    }
                }
            }
        }
        proof {
            assert(duplicates@.take(n as int) =~= duplicates@);
            assert forall|j: int| 0 <= j < len implies duplicates@.contains(j as usize)
                == is_duplicate(ms, j) by {
                if is_duplicate(ms, j) {
                    let i2 = choose|i2: int| 0 <= i2 < j && #[trigger] monitors_conflict(ms[i2], ms[j]);
                    assert(monitors_conflict(ms[i2], ms[j]));
                }
                if duplicates@.contains(j as usize) {
                    let k2 = choose|k2: int| 0 <= k2 < n && duplicates@[k2] == j as usize;
                    assert(is_duplicate(ms, duplicates@[k2] as int));
                }
            }
            assert(monitors_view(self.file_handling_config.folder_monitors@) =~= without_duplicates(
                ms,
            ));
        }
    }
}

} // verus!
