//! The history of what the service did: the events it records and the rules by
//! which the history file is reopened and set aside.
use vstd::prelude::*;

use crate::config::{HistoryConfig, HistoryConfigView};
use crate::paths::{same_path, spec_components, spec_same_path, spec_with_extension, with_extension};
use crate::time_span::TimeSpan;
use std::sync::{Arc, RwLock};

verus! {

/// `std::sync::RwLock`, which guards the history configuration that the writer
/// shares with the configuration monitor. Its contents are not modelled.
#[verifier::external_type_specification]
#[verifier::external_body]
#[verifier::reject_recursive_types(T)]
pub struct ExRwLock<T: ?Sized>(std::sync::RwLock<T>);

/// `std::sync::RwLock::new`: creates an unlocked lock around `t`. Nothing is
/// claimed of the result, whose contents are not modelled.
pub assume_specification<T>[ std::sync::RwLock::<T>::new ](t: T) -> RwLock<T>;

/// The extension that a full history file is renamed to.
pub const HISTORY_BACKUP_EXTENSION: &'static str = "bak";

/// The file an event is about, and where it went.
#[derive(Debug)]
pub struct FileEventInfo {
    pub filepath: String,
    pub destination_path: String,
}

impl Default for FileEventInfo {
    /// Two empty paths.
    fn default() -> (r: Self)
        ensures
            r.filepath@ == Seq::<char>::empty(),
            r.destination_path@ == Seq::<char>::empty(),
    {
        FileEventInfo { filepath: String::new(), destination_path: String::new() }
    }
}

/// Something that happened, as it is written to the history.
#[derive(Debug)]
pub enum EventType {
    /// A new file appeared in a watched folder.
    FileDetected(FileEventInfo),
    /// A file was moved or copied to its destination.
    FileMoved(FileEventInfo),
    /// A source folder was missing.
    SouceFolderMissing(String),
    /// A source file was missing.
    SourceFileMissing(String),
    /// A part of the configuration changed.
    ConfigUpdated(String),
}

impl EventType {
    /// The event for a file that appeared: its name, and no destination yet.
    pub fn file_detected(filename: String) -> (r: EventType)
        ensures
            r matches EventType::FileDetected(info) && info.filepath@ == filename@
                && info.destination_path@ == Seq::<char>::empty(),
    {
        EventType::FileDetected(FileEventInfo { filepath: filename, destination_path: String::new() })
    }
}

/// Holds the history configuration that the history is written by, behind the
/// lock it shares with the configuration monitor.
#[derive(Debug)]
pub struct HistoryManager {
    pub config: Arc<RwLock<HistoryConfig>>,
}

impl Default for HistoryManager {
    /// A manager with a lock of its own around the default history configuration.
    /// What the lock holds is not stated, as the lock's contents are not modelled.
    fn default() -> (r: Self) {
        HistoryManager { config: Arc::new(RwLock::new(HistoryConfig::default())) }
    }
}

/// The abstract value of a history writer's state.
pub struct HistoryStateView {
    pub filepath: Seq<char>,
    pub max_size_mb: usize,
    pub flush_interval: nat,
    pub recreate_file: bool,
}

/// What the history writer goes by between two flushes: the file, its size limit,
/// the flush interval, and whether the file must be reopened at the next flush.
#[derive(Debug)]
pub struct HistoryState {
    pub filepath: String,
    pub max_size_mb: usize,
    pub flush_interval: TimeSpan,
    pub recreate_file: bool,
}

impl View for HistoryState {
    type V = HistoryStateView;

    open spec fn view(&self) -> HistoryStateView {
        HistoryStateView {
            filepath: self.filepath@,
            max_size_mb: self.max_size_mb,
            flush_interval: self.flush_interval@,
            recreate_file: self.recreate_file,
        }
    }
}

/// A megabyte, in bytes.
pub const BYTES_PER_MB: u64 = 1_048_576u64;

/// Whether a history file of `file_len` bytes has reached the size limit.
pub open spec fn spec_needs_rotation(max_size_mb: usize, file_len: u64) -> bool {
    file_len >= max_size_mb * 1_048_576
}

/// The writer's state after a new history configuration: the new file, limit and
/// interval, and a reopen at the next flush exactly when the new file is not the
/// same path as the one in use.
pub open spec fn spec_apply_config(s: HistoryStateView, c: HistoryConfigView) -> HistoryStateView {
    HistoryStateView {
        filepath: c.filepath,
        max_size_mb: c.max_size_mb,
        flush_interval: c.flush_interval,
        recreate_file: !spec_same_path(s.filepath, c.filepath),
    }
}

/// Where the file is set aside at the end of a flush that found it `file_len`
/// bytes long: its path with the extension `bak` when the size limit is reached.
pub open spec fn spec_rotation_after_flush(s: HistoryStateView, file_len: u64) -> Option<
    Seq<char>,
> {
    if spec_needs_rotation(s.max_size_mb, file_len) {
        Some(spec_with_extension(s.filepath, HISTORY_BACKUP_EXTENSION@))
    } else {
        None
    }
}

/// After a configuration update, the next flush reopens the file exactly when the
/// new path is not the same path as the old one, and from then on the file goes
/// by the new path and is set aside at the new size limit.
pub proof fn lemma_update_then_flush(s: HistoryStateView, c: HistoryConfigView, file_len: u64)
    ensures
        spec_apply_config(s, c).recreate_file == !spec_same_path(s.filepath, c.filepath),
        spec_apply_config(s, c).filepath == c.filepath,
        spec_rotation_after_flush(
            HistoryStateView { recreate_file: false, ..spec_apply_config(s, c) },
            file_len,
        ) == if file_len >= c.max_size_mb * 1_048_576 {
            Some(spec_with_extension(c.filepath, HISTORY_BACKUP_EXTENSION@))
        } else {
            None
        },
{
}

/// Taking a new history configuration: from then on the writer goes by the new
/// file, the new size limit and the new flush interval, and it reopens its file
/// exactly when the new file's components differ from the old file's.
pub proof fn lemma_apply_config_takes_new_values(s: HistoryStateView, c: HistoryConfigView)
    ensures
        spec_apply_config(s, c).filepath == c.filepath,
        spec_apply_config(s, c).max_size_mb == c.max_size_mb,
        spec_apply_config(s, c).flush_interval == c.flush_interval,
        spec_apply_config(s, c).recreate_file <==> spec_components(s.filepath) != spec_components(
            c.filepath,
        ),
{
}

/// At the end of a flush the file is set aside exactly when it has reached
/// `max_size_mb` megabytes, and then to its path with the extension `bak`.
pub proof fn lemma_rotation_at_size_limit(s: HistoryStateView, file_len: u64)
    ensures
        spec_rotation_after_flush(s, file_len) is Some <==> file_len >= s.max_size_mb * 1_048_576,
        spec_rotation_after_flush(s, file_len) matches Some(p) ==> p == spec_with_extension(
            s.filepath,
            seq!['b', 'a', 'k'],
        ),
{
    reveal_strlit("bak");
    assert(HISTORY_BACKUP_EXTENSION@ =~= seq!['b', 'a', 'k']);
}

impl HistoryManager {
    /// The manager, now sharing the lock `config`.
    pub fn init(self, config: Arc<RwLock<HistoryConfig>>) -> (r: Self)
        ensures
            r.config == config,
    {
        Self { config }
    }
}

impl HistoryState {
    /// The state the writer starts in: the file, limit and interval of `config`,
    /// with nothing to reopen.
    pub fn from_config(config: &HistoryConfig) -> (r: HistoryState)
        ensures
            r@ == (HistoryStateView {
                filepath: config@.filepath,
                max_size_mb: config@.max_size_mb,
                flush_interval: config@.flush_interval,
                recreate_file: false,
            }),
    {
        HistoryState {
            filepath: config.filepath.clone(),
            max_size_mb: config.max_size_mb,
            flush_interval: config.flush_interval.duplicate(),
            recreate_file: false,
        }
    }

    /// Takes a new history configuration: the file must be reopened at the next
    /// flush exactly when its path is not the same path, component by component,
    /// as the one in use.
    pub fn apply_config(&mut self, config: &HistoryConfig)
        ensures
            final(self)@ == spec_apply_config(old(self)@, config@),
    {
        self.recreate_file = !same_path(self.filepath.as_str(), config.filepath.as_str());
        self.filepath = config.filepath.clone();
        self.max_size_mb = config.max_size_mb;
        self.flush_interval = config.flush_interval.duplicate();
    }

    /// At a flush: whether the file must be reopened; the request is then cleared.
    pub fn take_recreate(&mut self) -> (r: bool)
        ensures
            r == old(self)@.recreate_file,
            final(self)@ == (HistoryStateView { recreate_file: false, ..old(self)@ }),
    {
        let r = self.recreate_file;
        self.recreate_file = false;
        r
    }

    /// Whether a history file of `file_len` bytes has reached the size limit and
    /// must be set aside.
    pub fn needs_rotation(&self, file_len: u64) -> (r: bool)
        requires
            self.max_size_mb * 1_048_576 <= u64::MAX,
        ensures
            r == spec_needs_rotation(self.max_size_mb, file_len),
    {
        let max_size_bytes: u64 = (self.max_size_mb as u64) * BYTES_PER_MB;
        file_len >= max_size_bytes
    }

    /// The last step of a flush, once the file has been flushed and, if
    /// `take_recreate` asked for it, reopened: given the length of the file as it
    /// now is, the path to set it aside to when it has reached the size limit, or
    /// nothing when it may keep growing.
    pub fn rotation_after_flush(&self, file_len: u64) -> (r: Option<String>)
        requires
            self.max_size_mb * 1_048_576 <= u64::MAX,
        ensures
            match r {
                Some(p) => spec_rotation_after_flush(self@, file_len) == Some(p@),
                None => spec_rotation_after_flush(self@, file_len) is None,
            },
    {
        if self.needs_rotation(file_len) {
            Some(self.rotation_path())
        } else {
            None
        }
    }

    /// Where a full history file is set aside: its path with the extension `bak`.
    pub fn rotation_path(&self) -> (r: String)
        ensures
            r@ == spec_with_extension(self.filepath@, HISTORY_BACKUP_EXTENSION@),
    {
        with_extension(self.filepath.as_str(), HISTORY_BACKUP_EXTENSION)
    }
}

} // verus!
