//! How files are handled: the folder monitors and the timing of the handling.
use vstd::prelude::*;

use crate::time_span::TimeSpan;

verus! {

/// What is done with a file once it is ready: moved away or copied.
#[derive(Debug, Clone, Copy, PartialEq, Eq, Structural)]
pub enum FileOperationType {
    Move,
    Copy,
}

impl Default for FileOperationType {
    /// Files are moved unless a monitor says otherwise.
    fn default() -> (r: Self)
        ensures
            r == FileOperationType::Move,
    {
        FileOperationType::Move
    }
}

/// The word that names an operation.
pub open spec fn spec_operation_text(op: FileOperationType) -> Seq<char> {
    match op {
        FileOperationType::Move => seq!['m', 'o', 'v', 'e'],
        FileOperationType::Copy => seq!['c', 'o', 'p', 'y'],
    }
}

impl FileOperationType {
    /// The word that names the operation: `move` or `copy`.
    pub fn as_text(&self) -> (r: String)
        ensures
            r@ == spec_operation_text(*self),
    {
        match self {
            FileOperationType::Move => {
                let s = "move";
                proof {
                    reveal_strlit("move");
                }
                String::from_str(s)
            },
            FileOperationType::Copy => {
                let s = "copy";
                proof {
                    reveal_strlit("copy");
                }
                String::from_str(s)
            },
        }
    }
}

/// The abstract value of a folder monitor.
pub struct FolderMonitorView {
    pub enabled: bool,
    pub file_operation_type: FileOperationType,
    pub extensions: Seq<Seq<char>>,
    pub source_folder: Seq<char>,
    pub destination_folder: Seq<char>,
}

/// One rule: files with one of `extensions` that appear in `source_folder` are
/// moved or copied to `destination_folder`.
#[derive(Debug)]
pub struct FolderMonitor {
    pub enabled: bool,
    pub file_operation_type: FileOperationType,
    pub extensions: Vec<String>,
    pub source_folder: String,
    pub destination_folder: String,
}

impl View for FolderMonitor {
    type V = FolderMonitorView;

    open spec fn view(&self) -> FolderMonitorView {
        FolderMonitorView {
            enabled: self.enabled,
            file_operation_type: self.file_operation_type,
            extensions: self.extensions.deep_view(),
            source_folder: self.source_folder@,
            destination_folder: self.destination_folder@,
        }
    }
}

impl Default for FolderMonitor {
    /// A disabled monitor with no extensions and empty folders.
    fn default() -> (r: Self)
        ensures
            r@ == (FolderMonitorView {
                enabled: false,
                file_operation_type: FileOperationType::Move,
                extensions: Seq::empty(),
                source_folder: Seq::empty(),
                destination_folder: Seq::empty(),
            }),
    {
        let r = FolderMonitor {
            enabled: false,
            file_operation_type: FileOperationType::Move,
            extensions: Vec::new(),
            source_folder: String::new(),
            destination_folder: String::new(),
        };
        proof {
            assert(r.extensions.deep_view() =~= Seq::<Seq<char>>::empty());
        }
        r
    }
}

/// Whether two lists of texts are equal, item by item.
pub fn same_texts(a: &Vec<String>, b: &Vec<String>) -> (r: bool)
    ensures
        r == (a.deep_view() == b.deep_view()),
{
    if a.len() != b.len() {
        proof {
            assert(a.deep_view().len() != b.deep_view().len());
        }
        return false;
    }
    let n = a.len();
    for i in 0..n
        invariant
            n == a.len() == b.len(),
            forall|k: int| 0 <= k < i ==> a.deep_view()[k] == b.deep_view()[k],
    {
        if a[i] != b[i] {
            proof {
                assert(a.deep_view()[i as int] != b.deep_view()[i as int]);
            }
            return false;
        }
    }
    proof {
        assert(a.deep_view() =~= b.deep_view());
    }
    true
}

/// A copy of a list of texts.
pub fn copy_texts(a: &Vec<String>) -> (r: Vec<String>)
    ensures
        r.deep_view() == a.deep_view(),
{
    let mut r: Vec<String> = Vec::new();
    let n = a.len();
    for i in 0..n
        invariant
            n == a.len(),
            r.len() == i,
            forall|k: int| 0 <= k < i ==> r.deep_view()[k] == a.deep_view()[k],
    {
        r.push(a[i].clone());
    }
    proof {
        assert(r.deep_view() =~= a.deep_view());
    }
    r
}

impl FolderMonitor {
    /// A monitor is enabled unless its configuration says otherwise.
    pub fn enabled_default() -> (r: bool)
        ensures
            r == true,
    {
        true
    }

    /// Whether two monitors are equal in every field.
    pub fn same_as(&self, other: &FolderMonitor) -> (r: bool)
        ensures
            r == (self@ == other@),
    {
        self.enabled == other.enabled && self.file_operation_type == other.file_operation_type
            && same_texts(&self.extensions, &other.extensions) && self.source_folder
            == other.source_folder && self.destination_folder == other.destination_folder
    }

    /// A copy of the monitor.
    pub fn duplicate(&self) -> (r: FolderMonitor)
        ensures
            r@ == self@,
    {
        FolderMonitor {
            enabled: self.enabled,
            file_operation_type: self.file_operation_type,
            extensions: copy_texts(&self.extensions),
            source_folder: self.source_folder.clone(),
            destination_folder: self.destination_folder.clone(),
        }
    }
}

/// The abstract value of a file handling configuration.
pub struct FileHandlingConfigView {
    pub part_temp_file_check: bool,
    pub folder_monitors: Seq<FolderMonitorView>,
    pub move_attempts: u8,
    pub check_interval: nat,
    pub file_timeout: nat,
}

/// How files are handled: the monitors, how often files are retried, how often
/// pending files are checked and how long a file must stay quiet before it is
/// handled.
#[derive(Debug)]
pub struct FileHandlingConfig {
    pub part_temp_file_check: bool,
    pub folder_monitors: Vec<FolderMonitor>,
    pub move_attempts: u8,
    pub check_interval: TimeSpan,
    pub file_timeout: TimeSpan,
}

/// The views of a list of monitors.
pub open spec fn monitors_view(ms: Seq<FolderMonitor>) -> Seq<FolderMonitorView> {
    ms.map_values(|m: FolderMonitor| m@)
}

impl View for FileHandlingConfig {
    type V = FileHandlingConfigView;

    open spec fn view(&self) -> FileHandlingConfigView {
        FileHandlingConfigView {
            part_temp_file_check: self.part_temp_file_check,
            folder_monitors: monitors_view(self.folder_monitors@),
            move_attempts: self.move_attempts,
            check_interval: self.check_interval@,
            file_timeout: self.file_timeout@,
        }
    }
}

impl Default for FileHandlingConfig {
    /// No monitors, no checks and no attempts; all spans empty.
    fn default() -> (r: Self)
        ensures
            r@ == (FileHandlingConfigView {
                part_temp_file_check: false,
                folder_monitors: Seq::empty(),
                move_attempts: 0,
                check_interval: 0,
                file_timeout: 0,
            }),
    {
        let r = FileHandlingConfig {
            part_temp_file_check: false,
            folder_monitors: Vec::new(),
            move_attempts: 0,
            check_interval: TimeSpan::zero(),
            file_timeout: TimeSpan::zero(),
        };
        proof {
            assert(monitors_view(r.folder_monitors@) =~= Seq::<FolderMonitorView>::empty());
        }
        r
    }
}

impl FileHandlingConfig {
    /// Files ending in `.part` are taken for the file without that suffix, unless
    /// the configuration says otherwise.
    pub fn part_temp_file_check_default() -> (r: bool)
        ensures
            r == true,
    {
        true
    }

    /// Five attempts, unless the configuration says otherwise.
    pub fn move_attempts_default() -> (r: u8)
        ensures
            r == 5,
    {
        5
    }

    /// One second between checks, unless the configuration says otherwise.
    pub fn check_interval_default() -> (r: TimeSpan)
        ensures
            r@ == 1_000_000_000,
    {
        TimeSpan::from_secs(1)
    }

    /// One second of quiet before a file is handled, unless the configuration says
    /// otherwise.
    pub fn file_timeout_default() -> (r: TimeSpan)
        ensures
            r@ == 1_000_000_000,
    {
        TimeSpan::from_secs(1)
    }

    /// Whether two configurations are equal in every field.
    pub fn same_as(&self, other: &FileHandlingConfig) -> (r: bool)
        ensures
            r == (self@ == other@),
    {
        if !(self.part_temp_file_check == other.part_temp_file_check && self.move_attempts
            == other.move_attempts && self.check_interval.same_as(&other.check_interval)
            && self.file_timeout.same_as(&other.file_timeout)) {
            return false;
        }
        let n = self.folder_monitors.len();
        if n != other.folder_monitors.len() {
            proof {
                assert(monitors_view(self.folder_monitors@).len() != monitors_view(
                    other.folder_monitors@,
                ).len());
            }
            return false;
        }
        for i in 0..n
            invariant
                n == self.folder_monitors.len() == other.folder_monitors.len(),
                forall|k: int|
                    0 <= k < i ==> #[trigger] self.folder_monitors@[k]@
                        == other.folder_monitors@[k]@,
        {
            if !self.folder_monitors[i].same_as(&other.folder_monitors[i]) {
                proof {
                    assert(monitors_view(self.folder_monitors@)[i as int] != monitors_view(
                        other.folder_monitors@,
                    )[i as int]);
                }
                return false;
            }
        }
        proof {
            assert(monitors_view(self.folder_monitors@) =~= monitors_view(other.folder_monitors@));
        }
        true
    }

    /// Puts `updated` in place of the configuration and tells whether that changed
    /// it.
    pub fn replace_if_changed(&mut self, updated: FileHandlingConfig) -> (changed: bool)
        ensures
            changed == (old(self)@ != updated@),
            final(self)@ == updated@,
    {
        let changed = !self.same_as(&updated);
        if changed {
            *self = updated;
        }
        changed
    }
}

} // verus!
