//! The files waiting to be handled: how a new file joins them, how their waiting
//! time runs down, and what an attempt to move or copy one leaves behind.
use vstd::prelude::*;

use crate::config::file_handling_config::{
    FileHandlingConfig, FileHandlingConfigView, FileOperationType, FolderMonitor,
    FolderMonitorView, monitors_view,
};
use crate::history_manager::{EventType, FileEventInfo};
use crate::paths::{
    extension, file_stem, path_join, same_path, spec_components, spec_extension, spec_file_stem,
    spec_join,
};
use crate::time_span::TimeSpan;

verus! {

/// The abstract value of a waiting file's record.
pub struct MovingInfoView {
    pub file_operation_type: FileOperationType,
    pub timeout: nat,
    pub attempts: u8,
    pub source_folder: Seq<char>,
    pub destination_folder: Seq<char>,
}

/// What is known of a waiting file: what to do with it, how long it must still
/// stay quiet, how many attempts are left after the next one, and its folders.
#[derive(Debug)]
pub struct MovingInfo {
    pub file_operation_type: FileOperationType,
    pub timeout: TimeSpan,
    pub attempts: u8,
    pub source_folder: String,
    pub destination_folder: String,
}

impl View for MovingInfo {
    type V = MovingInfoView;

    open spec fn view(&self) -> MovingInfoView {
        MovingInfoView {
            file_operation_type: self.file_operation_type,
            timeout: self.timeout@,
            attempts: self.attempts,
            source_folder: self.source_folder@,
            destination_folder: self.destination_folder@,
        }
    }
}

/// A waiting file under its name.
#[derive(Debug)]
struct PendingFile {
    filename: String,
    info: MovingInfo,
}

/// Path keys (the components of each name) and records of a list of waiting
/// files.
spec fn pairs_of(s: Seq<PendingFile>) -> Seq<(Seq<Seq<char>>, MovingInfoView)> {
    s.map_values(|e: PendingFile| (spec_components(e.filename@), e.info@))
}

/// Path keys and the names they were registered under, of a list of waiting
/// files.
spec fn name_pairs_of(s: Seq<PendingFile>) -> Seq<(Seq<Seq<char>>, Seq<char>)> {
    s.map_values(|e: PendingFile| (spec_components(e.filename@), e.filename@))
}

/// Two entry lists with the same keys, position by position, hold the same keys.
proof fn lemma_same_keys<V, W>(kv: Seq<(Seq<Seq<char>>, V)>, kw: Seq<(Seq<Seq<char>>, W)>)
    requires
        kv.len() == kw.len(),
        forall|i: int| 0 <= i < kv.len() ==> #[trigger] kv[i].0 == kw[i].0,
    ensures
        keys_distinct(kv) == keys_distinct(kw),
        pending_map(kv).dom() == pending_map(kw).dom(),
        forall|k: Seq<Seq<char>>| #[trigger] has_key(kv, k) == has_key(kw, k),
{
    assert forall|k: Seq<Seq<char>>| has_key(kv, k) == has_key(kw, k) by {
        if has_key(kv, k) {
            let i = choose|i: int| 0 <= i < kv.len() && #[trigger] kv[i].0 == k;
            assert(kw[i].0 == k);
        }
        if has_key(kw, k) {
            let i = choose|i: int| 0 <= i < kw.len() && #[trigger] kw[i].0 == k;
            assert(kv[i].0 == k);
        }
    }
    assert(pending_map(kv).dom() =~= pending_map(kw).dom());
    if keys_distinct(kv) {
        assert forall|i: int, j: int| 0 <= i < j < kw.len() implies kw[i].0 != kw[j].0 by {
            assert(kv[i].0 == kw[i].0);
            assert(kv[j].0 == kw[j].0);
        }
    }
    if keys_distinct(kw) {
        assert forall|i: int, j: int| 0 <= i < j < kv.len() implies kv[i].0 != kv[j].0 by {
            assert(kv[i].0 == kw[i].0);
            assert(kv[j].0 == kw[j].0);
        }
    }
}

/// No key occurs twice: no two names are the same path.
pub open spec fn keys_distinct<V>(kv: Seq<(Seq<Seq<char>>, V)>) -> bool {
    forall|i: int, j: int| 0 <= i < j < kv.len() ==> kv[i].0 != kv[j].0
}

/// Some entry carries the key `k`.
pub open spec fn has_key<V>(kv: Seq<(Seq<Seq<char>>, V)>, k: Seq<Seq<char>>) -> bool {
    exists|i: int| 0 <= i < kv.len() && #[trigger] kv[i].0 == k
}

/// The map from path key to record that a list of entries holds.
pub open spec fn pending_map<V>(kv: Seq<(Seq<Seq<char>>, V)>) -> Map<
    Seq<Seq<char>>,
    V,
> {
    Map::new(
        |k: Seq<Seq<char>>| has_key(kv, k),
        |k: Seq<Seq<char>>| kv[choose|i: int| 0 <= i < kv.len() && #[trigger] kv[i].0 == k].1,
    )
}

/// With distinct keys, the map holds each entry's record under its key.
proof fn lemma_pending_map_at<V>(kv: Seq<(Seq<Seq<char>>, V)>, i: int)
    requires
        keys_distinct(kv),
        0 <= i < kv.len(),
    ensures
        pending_map(kv).contains_key(kv[i].0),
        pending_map(kv)[kv[i].0] == kv[i].1,
{
    assert(has_key(kv, kv[i].0));
    let c = choose|c: int| 0 <= c < kv.len() && #[trigger] kv[c].0 == kv[i].0;
    if c < i {
        assert(kv[c].0 != kv[i].0);
    } else if c > i {
        assert(kv[i].0 != kv[c].0);
    }
}

/// Two entry lists with the same keys, position by position, whose records are
/// related by `f`, give maps related by `f`.
proof fn lemma_pending_map_values<V>(
    kv: Seq<(Seq<Seq<char>>, V)>,
    kw: Seq<(Seq<Seq<char>>, V)>,
    f: spec_fn(V) -> V,
)
    requires
        keys_distinct(kv),
        kv.len() == kw.len(),
        forall|i: int| 0 <= i < kv.len() ==> #[trigger] kw[i] == (kv[i].0, f(kv[i].1)),
    ensures
        keys_distinct(kw),
        pending_map(kw) == pending_map(kv).map_values(f),
{
    assert forall|i: int, j: int| 0 <= i < j < kw.len() implies kw[i].0 != kw[j].0 by {
        assert(kw[i] == (kv[i].0, f(kv[i].1)));
        assert(kw[j] == (kv[j].0, f(kv[j].1)));
    }
    assert forall|k: Seq<Seq<char>>| has_key(kw, k) == has_key(kv, k) by {
        if has_key(kw, k) {
            let i = choose|i: int| 0 <= i < kw.len() && #[trigger] kw[i].0 == k;
            assert(kw[i] == (kv[i].0, f(kv[i].1)));
            assert(kv[i].0 == k);
        }
        if has_key(kv, k) {
            let i = choose|i: int| 0 <= i < kv.len() && #[trigger] kv[i].0 == k;
            assert(kw[i] == (kv[i].0, f(kv[i].1)));
            assert(kw[i].0 == k);
        }
    }
    assert forall|k: Seq<Seq<char>>| #[trigger] pending_map(kw).contains_key(k) implies pending_map(
        kw,
    )[k] == pending_map(kv).map_values(f)[k] by {
        let i = choose|i: int| 0 <= i < kw.len() && #[trigger] kw[i].0 == k;
        assert(kw[i] == (kv[i].0, f(kv[i].1)));
        lemma_pending_map_at(kv, i);
        lemma_pending_map_at(kw, i);
    }
    assert(pending_map(kw) =~= pending_map(kv).map_values(f));
}

/// Adding an entry under a new key adds it to the map.
proof fn lemma_pending_map_push<V>(
    kv: Seq<(Seq<Seq<char>>, V)>,
    k: Seq<Seq<char>>,
    v: V,
)
    requires
        keys_distinct(kv),
        !has_key(kv, k),
    ensures
        keys_distinct(kv.push((k, v))),
        pending_map(kv.push((k, v))) == pending_map(kv).insert(k, v),
{
    let kw = kv.push((k, v));
    assert forall|i: int, j: int| 0 <= i < j < kw.len() implies kw[i].0 != kw[j].0 by {
        if j == kv.len() {
            assert(kw[i] == kv[i]);
        } else {
            assert(kw[i] == kv[i]);
            assert(kw[j] == kv[j]);
        }
    }
    assert forall|x: Seq<Seq<char>>| has_key(kw, x) == (has_key(kv, x) || x == k) by {
        if has_key(kw, x) {
            let i = choose|i: int| 0 <= i < kw.len() && #[trigger] kw[i].0 == x;
            if i < kv.len() {
                assert(kw[i] == kv[i]);
            }
        }
        if has_key(kv, x) {
            let i = choose|i: int| 0 <= i < kv.len() && #[trigger] kv[i].0 == x;
            assert(kw[i] == kv[i]);
        }
        if x == k {
            assert(kw[kv.len() as int].0 == k);
        }
    }
    assert forall|x: Seq<Seq<char>>| #[trigger] pending_map(kw).contains_key(x) implies pending_map(
        kw,
    )[x] == pending_map(kv).insert(k, v)[x] by {
        let i = choose|i: int| 0 <= i < kw.len() && #[trigger] kw[i].0 == x;
        lemma_pending_map_at(kw, i);
        if i < kv.len() {
            assert(kw[i] == kv[i]);
            lemma_pending_map_at(kv, i);
        }
    }
    assert(pending_map(kw) =~= pending_map(kv).insert(k, v));
}

/// Removing the entry at `i` removes its key from the map.
proof fn lemma_pending_map_remove<V>(kv: Seq<(Seq<Seq<char>>, V)>, i: int)
    requires
        keys_distinct(kv),
        0 <= i < kv.len(),
    ensures
        keys_distinct(kv.remove(i)),
        pending_map(kv.remove(i)) == pending_map(kv).remove(kv[i].0),
{
    let kw = kv.remove(i);
    let k = kv[i].0;
    assert forall|a: int| 0 <= a < kw.len() implies #[trigger] kw[a] == kv[if a < i {
        a
    } else {
        a + 1
    }] by {}
    assert forall|a: int, b: int| 0 <= a < b < kw.len() implies kw[a].0 != kw[b].0 by {
        assert(kw[a] == kv[if a < i { a } else { a + 1 }]);
        assert(kw[b] == kv[if b < i { b } else { b + 1 }]);
    }
    assert forall|x: Seq<Seq<char>>| has_key(kw, x) == (has_key(kv, x) && x != k) by {
        if has_key(kw, x) {
            let a = choose|a: int| 0 <= a < kw.len() && #[trigger] kw[a].0 == x;
            let b = if a < i { a } else { a + 1 };
            assert(kw[a] == kv[b]);
            assert(kv[b].0 == x);
        }
        if has_key(kv, x) && x != k {
            let b = choose|b: int| 0 <= b < kv.len() && #[trigger] kv[b].0 == x;
            let a = if b < i { b } else { b - 1 };
            assert(kw[a] == kv[if a < i { a } else { a + 1 }]);
            assert(kw[a].0 == x);
        }
    }
    assert forall|x: Seq<Seq<char>>| #[trigger] pending_map(kw).contains_key(x) implies pending_map(
        kw,
    )[x] == pending_map(kv).remove(k)[x] by {
        let a = choose|a: int| 0 <= a < kw.len() && #[trigger] kw[a].0 == x;
        let b = if a < i { a } else { a + 1 };
        assert(kw[a] == kv[b]);
        lemma_pending_map_at(kw, a);
        lemma_pending_map_at(kv, b);
    }
    assert(pending_map(kw) =~= pending_map(kv).remove(k));
}

/// Replacing the record of the entry at `i` replaces it in the map.
proof fn lemma_pending_map_update<V>(
    kv: Seq<(Seq<Seq<char>>, V)>,
    i: int,
    v: V,
)
    requires
        keys_distinct(kv),
        0 <= i < kv.len(),
    ensures
        keys_distinct(kv.update(i, (kv[i].0, v))),
        pending_map(kv.update(i, (kv[i].0, v))) == pending_map(kv).insert(kv[i].0, v),
{
    let kw = kv.update(i, (kv[i].0, v));
    assert forall|a: int, b: int| 0 <= a < b < kw.len() implies kw[a].0 != kw[b].0 by {
        assert(kw[a].0 == kv[a].0);
        assert(kw[b].0 == kv[b].0);
    }
    assert forall|x: Seq<Seq<char>>| has_key(kw, x) == has_key(kv, x) by {
        if has_key(kw, x) {
            let a = choose|a: int| 0 <= a < kw.len() && #[trigger] kw[a].0 == x;
            assert(kv[a].0 == x);
        }
        if has_key(kv, x) {
            let a = choose|a: int| 0 <= a < kv.len() && #[trigger] kv[a].0 == x;
            assert(kw[a].0 == x);
        }
    }
    assert forall|x: Seq<Seq<char>>| #[trigger] pending_map(kw).contains_key(x) implies pending_map(
        kw,
    )[x] == pending_map(kv).insert(kv[i].0, v)[x] by {
        let a = choose|a: int| 0 <= a < kw.len() && #[trigger] kw[a].0 == x;
        lemma_pending_map_at(kw, a);
        if a != i {
            lemma_pending_map_at(kv, a);
        }
    }
    assert(pending_map(kw) =~= pending_map(kv).insert(kv[i].0, v));
}

/// The suffix that marks a file still being written.
pub open spec fn part_suffix() -> Seq<char> {
    seq!['p', 'a', 'r', 't']
}

/// The name a file is followed under: with the part check on, a file whose
/// extension is `part` is followed under its stem; any other under its own name.
pub open spec fn spec_watched_name(p: Seq<char>, part_temp_file_check: bool) -> Seq<char> {
    if part_temp_file_check && spec_extension(p) == Some(part_suffix()) && spec_file_stem(
        p,
    ) is Some {
        spec_file_stem(p)->0
    } else {
        p
    }
}

/// The first monitor, in order, that takes the extension `ext`.
pub open spec fn first_monitor_for(ms: Seq<FolderMonitorView>, ext: Seq<char>) -> Option<int> {
    if exists|i: int| 0 <= i < ms.len() && #[trigger] ms[i].extensions.contains(ext) {
        Some(
            choose|i: int|
                0 <= i < ms.len() && #[trigger] ms[i].extensions.contains(ext) && forall|j: int|
                    0 <= j < i ==> !(#[trigger] ms[j].extensions.contains(ext)),
        )
    } else {
        None
    }
}

/// The record a file gets from the monitor that takes it.
pub open spec fn moving_info_for(m: FolderMonitorView, cfg: FileHandlingConfigView) -> MovingInfoView {
    MovingInfoView {
        file_operation_type: m.file_operation_type,
        timeout: cfg.file_timeout,
        attempts: cfg.move_attempts,
        source_folder: m.source_folder,
        destination_folder: m.destination_folder,
    }
}

/// The waiting files after a file event for `p`. The file is followed under its
/// watched name, keyed by that name's components; where that name has an
/// extension that some monitor takes, a file already waiting under the same path
/// is dropped (it was a temporary file), and otherwise it
/// starts to wait with the record of the first such monitor. Any other event
/// changes nothing.
pub open spec fn spec_update_files_list(
    files: Map<Seq<Seq<char>>, MovingInfoView>,
    p: Seq<char>,
    part_temp_file_check: bool,
    cfg: FileHandlingConfigView,
) -> Map<Seq<Seq<char>>, MovingInfoView> {
    let name = spec_watched_name(p, part_temp_file_check);
    let key = spec_components(name);
    match spec_extension(name) {
        None => files,
        Some(ext) => match first_monitor_for(cfg.folder_monitors, ext) {
            None => files,
            Some(i) => if files.contains_key(key) {
                files.remove(key)
            } else {
                files.insert(key, moving_info_for(cfg.folder_monitors[i], cfg))
            },
        },
    }
}

/// The registered names after a file event for `p`: where the event adds a file,
/// its watched name is registered under its key; where it drops one, the key's
/// name goes with it.
pub open spec fn spec_update_names(
    names: Map<Seq<Seq<char>>, Seq<char>>,
    p: Seq<char>,
    part_temp_file_check: bool,
    cfg: FileHandlingConfigView,
) -> Map<Seq<Seq<char>>, Seq<char>> {
    let name = spec_watched_name(p, part_temp_file_check);
    let key = spec_components(name);
    match spec_extension(name) {
        None => names,
        Some(ext) => match first_monitor_for(cfg.folder_monitors, ext) {
            None => names,
            Some(i) => if names.contains_key(key) {
                names.remove(key)
            } else {
                names.insert(key, name)
            },
        },
    }
}

/// The record after one check: the waiting time run down by `interval`, to no less
/// than zero.
pub open spec fn counted_down(m: MovingInfoView, interval: nat) -> MovingInfoView {
    MovingInfoView {
        timeout: if m.timeout >= interval {
            (m.timeout - interval) as nat
        } else {
            0
        },
        ..m
    }
}

/// The waiting files after an attempt on the file keyed `f`: a success ends the wait; a failure
/// ends it when no attempts were left, and otherwise leaves one attempt less. A
/// name that is not waiting changes nothing.
pub open spec fn spec_record_outcome(
    files: Map<Seq<Seq<char>>, MovingInfoView>,
    f: Seq<Seq<char>>,
    succeeded: bool,
) -> Map<Seq<Seq<char>>, MovingInfoView> {
    if !files.contains_key(f) {
        files
    } else if succeeded || files[f].attempts == 0 {
        files.remove(f)
    } else {
        files.insert(f, MovingInfoView { attempts: (files[f].attempts - 1) as u8, ..files[f] })
    }
}

/// The registered names after an attempt on the file keyed `f`: its name goes
/// when the file stops waiting.
pub open spec fn spec_record_names(
    names: Map<Seq<Seq<char>>, Seq<char>>,
    files: Map<Seq<Seq<char>>, MovingInfoView>,
    f: Seq<Seq<char>>,
    succeeded: bool,
) -> Map<Seq<Seq<char>>, Seq<char>> {
    if files.contains_key(f) && (succeeded || files[f].attempts == 0) {
        names.remove(f)
    } else {
        names
    }
}

/// A failed attempt on a waiting file with attempts left keeps it waiting with
/// one attempt less and everything else in its record as it was (operation,
/// waiting time and folders); no other waiting file changes.
pub proof fn lemma_failure_keeps_record(files: Map<Seq<Seq<char>>, MovingInfoView>, f: Seq<Seq<char>>)
    requires
        files.contains_key(f),
        files[f].attempts > 0,
    ensures
        spec_record_outcome(files, f, false).contains_key(f),
        spec_record_outcome(files, f, false)[f].attempts == files[f].attempts - 1,
        spec_record_outcome(files, f, false)[f].file_operation_type == files[f].file_operation_type,
        spec_record_outcome(files, f, false)[f].timeout == files[f].timeout,
        spec_record_outcome(files, f, false)[f].source_folder == files[f].source_folder,
        spec_record_outcome(files, f, false)[f].destination_folder == files[f].destination_folder,
        forall|k: Seq<Seq<char>>|
            k != f ==> (#[trigger] spec_record_outcome(files, f, false).contains_key(k)
                == files.contains_key(k)) && (files.contains_key(k) ==> spec_record_outcome(
                files,
                f,
                false,
            )[k] == files[k]),
{
}

/// A success, or a failure with no attempts left, ends the wait of that file and
/// of no other; an attempt on a file that is not waiting changes nothing.
pub proof fn lemma_outcome_ends_wait(
    files: Map<Seq<Seq<char>>, MovingInfoView>,
    f: Seq<Seq<char>>,
    succeeded: bool,
)
    ensures
        files.contains_key(f) && (succeeded || files[f].attempts == 0) ==> !spec_record_outcome(
            files,
            f,
            succeeded,
        ).contains_key(f),
        !files.contains_key(f) ==> spec_record_outcome(files, f, succeeded) == files,
        forall|k: Seq<Seq<char>>|
            k != f ==> (#[trigger] spec_record_outcome(files, f, succeeded).contains_key(k)
                == files.contains_key(k)) && (files.contains_key(k) ==> spec_record_outcome(
                files,
                f,
                succeeded,
            )[k] == files[k]),
{
}

/// A file event touches at most one entry: every key other than that of the
/// watched name keeps whether it is waiting and its record.
pub proof fn lemma_update_files_list_touches_one_key(
    files: Map<Seq<Seq<char>>, MovingInfoView>,
    p: Seq<char>,
    part_temp_file_check: bool,
    cfg: FileHandlingConfigView,
    k: Seq<Seq<char>>,
)
    requires
        k != spec_components(spec_watched_name(p, part_temp_file_check)),
    ensures
        spec_update_files_list(files, p, part_temp_file_check, cfg).contains_key(k)
            == files.contains_key(k),
        files.contains_key(k) ==> spec_update_files_list(files, p, part_temp_file_check, cfg)[k]
            == files[k],
{
}

/// A file event whose watched name has no extension that some monitor takes
/// changes nothing.
pub proof fn lemma_update_files_list_ignores_unmonitored(
    files: Map<Seq<Seq<char>>, MovingInfoView>,
    p: Seq<char>,
    part_temp_file_check: bool,
    cfg: FileHandlingConfigView,
)
    requires
        spec_extension(spec_watched_name(p, part_temp_file_check)) is None || forall|i: int|
            0 <= i < cfg.folder_monitors.len() ==> !(
            #[trigger] cfg.folder_monitors[i].extensions.contains(
                spec_extension(spec_watched_name(p, part_temp_file_check))->0,
            )),
    ensures
        spec_update_files_list(files, p, part_temp_file_check, cfg) == files,
{
    let name = spec_watched_name(p, part_temp_file_check);
    if let Some(ext) = spec_extension(name) {
        assert(first_monitor_for(cfg.folder_monitors, ext) is None);
    }
}

/// A monitored file that is not yet waiting starts to wait with the operation and
/// folders of the first monitor that takes its extension, the configured waiting
/// time and the configured number of attempts.
pub proof fn lemma_update_files_list_starts_wait(
    files: Map<Seq<Seq<char>>, MovingInfoView>,
    p: Seq<char>,
    part_temp_file_check: bool,
    cfg: FileHandlingConfigView,
    i: int,
)
    requires
        spec_extension(spec_watched_name(p, part_temp_file_check)) is Some,
        0 <= i < cfg.folder_monitors.len(),
        cfg.folder_monitors[i].extensions.contains(
            spec_extension(spec_watched_name(p, part_temp_file_check))->0,
        ),
        forall|j: int|
            0 <= j < i ==> !(#[trigger] cfg.folder_monitors[j].extensions.contains(
                spec_extension(spec_watched_name(p, part_temp_file_check))->0,
            )),
        !files.contains_key(spec_components(spec_watched_name(p, part_temp_file_check))),
    ensures
        ({
            let key = spec_components(spec_watched_name(p, part_temp_file_check));
            let r = spec_update_files_list(files, p, part_temp_file_check, cfg);
            let m = cfg.folder_monitors[i];
            &&& r.contains_key(key)
            &&& r[key].file_operation_type == m.file_operation_type
            &&& r[key].source_folder == m.source_folder
            &&& r[key].destination_folder == m.destination_folder
            &&& r[key].timeout == cfg.file_timeout
            &&& r[key].attempts == cfg.move_attempts
        }),
{
    let ms = cfg.folder_monitors;
    let ext = spec_extension(spec_watched_name(p, part_temp_file_check))->0;
    assert(ms[i].extensions.contains(ext));
    let c = first_monitor_for(ms, ext)->0;
    assert(0 <= c < ms.len() && ms[c].extensions.contains(ext) && forall|j: int|
        0 <= j < c ==> !(#[trigger] ms[j].extensions.contains(ext)));
    if c < i {
        assert(!ms[c].extensions.contains(ext));
    }
    if i < c {
        assert(!ms[i].extensions.contains(ext));
    }
    assert(c == i);
}

/// A second event for a monitored file that is already waiting drops it.
pub proof fn lemma_update_files_list_drops_waiting(
    files: Map<Seq<Seq<char>>, MovingInfoView>,
    p: Seq<char>,
    part_temp_file_check: bool,
    cfg: FileHandlingConfigView,
    i: int,
)
    requires
        spec_extension(spec_watched_name(p, part_temp_file_check)) is Some,
        0 <= i < cfg.folder_monitors.len(),
        cfg.folder_monitors[i].extensions.contains(
            spec_extension(spec_watched_name(p, part_temp_file_check))->0,
        ),
        files.contains_key(spec_components(spec_watched_name(p, part_temp_file_check))),
    ensures
        !spec_update_files_list(files, p, part_temp_file_check, cfg).contains_key(
            spec_components(spec_watched_name(p, part_temp_file_check)),
        ),
{
    let ms = cfg.folder_monitors;
    let ext = spec_extension(spec_watched_name(p, part_temp_file_check))->0;
    assert(ms[i].extensions.contains(ext));
}

/// The waiting files after `n` failed attempts in a row on `f`.
pub open spec fn after_failures(
    files: Map<Seq<Seq<char>>, MovingInfoView>,
    f: Seq<Seq<char>>,
    n: nat,
) -> Map<Seq<Seq<char>>, MovingInfoView>
    decreases n,
{
    if n == 0 {
        files
    } else {
        spec_record_outcome(after_failures(files, f, (n - 1) as nat), f, false)
    }
}

/// A file that keeps failing stops waiting after its attempts run out: once more
/// than the attempts it had have failed, it is no longer waiting.
pub proof fn lemma_failures_end_the_wait(files: Map<Seq<Seq<char>>, MovingInfoView>, f: Seq<Seq<char>>)
    requires
        files.contains_key(f),
    ensures
        !after_failures(files, f, files[f].attempts as nat + 1).contains_key(f),
{
    let a = files[f].attempts as nat;
    assert forall|n: nat| n <= a implies #[trigger] after_failures(files, f, n).contains_key(f)
        && after_failures(files, f, n)[f].attempts == a - n by {
        lemma_failures_count_down(files, f, n);
    }
    assert(after_failures(files, f, a).contains_key(f));
    assert(after_failures(files, f, a)[f].attempts == 0);
}

/// A file that keeps failing goes on waiting through as many failures as it had
/// attempts, with one attempt less after each.
pub proof fn lemma_failures_count_down(files: Map<Seq<Seq<char>>, MovingInfoView>, f: Seq<Seq<char>>, n: nat)
    requires
        files.contains_key(f),
        n <= files[f].attempts,
    ensures
        after_failures(files, f, n).contains_key(f),
        after_failures(files, f, n)[f].attempts == files[f].attempts - n,
    decreases n,
{
    if n > 0 {
        lemma_failures_count_down(files, f, (n - 1) as nat);
    }
}

/// A second event for a file that was not waiting undoes the first one: a
/// temporary file that appears and disappears leaves nothing behind.
pub proof fn lemma_repeated_event_cancels(
    files: Map<Seq<Seq<char>>, MovingInfoView>,
    p: Seq<char>,
    part_temp_file_check: bool,
    cfg: FileHandlingConfigView,
)
    requires
        !files.contains_key(spec_components(spec_watched_name(p, part_temp_file_check))),
    ensures
        spec_update_files_list(
            spec_update_files_list(files, p, part_temp_file_check, cfg),
            p,
            part_temp_file_check,
            cfg,
        ) == files,
{
    let name = spec_watched_name(p, part_temp_file_check);
    match spec_extension(name) {
        None => {},
        Some(ext) => match first_monitor_for(cfg.folder_monitors, ext) {
            None => {},
            Some(i) => {
                let v = moving_info_for(cfg.folder_monitors[i], cfg);
                let key = spec_components(name);
                assert(files.insert(key, v).remove(key) =~= files);
            },
        },
    }
}

/// With the part check on, a file still being written (`name.part`) is followed
/// under the same name as the finished file `name`, where `name` does not itself
/// end in `.part`.
pub proof fn lemma_part_file_follows_final_name(p: Seq<char>)
    requires
        spec_extension(p) == Some(part_suffix()),
        spec_file_stem(p) matches Some(stem) && spec_extension(stem) != Some(part_suffix()),
    ensures
        spec_watched_name(p, true) == spec_watched_name(spec_file_stem(p)->0, true),
{
}

/// The record after `n` checks of `interval` each.
pub open spec fn counted_down_times(m: MovingInfoView, interval: nat, n: nat) -> MovingInfoView
    decreases n,
{
    if n == 0 {
        m
    } else {
        counted_down(counted_down_times(m, interval, (n - 1) as nat), interval)
    }
}

/// A waiting file is due exactly when the checks so far add up to its waiting
/// time: after `n` checks of `interval` it has `timeout - n * interval` left, and
/// nothing once that is used up. Nothing else in its record changes.
pub proof fn lemma_countdown_after_checks(m: MovingInfoView, interval: nat, n: nat)
    ensures
        counted_down_times(m, interval, n).timeout == if m.timeout >= n * interval {
            (m.timeout - n * interval) as nat
        } else {
            0
        },
        counted_down_times(m, interval, n) == (MovingInfoView {
            timeout: counted_down_times(m, interval, n).timeout,
            ..m
        }),
    decreases n,
{
    if n > 0 {
        lemma_countdown_after_checks(m, interval, (n - 1) as nat);
        assert(n * interval == (n - 1) * interval + interval) by (nonlinear_arith)
            requires
                n > 0,
        ;
        assert((n - 1) * interval >= 0) by (nonlinear_arith)
            requires
                n > 0,
        ;
    }
}

/// How an attempt to rename a file into its destination ended.
#[derive(Debug, Clone, Copy, PartialEq, Eq, Structural)]
pub enum RenameOutcome {
    Renamed,
    /// The two paths are on different devices, which a rename cannot cross.
    CrossesDevices,
    Failed,
}

/// What a move does after its rename.
#[derive(Debug, Clone, Copy, PartialEq, Eq, Structural)]
pub enum MoveStep {
    /// The file is in place.
    Done,
    /// Copy the file to its destination, then remove it from its source.
    CopyThenRemove,
    /// The move failed.
    Fail,
}

/// The step a move takes after its rename: done when the rename succeeded, a copy
/// followed by a removal when it could not cross devices, a failure otherwise.
pub fn after_rename(outcome: RenameOutcome) -> (r: MoveStep)
    ensures
        r == match outcome {
            RenameOutcome::Renamed => MoveStep::Done,
            RenameOutcome::CrossesDevices => MoveStep::CopyThenRemove,
            RenameOutcome::Failed => MoveStep::Fail,
        },
{
    match outcome {
        RenameOutcome::Renamed => MoveStep::Done,
        RenameOutcome::CrossesDevices => MoveStep::CopyThenRemove,
        RenameOutcome::Failed => MoveStep::Fail,
    }
}

/// The path keys of a list of names: each name's components.
pub open spec fn keys_of(names: Seq<Seq<char>>) -> Seq<Seq<Seq<char>>> {
    names.map_values(|t: Seq<char>| spec_components(t))
}

/// The waiting files after `n` checks of `interval` each, with no other event:
/// `tick` takes one such check.
pub open spec fn after_checks(
    files: Map<Seq<Seq<char>>, MovingInfoView>,
    interval: nat,
    n: nat,
) -> Map<Seq<Seq<char>>, MovingInfoView>
    decreases n,
{
    if n == 0 {
        files
    } else {
        after_checks(files, interval, (n - 1) as nat).map_values(
            |m: MovingInfoView| counted_down(m, interval),
        )
    }
}

/// Through `n` checks a waiting file keeps waiting, and its record is its record
/// counted down `n` times.
pub proof fn lemma_after_checks(
    files: Map<Seq<Seq<char>>, MovingInfoView>,
    interval: nat,
    n: nat,
    k: Seq<Seq<char>>,
)
    requires
        files.contains_key(k),
    ensures
        after_checks(files, interval, n).contains_key(k),
        after_checks(files, interval, n)[k] == counted_down_times(files[k], interval, n),
    decreases n,
{
    if n > 0 {
        lemma_after_checks(files, interval, (n - 1) as nat, k);
    }
}

/// The check at which a file that must wait `timeout` is first due, with checks
/// every `interval`: the first check by which the checks add up to the waiting
/// time, and never earlier than the first check.
pub open spec fn spec_first_due_check(timeout: nat, interval: nat) -> nat {
    if timeout == 0 {
        1
    } else {
        ((timeout + interval - 1) / (interval as int)) as nat
    }
}

/// With checks every `interval` (longer than nothing), a waiting file is first
/// due at check `spec_first_due_check(timeout, interval)`: its time is up then,
/// and at no earlier check.
pub proof fn lemma_first_due_check(m: MovingInfoView, interval: nat)
    requires
        interval > 0,
    ensures
        spec_first_due_check(m.timeout, interval) >= 1,
        counted_down_times(m, interval, spec_first_due_check(m.timeout, interval)).timeout == 0,
        forall|j: nat|
            1 <= j < spec_first_due_check(m.timeout, interval) ==> #[trigger] counted_down_times(
                m,
                interval,
                j,
            ).timeout > 0,
{
    let t = m.timeout;
    let n = spec_first_due_check(t, interval);
    if t > 0 {
        let q = (t + interval - 1) / (interval as int);
        assert(q * interval >= t && (q - 1) * interval < t && q >= 1) by (nonlinear_arith)
            requires
                interval > 0,
                t > 0,
                q == (t + interval - 1) / (interval as int),
        ;
    }
    lemma_countdown_after_checks(m, interval, n);
    assert forall|j: nat| 1 <= j < n implies #[trigger] counted_down_times(m, interval, j).timeout
        > 0 by {
        lemma_countdown_after_checks(m, interval, j);
        assert(j * interval <= (n - 1) * interval) by (nonlinear_arith)
            requires
                j <= n - 1,
                interval > 0,
        ;
    }
}

/// What to do with a waiting file, and from where to where.
pub struct PlannedOperation {
    pub file_operation_type: FileOperationType,
    pub source_path: String,
    pub destination_path: String,
}

/// The files that wait to be handled. They are looked up as paths, component by
/// component, so that no two of their names are the same path; the view maps the
/// components of each name to its record, and `names` maps them to the name as it
/// was registered.
pub struct PendingFiles {
    entries: Vec<PendingFile>,
}

impl View for PendingFiles {
    type V = Map<Seq<Seq<char>>, MovingInfoView>;

    closed spec fn view(&self) -> Map<Seq<Seq<char>>, MovingInfoView> {
        pending_map(pairs_of(self.entries@))
    }
}

/// Whether `v` holds the text `s`.
pub fn contains_text(v: &Vec<String>, s: &String) -> (r: bool)
    ensures
        r == v.deep_view().contains(s@),
{
    let n = v.len();
    for i in 0..n
        invariant
            n == v.len(),
            forall|k: int| 0 <= k < i ==> v.deep_view()[k] != s@,
    {
        if v[i] == *s {
            proof {
                assert(v.deep_view()[i as int] == s@);
            }
            return true;
        }
    }
    false
}

/// The index of the first monitor that takes the extension `ext`.
pub fn first_monitor_taking(ms: &Vec<FolderMonitor>, ext: &String) -> (r: Option<usize>)
    ensures
        match r {
            Some(i) => i < ms.len() && first_monitor_for(monitors_view(ms@), ext@) == Some(i as int),
            None => first_monitor_for(monitors_view(ms@), ext@) is None,
        },
{
    let ghost mv = monitors_view(ms@);
    let n = ms.len();
    for i in 0..n
        invariant
            n == ms.len(),
            mv == monitors_view(ms@),
            forall|j: int| 0 <= j < i ==> !(#[trigger] mv[j].extensions.contains(ext@)),
    {
        if contains_text(&ms[i].extensions, ext) {
            proof {
                assert(mv[i as int] == ms@[i as int]@);
                assert(mv[i as int].extensions.contains(ext@));
                let c = choose|c: int|
                    0 <= c < mv.len() && #[trigger] mv[c].extensions.contains(ext@) && forall|j: int|
                        0 <= j < c ==> !(#[trigger] mv[j].extensions.contains(ext@));
                if c < i {
                } else if c > i {
                    assert(!mv[i as int].extensions.contains(ext@));
                }
            }
            return Some(i);
        }
        proof {
            assert(mv[i as int] == ms@[i as int]@);
        }
    }
    None
}

/// The name a file is followed under (see `spec_watched_name`).
pub fn watched_name(filename: String, part_temp_file_check: bool) -> (r: String)
    ensures
        r@ == spec_watched_name(filename@, part_temp_file_check),
{
    if part_temp_file_check {
        if let Some(ext) = extension(filename.as_str()) {
            let part = "part";
            proof {
                reveal_strlit("part");
                assert(part@ =~= part_suffix());
            }
            let part = String::from_str(part);
            if ext == part {
                if let Some(stem) = file_stem(filename.as_str()) {
                    return stem;
                }
            }
        }
    }
    filename
}

/// The index of the entry whose name is the same path as `name`.
fn find_entry(entries: &Vec<PendingFile>, name: &String) -> (r: Option<usize>)
    ensures
        match r {
            Some(i) => i < entries.len() && pairs_of(entries@)[i as int].0 == spec_components(
                name@,
            ),
            None => !has_key(pairs_of(entries@), spec_components(name@)),
        },
{
    let n = entries.len();
    for i in 0..n
        invariant
            n == entries.len(),
            forall|k: int| 0 <= k < i ==> pairs_of(entries@)[k].0 != spec_components(name@),
    {
        if same_path(entries[i].filename.as_str(), name.as_str()) {
            return Some(i);
        }
    }
    None
}

impl MovingInfo {
    /// A copy of the record.
    pub fn duplicate(&self) -> (r: MovingInfo)
        ensures
            r@ == self@,
    {
        MovingInfo {
            file_operation_type: self.file_operation_type,
            timeout: self.timeout.duplicate(),
            attempts: self.attempts,
            source_folder: self.source_folder.clone(),
            destination_folder: self.destination_folder.clone(),
        }
    }
}

impl PendingFiles {
    #[verifier::type_invariant]
    spec fn names_distinct(self) -> bool {
        keys_distinct(pairs_of(self.entries@))
    }

    /// The name each waiting file was registered under, by its path key.
    pub closed spec fn names(&self) -> Map<Seq<Seq<char>>, Seq<char>> {
        pending_map(name_pairs_of(self.entries@))
    }

    /// Every waiting file has a registered name, and every registered name is
    /// that of a waiting file.
    pub proof fn lemma_names_cover(&self)
        ensures
            self.names().dom() == self@.dom(),
    {
        lemma_same_keys(pairs_of(self.entries@), name_pairs_of(self.entries@));
    }

    /// No file waits.
    pub fn new() -> (r: PendingFiles)
        ensures
            r@ == Map::<Seq<Seq<char>>, MovingInfoView>::empty(),
            r.names() == Map::<Seq<Seq<char>>, Seq<char>>::empty(),
    {
        let r = PendingFiles { entries: Vec::new() };
        proof {
            assert(pending_map(pairs_of(r.entries@)) =~= Map::<Seq<Seq<char>>, MovingInfoView>::empty());
            assert(pending_map(name_pairs_of(r.entries@)) =~= Map::<Seq<Seq<char>>, Seq<char>>::empty());
        }
        r
    }

    /// Whether a file waits under a name that is the same path as `name`.
    pub fn contains(&self, name: &String) -> (r: bool)
        ensures
            r == self@.contains_key(spec_components(name@)),
    {
        proof {
            use_type_invariant(self);
        }
        match find_entry(&self.entries, name) {
            Some(i) => {
                proof {
                    lemma_pending_map_at(pairs_of(self.entries@), i as int);
                }
                true
            },
            None => false,
        }
    }

    /// The record of the file waiting under a name that is the same path as `name`.
    pub fn get(&self, name: &String) -> (r: Option<MovingInfo>)
        ensures
            match r {
                Some(m) => self@.contains_key(spec_components(name@)) && m@ == self@[spec_components(name@)],
                None => !self@.contains_key(spec_components(name@)),
            },
    {
        proof {
            use_type_invariant(self);
        }
        match find_entry(&self.entries, name) {
            Some(i) => {
                proof {
                    lemma_pending_map_at(pairs_of(self.entries@), i as int);
                }
                Some(self.entries[i].info.duplicate())
            },
            None => None,
        }
    }

    /// Takes the entries out, leaving none.
    fn take_entries(&mut self) -> (r: Vec<PendingFile>)
        ensures
            r@ == old(self).entries@,
            keys_distinct(pairs_of(r@)),
            final(self).entries@.len() == 0,
    {
        proof {
            use_type_invariant(&*self);
        }
        let mut entries: Vec<PendingFile> = Vec::new();
        proof {
            assert(keys_distinct(pairs_of(entries@)));
        }
        std::mem::swap(&mut entries, &mut self.entries);
        entries
    }

    /// A file event for `filename` (see `spec_update_files_list`).
    pub fn update_files_list(
        &mut self,
        filename: String,
        part_temp_file_check: bool,
        config: &FileHandlingConfig,
    )
        ensures
            final(self)@ == spec_update_files_list(
                old(self)@,
                filename@,
                part_temp_file_check,
                config@,
            ),
            final(self).names() == spec_update_names(
                old(self).names(),
                filename@,
                part_temp_file_check,
                config@,
            ),
    {
        proof {
            self.lemma_names_cover();
        }
        let name = watched_name(filename, part_temp_file_check);
        let ext = match extension(name.as_str()) {
            Some(ext) => ext,
            None => return ,
        };
        let i = match first_monitor_taking(&config.folder_monitors, &ext) {
            Some(i) => i,
            None => return ,
        };
        let monitor = &config.folder_monitors[i];
        let mut entries = self.take_entries();
        let ghost kv = pairs_of(entries@);
        let ghost nkv = name_pairs_of(entries@);
        proof {
            lemma_same_keys(kv, nkv);
        }
        match find_entry(&entries, &name) {
            Some(k) => {
                proof {
                    lemma_pending_map_at(kv, k as int);
                    lemma_pending_map_remove(kv, k as int);
                    lemma_pending_map_remove(nkv, k as int);
                }
                entries.remove(k);
                proof {
                    assert(pairs_of(entries@) =~= kv.remove(k as int));
                    assert(name_pairs_of(entries@) =~= nkv.remove(k as int));
                }
            },
            None => {
                let info = MovingInfo {
                    file_operation_type: monitor.file_operation_type,
                    timeout: config.file_timeout.duplicate(),
                    attempts: config.move_attempts,
                    source_folder: monitor.source_folder.clone(),
                    destination_folder: monitor.destination_folder.clone(),
                };
                proof {
                    assert(monitors_view(config.folder_monitors@)[i as int] == monitor@);
                    lemma_pending_map_push(kv, spec_components(name@), info@);
                    lemma_pending_map_push(nkv, spec_components(name@), name@);
                }
                let ghost name_text = name@;
                entries.push(PendingFile { filename: name, info });
                proof {
                    assert(pairs_of(entries@) =~= kv.push((spec_components(name_text), info@)));
                    assert(name_pairs_of(entries@) =~= nkv.push((spec_components(name_text), name_text)));
                }
            },
        }
        self.entries = entries;
    }

    /// One check: every waiting time runs down by `check_interval`, and the names of
    /// the files whose time is up are given as they were registered, each once.
    pub fn tick(&mut self, check_interval: &TimeSpan) -> (expired: Vec<String>)
        ensures
            final(self)@ == old(self)@.map_values(
                |m: MovingInfoView| counted_down(m, check_interval@),
            ),
            final(self)@.dom() == old(self)@.dom(),
            keys_of(expired.deep_view()).no_duplicates(),
            forall|k: Seq<Seq<char>>|
                #[trigger] keys_of(expired.deep_view()).contains(k) <==> final(self)@.contains_key(k)
                    && final(self)@[k].timeout == 0,
            final(self).names() == old(self).names(),
            forall|x: int|
                0 <= x < expired.len() ==> final(self).names().contains_key(
                    spec_components(#[trigger] expired@[x]@),
                ) && final(self).names()[spec_components(expired@[x]@)] == expired@[x]@,
    {
        let mut entries = self.take_entries();
        let ghost kv = pairs_of(entries@);
        let ghost nkv = name_pairs_of(entries@);
        proof {
            lemma_same_keys(kv, nkv);
        }
        let ghost f = |m: MovingInfoView| counted_down(m, check_interval@);
        let n = entries.len();
        let mut expired: Vec<String> = Vec::new();
        for i in 0..n
            invariant
                n == entries.len(),
                kv.len() == n,
                keys_distinct(kv),
                keys_distinct(nkv),
                name_pairs_of(entries@) == nkv,
                forall|x: int|
                    0 <= x < expired.len() ==> pending_map(nkv).contains_key(
                        spec_components(#[trigger] expired@[x]@),
                    ) && pending_map(nkv)[spec_components(expired@[x]@)] == expired@[x]@,
                f == (|m: MovingInfoView| counted_down(m, check_interval@)),
                forall|j: int| 0 <= j < i ==> #[trigger] pairs_of(entries@)[j] == (kv[j].0, f(kv[j].1)),
                forall|j: int| i <= j < n ==> #[trigger] pairs_of(entries@)[j] == kv[j],
                keys_of(expired.deep_view()).no_duplicates(),
                forall|k: Seq<Seq<char>>|
                    #[trigger] keys_of(expired.deep_view()).contains(k) ==> exists|j: int|
                        0 <= j < i && kv[j].0 == k && f(kv[j].1).timeout == 0,
                forall|j: int|
                    0 <= j < i && #[trigger] f(kv[j].1).timeout == 0 ==> keys_of(expired.deep_view()).contains(
                        kv[j].0,
                    ),
        {
            let ghost before = entries@;
            let t = entries[i].info.timeout.saturating_sub(check_interval);
            entries[i].info.timeout = t;
            proof {
                assert(entries@ =~= before.update(i as int, entries@[i as int]));
                assert forall|j: int| 0 <= j < n && j != i implies #[trigger] pairs_of(entries@)[j]
                    == pairs_of(before)[j] by {
                    assert(entries@[j] == before[j]);
                }
                assert(pairs_of(before)[i as int] == kv[i as int]);
                assert(before[i as int].info@ == kv[i as int].1);
                assert(entries@[i as int].info@ == counted_down(
                    before[i as int].info@,
                    check_interval@,
                ));
                assert(pairs_of(entries@)[i as int] == (kv[i as int].0, f(kv[i as int].1)));
                assert(name_pairs_of(entries@) =~= nkv) by {
                    assert forall|j: int| 0 <= j < n implies #[trigger] name_pairs_of(entries@)[j]
                        == name_pairs_of(before)[j] by {
                        if j != i {
                            assert(entries@[j] == before[j]);
                        }
                    }
                }
            }
            if entries[i].info.timeout.is_zero() {
                let ghost prev = keys_of(expired.deep_view());
                let ghost prev_names = expired.deep_view();
                expired.push(entries[i].filename.clone());
                proof {
                    let name = kv[i as int].0;
                    lemma_pending_map_at(nkv, i as int);
                    assert(nkv[i as int] == (spec_components(entries@[i as int].filename@), entries@[i as int].filename@));
                    assert forall|x: int|
                        0 <= x < expired.len() implies pending_map(nkv).contains_key(
                            spec_components(#[trigger] expired@[x]@),
                        ) && pending_map(nkv)[spec_components(expired@[x]@)] == expired@[x]@ by {
                        if x < expired.len() - 1 {
                            assert(prev_names[x] == expired@[x]@);
                        }
                    }
                    assert(expired.deep_view() =~= prev_names.push(entries@[i as int].filename@));
                    assert(keys_of(expired.deep_view()) =~= prev.push(name));
                    assert(!prev.contains(name)) by {
                        if prev.contains(name) {
                            let j = choose|j: int| 0 <= j < i && kv[j].0 == name && f(kv[j].1).timeout == 0;
                            assert(kv[j].0 != kv[i as int].0);
                        }
                    }
                    assert forall|k: Seq<Seq<char>>| #[trigger] keys_of(expired.deep_view()).contains(k) implies exists|j: int|
                        0 <= j < i + 1 && kv[j].0 == k && f(kv[j].1).timeout == 0 by {
                        let idx = choose|idx: int| 0 <= idx < keys_of(expired.deep_view()).len() && keys_of(expired.deep_view())[idx] == k;
                        if idx < prev.len() {
                            assert(prev.contains(k));
                        } else {
                            assert(kv[i as int].0 == k);
                        }
                    }
                    assert forall|j: int|
                        0 <= j < i + 1 && #[trigger] f(kv[j].1).timeout == 0 implies keys_of(expired.deep_view()).contains(kv[j].0) by {
                        if j < i {
                            assert(prev.contains(kv[j].0));
                            let idx = choose|idx: int| 0 <= idx < prev.len() && prev[idx] == kv[j].0;
                            assert(keys_of(expired.deep_view())[idx] == kv[j].0);
                        } else {
                            assert(keys_of(expired.deep_view())[prev.len() as int] == kv[j].0);
                        }
                    }
                }
            }
        }
        proof {
            lemma_pending_map_values(kv, pairs_of(entries@), f);
            assert(pending_map(pairs_of(entries@)).dom() =~= pending_map(kv).dom());
            assert forall|k: Seq<Seq<char>>| #[trigger] keys_of(expired.deep_view()).contains(k) <==> pending_map(
                pairs_of(entries@),
            ).contains_key(k) && pending_map(pairs_of(entries@))[k].timeout == 0 by {
                if keys_of(expired.deep_view()).contains(k) {
                    let j = choose|j: int| 0 <= j < n && kv[j].0 == k && f(kv[j].1).timeout == 0;
                    lemma_pending_map_at(pairs_of(entries@), j);
                }
                if pending_map(pairs_of(entries@)).contains_key(k) {
                    let j = choose|j: int| 0 <= j < n && #[trigger] pairs_of(entries@)[j].0 == k;
                    lemma_pending_map_at(pairs_of(entries@), j);
                }
            }
        }
        self.entries = entries;
        expired
    }

    /// What to do with the file waiting under `filename`: its operation, and its
    /// name joined to its source folder and to its destination folder.
    pub fn plan_operation(&self, filename: &String) -> (r: Option<PlannedOperation>)
        ensures
            match r {
                Some(p) => self@.contains_key(spec_components(filename@)) && p.file_operation_type
                    == self@[spec_components(filename@)].file_operation_type && p.source_path@ == spec_join(
                    self@[spec_components(filename@)].source_folder,
                    filename@,
                ) && p.destination_path@ == spec_join(
                    self@[spec_components(filename@)].destination_folder,
                    filename@,
                ),
                None => !self@.contains_key(spec_components(filename@)),
            },
    {
        match self.get(filename) {
            Some(info) => Some(
                PlannedOperation {
                    file_operation_type: info.file_operation_type,
                    source_path: path_join(info.source_folder.as_str(), filename.as_str()),
                    destination_path: path_join(
                        info.destination_folder.as_str(),
                        filename.as_str(),
                    ),
                },
            ),
            None => None,
        }
    }

    /// What an attempt on the file waiting under `filename` leaves behind. On
    /// success the file stops waiting and the event of its move is given. On
    /// failure it stops waiting if no attempts were left, and otherwise has one
    /// attempt less. A name that is not waiting changes nothing.
    pub fn record_outcome(&mut self, filename: &String, succeeded: bool) -> (r: Option<EventType>)
        ensures
            final(self)@ == spec_record_outcome(old(self)@, spec_components(filename@), succeeded),
            final(self).names() == spec_record_names(
                old(self).names(),
                old(self)@,
                spec_components(filename@),
                succeeded,
            ),
            r is Some <==> old(self)@.contains_key(spec_components(filename@)) && succeeded,
            r matches Some(e) ==> (e matches EventType::FileMoved(info) && info.filepath@
                == spec_join(old(self)@[spec_components(filename@)].source_folder, filename@)
                && info.destination_path@ == spec_join(
                old(self)@[spec_components(filename@)].destination_folder,
                filename@,
            )),
    {
        proof {
            self.lemma_names_cover();
        }
        let mut entries = self.take_entries();
        let ghost kv = pairs_of(entries@);
        let ghost nkv = name_pairs_of(entries@);
        proof {
            lemma_same_keys(kv, nkv);
        }
        let k = match find_entry(&entries, filename) {
            Some(k) => k,
            None => {
                proof {
                    assert(!pending_map(kv).contains_key(spec_components(filename@)));
                }
                self.entries = entries;
                return None;
            },
        };
        proof {
            lemma_pending_map_at(kv, k as int);
        }
        if succeeded {
            let filepath = path_join(entries[k].info.source_folder.as_str(), filename.as_str());
            let destination_path = path_join(
                entries[k].info.destination_folder.as_str(),
                filename.as_str(),
            );
            proof {
                lemma_pending_map_remove(kv, k as int);
                lemma_pending_map_remove(nkv, k as int);
            }
            entries.remove(k);
            proof {
                assert(pairs_of(entries@) =~= kv.remove(k as int));
                assert(name_pairs_of(entries@) =~= nkv.remove(k as int));
            }
            self.entries = entries;
            Some(EventType::FileMoved(FileEventInfo { filepath, destination_path }))
        } else {
            if entries[k].info.attempts == 0 {
                proof {
                    lemma_pending_map_remove(kv, k as int);
                    lemma_pending_map_remove(nkv, k as int);
                }
                entries.remove(k);
                proof {
                    assert(pairs_of(entries@) =~= kv.remove(k as int));
                    assert(name_pairs_of(entries@) =~= nkv.remove(k as int));
                }
            } else {
                let ghost before = entries@;
                let a = entries[k].info.attempts - 1;
                entries[k].info.attempts = a;
                proof {
                    let v = entries@[k as int].info@;
                    lemma_pending_map_update(kv, k as int, v);
                    assert(pairs_of(entries@) =~= kv.update(k as int, (kv[k as int].0, v)));
                    assert(name_pairs_of(entries@) =~= nkv) by {
                        assert forall|j: int| 0 <= j < nkv.len() implies #[trigger] name_pairs_of(
                            entries@,
                        )[j] == nkv[j] by {
                            if j != k {
                                assert(entries@[j] == before[j]);
                            }
                        }
                    }
                }
            }
            self.entries = entries;
            None
        }
    }
}

} // verus!
