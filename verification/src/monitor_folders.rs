//! Which folders are watched: the source folders of the enabled monitors.
use vstd::prelude::*;

use crate::config::file_handling_config::{FileHandlingConfig, FolderMonitorView, monitors_view};

verus! {

/// A folder to watch and the folder its files go to.
#[derive(Debug)]
pub struct WatchTarget {
    pub source_folder: String,
    pub destination_folder: String,
}

/// Source and destination of each enabled monitor, in order.
pub open spec fn spec_watch_targets(ms: Seq<FolderMonitorView>) -> Seq<(Seq<char>, Seq<char>)>
    decreases ms.len(),
{
    if ms.len() == 0 {
        Seq::empty()
    } else {
        let rest = spec_watch_targets(ms.drop_last());
        if ms.last().enabled {
            rest.push((ms.last().source_folder, ms.last().destination_folder))
        } else {
            rest
        }
    }
}

/// Whether a monitor is enabled.
pub open spec fn is_enabled(m: FolderMonitorView) -> bool {
    m.enabled
}

/// Source and destination folders of a monitor.
pub open spec fn folders_of(m: FolderMonitorView) -> (Seq<char>, Seq<char>) {
    (m.source_folder, m.destination_folder)
}

/// The folders to watch are those of the enabled monitors, one entry for each, in
/// their order: there are as many as there are enabled monitors, and the k-th is
/// the source and destination of the k-th enabled monitor.
pub proof fn lemma_watch_targets_are_enabled_monitors(ms: Seq<FolderMonitorView>)
    ensures
        spec_watch_targets(ms) == ms.filter(|m: FolderMonitorView| is_enabled(m)).map_values(
            |m: FolderMonitorView| folders_of(m),
        ),
        spec_watch_targets(ms).len() == ms.filter(|m: FolderMonitorView| is_enabled(m)).len(),
    decreases ms.len(),
{
    reveal(Seq::filter);
    let pred = |m: FolderMonitorView| is_enabled(m);
    let g = |m: FolderMonitorView| folders_of(m);
    if ms.len() > 0 {
        lemma_watch_targets_are_enabled_monitors(ms.drop_last());
        let sub = ms.drop_last().filter(pred);
        if is_enabled(ms.last()) {
            assert(ms.filter(pred) == sub.push(ms.last()));
            assert(sub.push(ms.last()).map_values(g) =~= sub.map_values(g).push(g(ms.last())));
        } else {
            assert(ms.filter(pred) == sub);
        }
    } else {
        assert(ms.filter(pred).map_values(g) =~= Seq::<(Seq<char>, Seq<char>)>::empty());
    }
}

/// The source and destination folders of a list of targets.
pub open spec fn targets_view(ts: Seq<WatchTarget>) -> Seq<(Seq<char>, Seq<char>)> {
    ts.map_values(|t: WatchTarget| (t.source_folder@, t.destination_folder@))
}

impl FileHandlingConfig {
    /// The folders to watch: source and destination of every enabled monitor, in
    /// the order of the monitors. Disabled monitors are left out.
    pub fn watch_targets(&self) -> (r: Vec<WatchTarget>)
        ensures
            targets_view(r@) == spec_watch_targets(self@.folder_monitors),
    {
        let ghost mv = monitors_view(self.folder_monitors@);
        let n = self.folder_monitors.len();
        let mut r: Vec<WatchTarget> = Vec::new();
        proof {
            assert(mv.take(0) =~= Seq::<FolderMonitorView>::empty());
            assert(targets_view(r@) =~= Seq::empty());
        }
        for i in 0..n
            invariant
                n == self.folder_monitors.len(),
                mv == monitors_view(self.folder_monitors@),
                mv.len() == n,
                targets_view(r@) == spec_watch_targets(mv.take(i as int)),
        {
            let m = &self.folder_monitors[i];
            proof {
                assert(mv.take(i + 1).drop_last() =~= mv.take(i as int));
                assert(mv.take(i + 1).last() == m@);
            }
            if m.enabled {
                let ghost prev = r@;
                r.push(
                    WatchTarget {
                        source_folder: m.source_folder.clone(),
                        destination_folder: m.destination_folder.clone(),
                    },
                );
                proof {
                    assert(targets_view(r@) =~= targets_view(prev).push(
                        (m.source_folder@, m.destination_folder@),
                    ));
                }
            }
        }
        proof {
            assert(mv.take(n as int) =~= mv);
        }
        r
    }
}

} // verus!
