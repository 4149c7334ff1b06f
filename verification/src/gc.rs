//! Retention garbage collection: which local checkpoints may be deleted.
//!
//! A local checkpoint may go once every configured readiness marker in its
//! directory has been read. A marker that is absent and one that could not be
//! read both mean: not yet.

use crate::gap::MarkerRead;
use crate::handler::DBCheckpointHandler;
use crate::ordered::{
    ascending_epochs, epochs_below, lemma_epochs_below, lemma_epochs_below_skip,
    lemma_last_is_highest, lemma_no_key_between, lemma_no_keys, lists_keys_ascending, lookup,
};
use crate::store_path::{child_of, path_child};
use std::collections::BTreeMap;
use vstd::prelude::*;

verus! {

/// Whether a local checkpoint may be deleted.
#[derive(Clone, Copy, Debug, PartialEq, Eq, Structural)]
pub enum EpochLocalReadiness {
    /// Some configured marker is absent or could not be read.
    NotReady,
    /// Every configured marker was read.
    Ready,
}

/// Readiness of one checkpoint from the reads of its markers, one read for
/// each of the `markers` configured markers.
pub open spec fn local_readiness(reads: Seq<MarkerRead>, markers: nat) -> EpochLocalReadiness {
    if reads.len() == markers && (forall|i: int| 0 <= i < reads.len() ==> reads[i] is Found) {
        EpochLocalReadiness::Ready
    } else {
        EpochLocalReadiness::NotReady
    }
}

/// The marker reads of each epoch as sequences.
pub open spec fn reads_of(reads: Map<u32, Vec<MarkerRead>>) -> Map<u32, Seq<MarkerRead>> {
    reads.map_values(|r: Vec<MarkerRead>| r@)
}

/// A local checkpoint is collectable when it is in the local index and the
/// reads recorded for it make it ready. A checkpoint without recorded reads
/// is not collectable.
pub open spec fn is_collectable<V>(
    local: Map<u32, V>,
    reads: Map<u32, Seq<MarkerRead>>,
    markers: nat,
    epoch: u32,
) -> bool {
    &&& local.contains_key(epoch)
    &&& reads.contains_key(epoch)
    &&& local_readiness(reads[epoch], markers) is Ready
}

/// The epochs that one garbage collection pass deletes, in the order in
/// which it deletes them.
pub open spec fn collectable_epochs<V>(
    local: Map<u32, V>,
    reads: Map<u32, Seq<MarkerRead>>,
    markers: nat,
) -> Seq<u32> {
    epochs_below(|e: u32| is_collectable(local, reads, markers, e), 0x1_0000_0000)
}

/// A pass deletes exactly the collectable checkpoints, each once, in
/// ascending order of epoch. In particular a checkpoint with one configured
/// marker absent is not deleted, and deleting one checkpoint never selects a
/// sibling.
pub proof fn lemma_collectable_epochs<V>(
    local: Map<u32, V>,
    reads: Map<u32, Seq<MarkerRead>>,
    markers: nat,
)
    ensures
        forall|e: u32|
            collectable_epochs(local, reads, markers).contains(e) <==> is_collectable(
                local,
                reads,
                markers,
                e,
            ),
        forall|i: int, j: int|
            0 <= i < j < collectable_epochs(local, reads, markers).len() ==> collectable_epochs(
                local,
                reads,
                markers,
            )[i] < collectable_epochs(local, reads, markers)[j],
{
    let wanted = |e: u32| is_collectable(local, reads, markers, e);
    let plan = collectable_epochs(local, reads, markers);
    lemma_epochs_below(wanted, 0x1_0000_0000);
    assert forall|e: u32| plan.contains(e) implies is_collectable(local, reads, markers, e) by {
        let k = choose|k: int| 0 <= k < plan.len() && plan[k] == e;
        assert(wanted(plan[k]));
    }
    assert forall|e: u32| is_collectable(local, reads, markers, e) implies plan.contains(e) by {
        assert(wanted(e));
    }
}

/// Readiness of one checkpoint from the reads of its markers.
pub fn epoch_local_readiness(reads: &Vec<MarkerRead>, markers: usize) -> (readiness:
    EpochLocalReadiness)
    ensures
        readiness == local_readiness(reads@, markers as nat),
{
    if reads.len() != markers {
        return EpochLocalReadiness::NotReady;
    }
    let mut i: usize = 0;
    while i < reads.len()
        invariant
            i <= reads.len(),
            forall|k: int| 0 <= k < i ==> reads@[k] is Found,
        decreases reads.len() - i,
    {
        match reads[i] {
            MarkerRead::Found => {},
            _ => {
                return EpochLocalReadiness::NotReady;
            },
        }
        i += 1;
    }
    EpochLocalReadiness::Ready
}

/// Where the readiness markers of one local checkpoint are to be read.
#[derive(Debug, PartialEq, Eq)]
pub struct ReadinessProbe {
    pub epoch: u32,
    /// Locations of the configured markers in the local store, in the order
    /// in which they are configured.
    pub paths: Vec<String>,
}

/// The epochs of a list of probes.
pub open spec fn readiness_probe_epochs(probes: Seq<ReadinessProbe>) -> Seq<u32> {
    probes.map_values(|probe: ReadinessProbe| probe.epoch)
}

/// `paths` are the locations of the markers `markers` inside the directory
/// at `location`, in the same order.
pub open spec fn are_marker_paths(
    paths: Seq<String>,
    location: Seq<char>,
    markers: Seq<Seq<char>>,
) -> bool {
    &&& paths.len() == markers.len()
    &&& forall|i: int|
        0 <= i < markers.len() ==> (#[trigger] paths[i])@ == path_child(location, markers[i])
}

/// The locations of the markers `markers` inside the directory at
/// `location`, in the same order.
fn marker_paths(location: &str, markers: &Vec<String>) -> (paths: Vec<String>)
    ensures
        are_marker_paths(paths@, location@, markers@.map_values(|name: String| name@)),
{
    let mut paths: Vec<String> = Vec::new();
    let mut i: usize = 0;
    while i < markers.len()
        invariant
            i <= markers.len(),
            paths@.len() == i,
            forall|k: int|
                0 <= k < i ==> (#[trigger] paths@[k])@ == path_child(location@, markers@[k]@),
        decreases markers.len() - i,
    {
        paths.push(child_of(location, markers[i].as_str()));
        i += 1;
    }
    paths
}

impl DBCheckpointHandler {
    /// Lists, in ascending order of epoch, where the configured readiness
    /// markers of each local checkpoint are to be read.
    pub fn readiness_marker_probes(&self, local: &BTreeMap<u32, String>) -> (probes: Vec<
        ReadinessProbe,
    >)
        ensures
            lists_keys_ascending(readiness_probe_epochs(probes@), local@),
            forall|i: int|
                0 <= i < probes@.len() ==> are_marker_paths(
                    (#[trigger] probes@[i]).paths@,
                    local@[probes@[i].epoch]@,
                    self.marker_names(),
                ),
    {
        let epochs = ascending_epochs(local);
        let mut probes: Vec<ReadinessProbe> = Vec::new();
        let mut i: usize = 0;
        while i < epochs.len()
            invariant
                i <= epochs.len(),
                lists_keys_ascending(epochs@, local@),
                probes@.len() == i,
                readiness_probe_epochs(probes@) == epochs@.subrange(0, i as int),
                forall|k: int|
                    0 <= k < probes@.len() ==> are_marker_paths(
                        (#[trigger] probes@[k]).paths@,
                        local@[probes@[k].epoch]@,
                        self.marker_names(),
                    ),
            decreases epochs.len() - i,
        {
            let epoch = epochs[i];
            let ghost before = probes@;
            assert(epochs@.contains(epoch));
            match lookup(local, epoch) {
                Some(location) => {
                    let paths = marker_paths(location.as_str(), self.gc_markers());
                    probes.push(ReadinessProbe { epoch, paths });
                },
                None => {},
            }
            assert forall|k: int| 0 <= k < i implies readiness_probe_epochs(probes@)[k]
                == epochs@[k] by {
                assert(readiness_probe_epochs(before)[k] == epochs@.subrange(0, i as int)[k]);
            }
            assert(readiness_probe_epochs(probes@) =~= epochs@.subrange(0, i + 1));
            i += 1;
        }
        assert(epochs@.subrange(0, i as int) =~= epochs@);
        probes
    }

    /// Plans one garbage collection pass: the local epochs to delete, in
    /// ascending order. An epoch is deleted exactly if it is in the local
    /// index and `reads` holds for it one read for each configured marker,
    /// all of which found their marker.
    pub fn garbage_collect_old_db_checkpoints(
        &self,
        local: &BTreeMap<u32, String>,
        reads: &BTreeMap<u32, Vec<MarkerRead>>,
    ) -> (deletions: Vec<u32>)
        ensures
            deletions@ == collectable_epochs(
                local@,
                reads_of(reads@),
                self.marker_names().len(),
            ),
    {
        let markers = self.gc_markers().len();
        let ghost wanted = |e: u32| is_collectable(local@, reads_of(reads@), markers as nat, e);
        let epochs = ascending_epochs(local);
        let mut deletions: Vec<u32> = Vec::new();
        let ghost mut done: nat = 0;
        let mut i: usize = 0;
        while i < epochs.len()
            invariant
                i <= epochs.len(),
                lists_keys_ascending(epochs@, local@),
                wanted == |e: u32| is_collectable(local@, reads_of(reads@), markers as nat, e),
                i == 0 ==> done == 0,
                i > 0 ==> done == epochs@[i - 1] + 1,
                deletions@ == epochs_below(wanted, done),
            decreases epochs.len() - i,
        {
            let epoch = epochs[i];
            proof {
                assert(epochs@.contains(epoch));
                assert forall|e: u32| done <= e < epoch implies !#[trigger] wanted(e) by {
                    lemma_no_key_between(epochs@, local@, i as int, e);
                }
                lemma_epochs_below_skip(wanted, done, epoch as nat);
            }
            match lookup(reads, epoch) {
                Some(epoch_reads) => {
                    match epoch_local_readiness(epoch_reads, markers) {
                        EpochLocalReadiness::Ready => {
                            deletions.push(epoch);
                        },
                        EpochLocalReadiness::NotReady => {},
                    }
                },
                None => {},
            }
            proof {
                done = (epoch + 1) as nat;
            }
            i += 1;
        }
        proof {
            if epochs.len() == 0 {
                lemma_no_keys(epochs@, local@);
            } else {
                lemma_last_is_highest(epochs@, local@);
            }
            lemma_epochs_below_skip(wanted, done, 0x1_0000_0000);
        }
        deletions
    }
}

} // verus!
