//! Gap detection: which epochs does the remote store lack?
//!
//! The remote store is observed as a map from each epoch that has a directory
//! there to the outcome of reading that directory's completion marker.

use crate::handler::DBCheckpointHandler;
use crate::markers::SUCCESS_MARKER;
use crate::ordered::{
    ascending_epochs, epochs_below, lemma_epochs_below, lemma_last_is_highest,
    lemma_no_key_between, lemma_no_keys, lists_keys_ascending, lookup,
};
use crate::store_path::{child_of, path_child};
use std::collections::BTreeMap;
use vstd::prelude::*;

verus! {

/// Outcome of an attempt to read one marker object.
#[derive(Clone, Copy, Debug, PartialEq, Eq, Structural)]
pub enum MarkerRead {
    /// The marker was read.
    Found,
    /// The store answered that no such object exists.
    NotFound,
    /// The read failed for any other reason.
    Failed,
}

/// Where an epoch stands in the remote store.
#[derive(Clone, Copy, Debug, PartialEq, Eq, Structural)]
pub enum EpochRemoteStatus {
    /// Directory and completion marker are both there.
    Synced,
    /// The directory is there, the completion marker is definitely not.
    Incomplete,
    /// There is no directory for the epoch.
    Gap,
    /// The directory is there, but reading its marker failed for a reason
    /// other than absence. Nothing is concluded in this cycle, however often
    /// the read has failed before: the epoch is neither missing nor synced.
    Unresolved,
}

/// Classification of `epoch` against the observed remote store.
pub open spec fn remote_status(remote: Map<u32, MarkerRead>, epoch: u32) -> EpochRemoteStatus {
    if !remote.contains_key(epoch) {
        EpochRemoteStatus::Gap
    } else {
        match remote[epoch] {
            MarkerRead::Found => EpochRemoteStatus::Synced,
            MarkerRead::NotFound => EpochRemoteStatus::Incomplete,
            MarkerRead::Failed => EpochRemoteStatus::Unresolved,
        }
    }
}

/// An epoch is missing when it is a gap or incomplete. A failed read never
/// makes an epoch missing.
pub open spec fn is_missing(remote: Map<u32, MarkerRead>, epoch: u32) -> bool {
    remote_status(remote, epoch) is Gap || remote_status(remote, epoch) is Incomplete
}

/// One past the highest key of `index` below `n`; 0 if there is none.
pub open spec fn boundary_below<V>(index: Map<u32, V>, n: nat) -> nat
    decreases n,
{
    if n == 0 {
        0
    } else if index.contains_key((n - 1) as u32) {
        n
    } else {
        boundary_below(index, (n - 1) as nat)
    }
}

/// One past the highest epoch of `index`; 0 for an empty index.
pub open spec fn boundary<V>(index: Map<u32, V>) -> nat {
    boundary_below(index, 0x1_0000_0000)
}

/// The missing epochs below `n`, ascending.
pub open spec fn missing_below(remote: Map<u32, MarkerRead>, n: nat) -> Seq<u32> {
    epochs_below(|e: u32| is_missing(remote, e), n)
}

/// The missing-epoch list: every missing epoch below the boundary, ascending,
/// followed by the boundary itself as a sentinel.
pub open spec fn missing_epochs(remote: Map<u32, MarkerRead>) -> Seq<u32> {
    missing_below(remote, boundary(remote)).push(boundary(remote) as u32)
}

/// `boundary_below` finds the highest key below `n`.
pub proof fn lemma_boundary_below<V>(index: Map<u32, V>, n: nat)
    requires
        n <= 0x1_0000_0000,
    ensures
        boundary_below(index, n) <= n,
        forall|e: u32| index.contains_key(e) && e < n ==> e < boundary_below(index, n),
        boundary_below(index, n) > 0 ==> index.contains_key((boundary_below(index, n) - 1) as u32),
    decreases n,
{
    if n > 0 && !index.contains_key((n - 1) as u32) {
        lemma_boundary_below(index, (n - 1) as nat);
    }
}

/// The boundary is above every key, and just above some key unless the index
/// is empty.
pub proof fn lemma_boundary<V>(index: Map<u32, V>)
    ensures
        boundary(index) <= 0x1_0000_0000,
        forall|e: u32| index.contains_key(e) ==> e < boundary(index),
        boundary(index) > 0 ==> index.contains_key((boundary(index) - 1) as u32),
        boundary(index) == 0 <==> (forall|e: u32| !index.contains_key(e)),
{
    lemma_boundary_below(index, 0x1_0000_0000);
}

/// A number that is above every key and just above some key, or 0 for an
/// empty index, is the boundary.
pub proof fn lemma_boundary_unique<V>(index: Map<u32, V>, b: nat)
    requires
        b <= 0x1_0000_0000,
        forall|e: u32| index.contains_key(e) ==> e < b,
        b > 0 ==> index.contains_key((b - 1) as u32),
    ensures
        boundary(index) == b,
{
    lemma_boundary(index);
}

/// The missing-epoch list is never empty, ends with the boundary and is
/// strictly ascending.
pub proof fn lemma_missing_epochs_ascending(remote: Map<u32, MarkerRead>)
    requires
        forall|e: u32| remote.contains_key(e) ==> e < u32::MAX,
    ensures
        missing_epochs(remote).len() >= 1,
        missing_epochs(remote).last() == boundary(remote),
        forall|i: int, j: int|
            0 <= i < j < missing_epochs(remote).len() ==> missing_epochs(remote)[i]
                < missing_epochs(remote)[j],
{
    lemma_boundary(remote);
    lemma_epochs_below(|e: u32| is_missing(remote, e), boundary(remote));
}

/// An epoch is on the missing-epoch list exactly if it is the boundary, or
/// lies below the boundary and is a gap or incomplete. The list thus holds
/// the whole range that the remote epochs imply, not only the epochs seen.
pub proof fn lemma_missing_epochs_contains(remote: Map<u32, MarkerRead>, epoch: u32)
    requires
        forall|e: u32| remote.contains_key(e) ==> e < u32::MAX,
    ensures
        missing_epochs(remote).contains(epoch) <==> epoch == boundary(remote) || (epoch < boundary(
            remote,
        ) && is_missing(remote, epoch)),
{
    lemma_boundary(remote);
    let b = boundary(remote);
    let wanted = |e: u32| is_missing(remote, e);
    let below = missing_below(remote, b);
    let all = missing_epochs(remote);
    lemma_epochs_below(wanted, b);
    if epoch == b {
        assert(all[below.len() as int] == epoch);
    } else if epoch < b && is_missing(remote, epoch) {
        assert(wanted(epoch));
        let k = choose|k: int| 0 <= k < below.len() && below[k] == epoch;
        assert(all[k] == epoch);
    } else if all.contains(epoch) {
        let k = choose|k: int| 0 <= k < all.len() && all[k] == epoch;
        assert(k < below.len());
        assert(wanted(below[k]));
    }
}

/// The first entry of the missing-epoch list is the lowest epoch that is a
/// gap or incomplete, whichever of the two it is; if no epoch below the
/// boundary is missing, it is the boundary.
pub proof fn lemma_first_missing_is_lowest(remote: Map<u32, MarkerRead>)
    requires
        forall|e: u32| remote.contains_key(e) ==> e < u32::MAX,
    ensures
        missing_epochs(remote)[0] <= boundary(remote),
        missing_epochs(remote)[0] < boundary(remote) ==> is_missing(
            remote,
            missing_epochs(remote)[0],
        ),
        forall|e: u32| e < missing_epochs(remote)[0] ==> !is_missing(remote, e),
{
    lemma_boundary(remote);
    lemma_missing_epochs_ascending(remote);
    let all = missing_epochs(remote);
    let first = all[0];
    assert(all.contains(first));
    lemma_missing_epochs_contains(remote, first);
    assert(all[all.len() - 1] == boundary(remote));
    assert forall|e: u32| e < first implies !is_missing(remote, e) by {
        if is_missing(remote, e) {
            lemma_missing_epochs_contains(remote, e);
            let k = choose|k: int| 0 <= k < all.len() && all[k] == e;
            if k > 0 {
                assert(all[0] < all[k]);
            }
        }
    }
}

/// Classifies `epoch` against the observed remote store.
pub fn epoch_remote_status(remote: &BTreeMap<u32, MarkerRead>, epoch: u32) -> (status:
    EpochRemoteStatus)
    ensures
        status == remote_status(remote@, epoch),
{
    match lookup(remote, epoch) {
        None => EpochRemoteStatus::Gap,
        Some(MarkerRead::Found) => EpochRemoteStatus::Synced,
        Some(MarkerRead::NotFound) => EpochRemoteStatus::Incomplete,
        Some(MarkerRead::Failed) => EpochRemoteStatus::Unresolved,
    }
}

/// Where the completion marker of one remote checkpoint is to be read.
#[derive(Debug, PartialEq, Eq)]
pub struct MarkerProbe {
    pub epoch: u32,
    /// Location of the completion marker in the remote store.
    pub path: String,
}

/// The epochs of a list of probes.
pub open spec fn probe_epochs(probes: Seq<MarkerProbe>) -> Seq<u32> {
    probes.map_values(|probe: MarkerProbe| probe.epoch)
}

impl DBCheckpointHandler {
    /// Lists, in ascending order of epoch, where the completion marker of
    /// each checkpoint of the remote index is to be read.
    pub fn completion_marker_probes(&self, remote_index: &BTreeMap<u32, String>) -> (probes: Vec<
        MarkerProbe,
    >)
        ensures
            lists_keys_ascending(probe_epochs(probes@), remote_index@),
            forall|i: int|
                0 <= i < probes@.len() ==> (#[trigger] probes@[i]).path@ == path_child(
                    remote_index@[probes@[i].epoch]@,
                    SUCCESS_MARKER@,
                ),
    {
        let epochs = ascending_epochs(remote_index);
        let mut probes: Vec<MarkerProbe> = Vec::new();
        let mut i: usize = 0;
        while i < epochs.len()
            invariant
                i <= epochs.len(),
                lists_keys_ascending(epochs@, remote_index@),
                probes@.len() == i,
                probe_epochs(probes@) == epochs@.subrange(0, i as int),
                forall|k: int|
                    0 <= k < probes@.len() ==> (#[trigger] probes@[k]).path@ == path_child(
                        remote_index@[probes@[k].epoch]@,
                        SUCCESS_MARKER@,
                    ),
            decreases epochs.len() - i,
        {
            let epoch = epochs[i];
            let ghost before = probes@;
            assert(epochs@.contains(epoch));
            match lookup(remote_index, epoch) {
                Some(location) => {
                    let path = child_of(location.as_str(), SUCCESS_MARKER);
                    probes.push(MarkerProbe { epoch, path });
                },
                None => {},
            }
            assert forall|k: int| 0 <= k < i implies probe_epochs(probes@)[k] == epochs@[k] by {
                assert(probe_epochs(before)[k] == epochs@.subrange(0, i as int)[k]);
            }
            assert(probe_epochs(probes@) =~= epochs@.subrange(0, i + 1));
            i += 1;
        }
        assert(epochs@.subrange(0, i as int) =~= epochs@);
        probes
    }

    /// Computes the missing-epoch list from the observed remote store: every
    /// epoch below the boundary that is a gap or incomplete, in ascending
    /// order, then the boundary.
    ///
    /// The boundary is one past the highest remote epoch, so that epoch must
    /// be below `u32::MAX`.
    pub fn find_all_missing_checkpoint_epochs(&self, remote: &BTreeMap<u32, MarkerRead>) -> (missing:
        Vec<u32>)
        requires
            forall|e: u32| remote@.contains_key(e) ==> e < u32::MAX,
        ensures
            missing@ == missing_epochs(remote@),
    {
        let epochs = ascending_epochs(remote);
        let mut candidate: u32 = 0;
        let mut missing: Vec<u32> = Vec::new();
        let mut i: usize = 0;
        while i < epochs.len()
            invariant
                i <= epochs.len(),
                lists_keys_ascending(epochs@, remote@),
                forall|e: u32| remote@.contains_key(e) ==> e < u32::MAX,
                i == 0 ==> candidate == 0,
                i > 0 ==> candidate == epochs@[i - 1] + 1,
                missing@ == missing_below(remote@, candidate as nat),
            decreases epochs.len() - i,
        {
            let epoch = epochs[i];
            assert(epochs@.contains(epoch));
            while candidate < epoch
                invariant
                    candidate <= epoch,
                    i < epochs.len(),
                    epoch == epochs@[i as int],
                    lists_keys_ascending(epochs@, remote@),
                    i > 0 ==> candidate > epochs@[i - 1],
                    missing@ == missing_below(remote@, candidate as nat),
                decreases epoch - candidate,
            {
                proof {
                    lemma_no_key_between(epochs@, remote@, i as int, candidate);
                }
                missing.push(candidate);
                candidate += 1;
            }
            let status = epoch_remote_status(remote, epoch);
            match status {
                EpochRemoteStatus::Incomplete => {
                    missing.push(epoch);
                },
                _ => {},
            }
            candidate += 1;
            i += 1;
        }
        proof {
            if epochs.len() == 0 {
                lemma_no_keys(epochs@, remote@);
            } else {
                lemma_last_is_highest(epochs@, remote@);
            }
            lemma_boundary_unique(remote@, candidate as nat);
        }
        missing.push(candidate);
        missing
    }
}

} // verus!
