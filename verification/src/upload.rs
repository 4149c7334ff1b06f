//! The upload cycle: which local checkpoints are copied to the remote store,
//! and in which order the steps of one cycle are carried out.

use crate::epoch_index::locations;
use crate::gap::{
    is_missing, lemma_boundary, lemma_missing_epochs_contains, missing_epochs, MarkerRead,
};
use crate::handler::DBCheckpointHandler;
use crate::markers::{SUCCESS_MARKER, UPLOAD_COMPLETED_MARKER};
use crate::ordered::{
    ascending_epochs, lemma_last_is_highest, lemma_no_key_between, lemma_no_keys,
    lists_keys_ascending, lookup,
};
use crate::store_path::{child_of, path_child};
use std::collections::BTreeMap;
use vstd::prelude::*;

verus! {

/// How many files of one directory may be copied at the same time.
pub const COPY_CONCURRENCY: usize = 20;

/// One step of an upload cycle. The steps of a cycle are carried out in
/// order, and the first step that fails ends the cycle.
#[derive(Debug, PartialEq, Eq)]
pub enum UploadAction {
    /// Prune and compact the local checkpoint at `location` in place.
    PruneAndCompact { epoch: u32, location: String },
    /// Copy every file under the local `location` to the same location in the
    /// remote store.
    CopyDirectory { epoch: u32, location: String },
    /// Write the completion marker at `path` in the remote store.
    WriteRemoteMarker { epoch: u32, path: String },
    /// Write the upload-completed marker at `path` in the local store.
    WriteLocalMarker { epoch: u32, path: String },
}

/// An upload step as a mathematical value.
pub enum UploadStep {
    PruneAndCompact { epoch: u32, location: Seq<char> },
    CopyDirectory { epoch: u32, location: Seq<char> },
    WriteRemoteMarker { epoch: u32, path: Seq<char> },
    WriteLocalMarker { epoch: u32, path: Seq<char> },
}

impl View for UploadAction {
    type V = UploadStep;

    open spec fn view(&self) -> UploadStep {
        match *self {
            UploadAction::PruneAndCompact { epoch, location } => UploadStep::PruneAndCompact {
                epoch,
                location: location@,
            },
            UploadAction::CopyDirectory { epoch, location } => UploadStep::CopyDirectory {
                epoch,
                location: location@,
            },
            UploadAction::WriteRemoteMarker { epoch, path } => UploadStep::WriteRemoteMarker {
                epoch,
                path: path@,
            },
            UploadAction::WriteLocalMarker { epoch, path } => UploadStep::WriteLocalMarker {
                epoch,
                path: path@,
            },
        }
    }
}

/// The steps of a list of actions.
pub open spec fn steps_of(actions: Seq<UploadAction>) -> Seq<UploadStep> {
    actions.map_values(|a: UploadAction| a@)
}

/// The sentinel of a missing-epoch list: its last entry, or 0 for an empty
/// list.
pub open spec fn upload_boundary(missing: Seq<u32>) -> u32 {
    if missing.len() == 0 {
        0
    } else {
        missing.last()
    }
}

/// A local epoch is copied if it is on the missing-epoch list or at or beyond
/// its sentinel.
pub open spec fn is_selected(missing: Seq<u32>, epoch: u32) -> bool {
    missing.contains(epoch) || epoch >= upload_boundary(missing)
}

/// The steps for one local checkpoint: if it is selected, an optional prune,
/// the copy and the remote completion marker, in this order; then, selected
/// or not, the local upload-completed marker.
pub open spec fn epoch_steps(epoch: u32, location: Seq<char>, selected: bool, prune: bool) -> Seq<
    UploadStep,
> {
    let pruning = if selected && prune {
        seq![UploadStep::PruneAndCompact { epoch, location }]
    } else {
        Seq::empty()
    };
    let copying = if selected {
        seq![
            UploadStep::CopyDirectory { epoch, location },
            UploadStep::WriteRemoteMarker { epoch, path: path_child(location, SUCCESS_MARKER@) },
        ]
    } else {
        Seq::empty()
    };
    pruning + copying + seq![
        UploadStep::WriteLocalMarker { epoch, path: path_child(location, UPLOAD_COMPLETED_MARKER@) },
    ]
}

/// The steps for the local checkpoints with an epoch below `n`, in ascending
/// order of epoch.
pub open spec fn upload_steps_below(
    missing: Seq<u32>,
    local: Map<u32, Seq<char>>,
    prune: bool,
    n: nat,
) -> Seq<UploadStep>
    decreases n,
{
    if n == 0 {
        Seq::empty()
    } else {
        let earlier = upload_steps_below(missing, local, prune, (n - 1) as nat);
        let epoch = (n - 1) as u32;
        if local.contains_key(epoch) {
            earlier + epoch_steps(epoch, local[epoch], is_selected(missing, epoch), prune)
        } else {
            earlier
        }
    }
}

/// The steps of one upload cycle over the local index.
pub open spec fn upload_steps(missing: Seq<u32>, local: Map<u32, Seq<char>>, prune: bool) -> Seq<
    UploadStep,
> {
    upload_steps_below(missing, local, prune, 0x1_0000_0000)
}

/// Epochs without a local checkpoint contribute no steps.
pub proof fn lemma_upload_steps_skip(
    missing: Seq<u32>,
    local: Map<u32, Seq<char>>,
    prune: bool,
    m: nat,
    n: nat,
)
    requires
        m <= n <= 0x1_0000_0000,
        forall|e: u32| m <= e < n ==> !local.contains_key(e),
    ensures
        upload_steps_below(missing, local, prune, n) == upload_steps_below(missing, local, prune, m),
    decreases n,
{
    if m < n {
        lemma_upload_steps_skip(missing, local, prune, m, (n - 1) as nat);
    }
}

/// The remote completion marker of an epoch is written directly after the
/// copy of its directory, and in no other place: a cycle that ends early
/// leaves no completion marker behind for a directory that it did not copy
/// to the end.
pub proof fn lemma_marker_follows_copy(
    missing: Seq<u32>,
    local: Map<u32, Seq<char>>,
    prune: bool,
    n: nat,
    i: int,
)
    requires
        0 <= i < upload_steps_below(missing, local, prune, n).len(),
        upload_steps_below(missing, local, prune, n)[i] is WriteRemoteMarker,
    ensures
        i > 0,
        upload_steps_below(missing, local, prune, n)[i - 1] is CopyDirectory,
        upload_steps_below(missing, local, prune, n)[i - 1]->CopyDirectory_epoch
            == upload_steps_below(missing, local, prune, n)[i]->WriteRemoteMarker_epoch,
    decreases n,
{
    if n > 0 {
        let earlier = upload_steps_below(missing, local, prune, (n - 1) as nat);
        let epoch = (n - 1) as u32;
        if i < earlier.len() {
            lemma_marker_follows_copy(missing, local, prune, (n - 1) as nat, i);
        } else {
            let own = epoch_steps(epoch, local[epoch], is_selected(missing, epoch), prune);
            assert(upload_steps_below(missing, local, prune, n)[i] == own[i - earlier.len()]);
            assert(own[i - earlier.len() - 1] is CopyDirectory);
        }
    }
}

/// With the missing-epoch list of an observed remote store, the epochs that
/// are selected are exactly the epochs that are missing there: every gap,
/// every incomplete epoch, and every epoch beyond the highest remote one.
pub proof fn lemma_selected_iff_missing(remote: Map<u32, MarkerRead>, epoch: u32)
    requires
        forall|e: u32| remote.contains_key(e) ==> e < u32::MAX,
    ensures
        is_selected(missing_epochs(remote), epoch) <==> is_missing(remote, epoch),
{
    lemma_boundary(remote);
    lemma_missing_epochs_contains(remote, epoch);
}

/// Whether `epoch` occurs in `epochs`.
fn contains_epoch(epochs: &Vec<u32>, epoch: u32) -> (found: bool)
    ensures
        found == epochs@.contains(epoch),
{
    let mut i: usize = 0;
    while i < epochs.len()
        invariant
            i <= epochs.len(),
            forall|k: int| 0 <= k < i ==> epochs@[k] != epoch,
        decreases epochs.len() - i,
    {
        if epochs[i] == epoch {
            return true;
        }
        i += 1;
    }
    false
}

/// Whether an upload cycle with this missing-epoch list copies the local
/// checkpoint of `epoch`.
pub fn selects(missing: &Vec<u32>, epoch: u32) -> (selected: bool)
    ensures
        selected == is_selected(missing@, epoch),
{
    let boundary = if missing.len() == 0 {
        0
    } else {
        missing[missing.len() - 1]
    };
    contains_epoch(missing, epoch) || epoch >= boundary
}

/// Appends the steps for one local checkpoint to `actions`.
fn push_epoch_actions(
    actions: &mut Vec<UploadAction>,
    epoch: u32,
    location: &String,
    selected: bool,
    prune: bool,
)
    ensures
        steps_of(final(actions)@) == steps_of(old(actions)@) + epoch_steps(
            epoch,
            location@,
            selected,
            prune,
        ),
{
    let ghost before = steps_of(actions@);
    if selected {
        if prune {
            actions.push(UploadAction::PruneAndCompact { epoch, location: location.clone() });
        }
        actions.push(UploadAction::CopyDirectory { epoch, location: location.clone() });
        let path = child_of(location.as_str(), SUCCESS_MARKER);
        actions.push(UploadAction::WriteRemoteMarker { epoch, path });
    }
    let path = child_of(location.as_str(), UPLOAD_COMPLETED_MARKER);
    actions.push(UploadAction::WriteLocalMarker { epoch, path });
    assert(steps_of(actions@) =~= before + epoch_steps(epoch, location@, selected, prune));
}

impl DBCheckpointHandler {
    /// Plans one upload cycle from the missing-epoch list and the local
    /// index: for each local checkpoint in ascending order of epoch, the
    /// steps that `epoch_steps` lists. A checkpoint is copied if its epoch is
    /// on the list or at or beyond the list's sentinel; its local
    /// upload-completed marker is written in either case.
    pub fn upload_db_checkpoints_to_object_store(
        &self,
        missing_epochs: &Vec<u32>,
        local: &BTreeMap<u32, String>,
    ) -> (actions: Vec<UploadAction>)
        ensures
            steps_of(actions@) == upload_steps(
                missing_epochs@,
                locations(local@),
                self.prunes_before_upload(),
            ),
    {
        let prune = self.prune_and_compact_before_upload();
        let epochs = ascending_epochs(local);
        let mut actions: Vec<UploadAction> = Vec::new();
        let ghost mut done: nat = 0;
        let mut i: usize = 0;
        assert(steps_of(actions@) =~= Seq::empty());
        while i < epochs.len()
            invariant
                i <= epochs.len(),
                lists_keys_ascending(epochs@, local@),
                i == 0 ==> done == 0,
                i > 0 ==> done == epochs@[i - 1] + 1,
                steps_of(actions@) == upload_steps_below(
                    missing_epochs@,
                    locations(local@),
                    prune,
                    done,
                ),
            decreases epochs.len() - i,
        {
            let epoch = epochs[i];
            proof {
                assert(epochs@.contains(epoch));
                assert forall|e: u32| done <= e < epoch implies !locations(local@).contains_key(e) by {
                    lemma_no_key_between(epochs@, local@, i as int, e);
                }
                lemma_upload_steps_skip(
                    missing_epochs@,
                    locations(local@),
                    prune,
                    done,
                    epoch as nat,
                );
            }
            match lookup(local, epoch) {
                Some(location) => {
                    let selected = selects(missing_epochs, epoch);
                    push_epoch_actions(&mut actions, epoch, location, selected, prune);
                },
                None => {},
            }
            proof {
                done = (epoch + 1) as nat;
            }
            i += 1;
        }
        proof {
            if epochs.len() == 0 {
                lemma_no_keys(epochs@, local@);
            } else {
                lemma_last_is_highest(epochs@, local@);
            }
            lemma_upload_steps_skip(
                missing_epochs@,
                locations(local@),
                prune,
                done,
                0x1_0000_0000,
            );
        }
        actions
    }
}

} // verus!
