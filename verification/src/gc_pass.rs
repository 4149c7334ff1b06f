//! What a garbage collection pass does to the local store.
//!
//! A pass plans its deletions from the markers that it read and then deletes
//! directory after directory. This module says which local stores a pass can
//! leave behind, whether or not a deletion fails, and proves what holds of
//! them.
//!
//! All of it assumes a single writer: while a pass runs, nothing but its own
//! deletions changes the local store.

use crate::gc::{collectable_epochs, is_collectable, lemma_collectable_epochs, local_readiness};
use crate::markers::{SUCCESS_MARKER, UPLOAD_COMPLETED_MARKER};
use crate::model::{has_file, marked_only_if_archived, observe_local, Directory, Store, Stores};
use crate::progress::ProgressState;
use vstd::prelude::*;

verus! {

/// Whether a directory holds every one of the markers `markers`.
pub open spec fn holds_all_markers(dir: Directory, markers: Seq<Seq<char>>) -> bool {
    forall|i: int| 0 <= i < markers.len() ==> dir.contains_key(#[trigger] markers[i])
}

/// The deletions that a garbage collection pass over the local store plans
/// when it waits for the markers `markers` and reads them truthfully.
pub open spec fn gc_plan(local: Store, markers: Seq<Seq<char>>) -> Seq<u32> {
    collectable_epochs(local, observe_local(local, markers), markers.len())
}

/// Whether `after` can be the local store once a pass over `plan` has got as
/// far as `progress`, `before` being the store at its start. The directories
/// whose deletion succeeded are gone. Of a directory whose deletion failed,
/// any part may be left. Every other directory is as it was.
pub open spec fn is_pass_result(
    before: Store,
    after: Store,
    plan: Seq<u32>,
    progress: ProgressState,
) -> bool {
    forall|e: u32|
        if plan.subrange(0, progress.completed as int).contains(e) {
            !(#[trigger] after.contains_key(e))
        } else if progress.failed && plan[progress.completed as int] == e {
            after.contains_key(e) ==> before.contains_key(e) && after[e].submap_of(before[e])
        } else {
            &&& after.contains_key(e) <==> before.contains_key(e)
            &&& after.contains_key(e) ==> after[e] == before[e]
        }
}

/// The pass plans the deletion of exactly the local checkpoints that hold
/// every marker it waits for.
pub proof fn lemma_gc_plan(local: Store, markers: Seq<Seq<char>>, epoch: u32)
    ensures
        gc_plan(local, markers).contains(epoch) <==> local.contains_key(epoch)
            && holds_all_markers(local[epoch], markers),
{
    let reads = observe_local(local, markers);
    lemma_collectable_epochs(local, reads, markers.len());
    assert(gc_plan(local, markers).contains(epoch) <==> is_collectable(
        local,
        reads,
        markers.len(),
        epoch,
    ));
    if local.contains_key(epoch) {
        let epoch_reads = reads[epoch];
        assert(reads.contains_key(epoch));
        assert(epoch_reads.len() == markers.len());
        if holds_all_markers(local[epoch], markers) {
            assert forall|i: int| 0 <= i < epoch_reads.len() implies epoch_reads[i] is Found by {
                assert(local[epoch].contains_key(markers[i]));
            }
            assert(local_readiness(epoch_reads, markers.len()) is Ready);
        } else {
            let i = choose|i: int| 0 <= i < markers.len() && !local[epoch].contains_key(markers[i]);
            assert(epoch_reads[i] is NotFound);
            assert(local_readiness(epoch_reads, markers.len()) is NotReady);
        }
    }
}

/// A local checkpoint that lacks one of the markers survives a garbage
/// collection pass untouched, however the deletions of the pass end; so
/// does one that holds the upload-completed marker and lacks another.
pub proof fn lemma_unready_checkpoint_survives(
    before: Store,
    after: Store,
    markers: Seq<Seq<char>>,
    progress: ProgressState,
    epoch: u32,
)
    requires
        is_pass_result(before, after, gc_plan(before, markers), progress),
        progress.started() <= gc_plan(before, markers).len(),
        before.contains_key(epoch),
        !holds_all_markers(before[epoch], markers),
    ensures
        after.contains_key(epoch),
        after[epoch] == before[epoch],
{
    let plan = gc_plan(before, markers);
    lemma_gc_plan(before, markers, epoch);
    if plan.subrange(0, progress.completed as int).contains(epoch) {
        let k = choose|k: int|
            0 <= k < progress.completed && plan.subrange(0, progress.completed as int)[k] == epoch;
        assert(plan[k] == epoch);
    }
    if progress.failed && plan[progress.completed as int] == epoch {
        assert(plan.contains(epoch));
    }
    assert(after.contains_key(epoch) <==> before.contains_key(epoch));
}

/// When every deletion of a pass succeeds, exactly the checkpoints that held
/// every marker are gone, and every other directory is as it was.
pub proof fn lemma_complete_pass(
    before: Store,
    after: Store,
    markers: Seq<Seq<char>>,
    progress: ProgressState,
    epoch: u32,
)
    requires
        is_pass_result(before, after, gc_plan(before, markers), progress),
        progress.completed == gc_plan(before, markers).len(),
        !progress.failed,
    ensures
        after.contains_key(epoch) <==> before.contains_key(epoch) && !holds_all_markers(
            before[epoch],
            markers,
        ),
        after.contains_key(epoch) ==> after[epoch] == before[epoch],
{
    let plan = gc_plan(before, markers);
    lemma_gc_plan(before, markers, epoch);
    assert(plan.subrange(0, progress.completed as int) =~= plan);
    assert(after.contains_key(epoch) || !after.contains_key(epoch));
}

/// When a deletion fails, no directory but the failing one and those deleted
/// before it is touched: the checkpoints that the pass had still to delete
/// are as they were, and so is every directory outside the plan.
pub proof fn lemma_failed_deletion_spares_the_rest(
    before: Store,
    after: Store,
    markers: Seq<Seq<char>>,
    progress: ProgressState,
    epoch: u32,
)
    requires
        is_pass_result(before, after, gc_plan(before, markers), progress),
        progress.failed,
        progress.completed < gc_plan(before, markers).len(),
        forall|k: int| 0 <= k <= progress.completed ==> gc_plan(before, markers)[k] != epoch,
    ensures
        after.contains_key(epoch) <==> before.contains_key(epoch),
        after.contains_key(epoch) ==> after[epoch] == before[epoch],
{
    let plan = gc_plan(before, markers);
    if plan.subrange(0, progress.completed as int).contains(epoch) {
        let k = choose|k: int|
            0 <= k < progress.completed && plan.subrange(0, progress.completed as int)[k] == epoch;
        assert(plan[k] == epoch);
    }
    assert(after.contains_key(epoch) || !after.contains_key(epoch));
}

/// A pass deletes no checkpoint that is not archived: where every local
/// checkpoint with the upload-completed marker has its completion marker in
/// the remote store, and the pass waits for the upload-completed marker,
/// every checkpoint on its plan has its completion marker in the remote
/// store.
pub proof fn lemma_collected_checkpoints_are_archived(
    stores: Stores,
    markers: Seq<Seq<char>>,
    epoch: u32,
)
    requires
        marked_only_if_archived(stores),
        markers.len() >= 1,
        markers[0] == UPLOAD_COMPLETED_MARKER@,
        gc_plan(stores.local, markers).contains(epoch),
    ensures
        has_file(stores.remote, epoch, SUCCESS_MARKER@),
{
    lemma_gc_plan(stores.local, markers, epoch);
    assert(stores.local[epoch].contains_key(markers[0]));
}

/// A pass leaves what is marked archived: whatever it deletes, in whole or
/// in part, every local checkpoint that still holds the upload-completed
/// marker has its completion marker in the remote store.
pub proof fn lemma_pass_keeps_marked_archived(
    stores: Stores,
    after: Store,
    plan: Seq<u32>,
    progress: ProgressState,
)
    requires
        marked_only_if_archived(stores),
        is_pass_result(stores.local, after, plan, progress),
    ensures
        marked_only_if_archived(Stores { local: after, remote: stores.remote }),
{
    assert forall|e: u32|
        #![trigger after[e]]
        has_file(after, e, UPLOAD_COMPLETED_MARKER@) implies has_file(
        stores.remote,
        e,
        SUCCESS_MARKER@,
    ) by {
        assert(after.contains_key(e));
        assert(has_file(stores.local, e, UPLOAD_COMPLETED_MARKER@));
        assert(stores.local[e].contains_key(UPLOAD_COMPLETED_MARKER@));
    }
}

} // verus!
