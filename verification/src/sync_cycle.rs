//! What a sync cycle does to the stores.
//!
//! A sync cycle detects the missing epochs, plans an upload over the local
//! index and carries the plan out. This module works out the stores that a
//! cycle leaves behind and proves what holds of them.
//!
//! All of it assumes a single writer: while a cycle runs, nothing but its
//! own steps changes either store.

use crate::gap::{is_missing, missing_epochs};
use crate::markers::{SUCCESS_MARKER, UPLOAD_COMPLETED_MARKER};
use crate::model::{
    apply_step, apply_steps, creates_no_marker, dir_of, epochs_in_range, has_file,
    lemma_apply_steps_append, lemma_step_keeps_marked_archived, marked_only_if_archived,
    marker_content, observe_remote, Directory, Pruner, Stores,
};
use crate::store_path::path_child;
use crate::upload::{
    epoch_steps, is_selected, lemma_selected_iff_missing, upload_steps, upload_steps_below,
    UploadStep,
};
use vstd::prelude::*;

verus! {

/// The steps of one sync cycle: those of the upload that is planned from the
/// missing epochs detected in the remote store.
pub open spec fn sync_steps(
    stores: Stores,
    index: Map<u32, Seq<char>>,
    prune: bool,
    unreadable: Set<u32>,
) -> Seq<UploadStep> {
    upload_steps(missing_epochs(observe_remote(stores.remote, unreadable)), index, prune)
}

/// The stores after one sync cycle in which every step succeeded.
pub open spec fn sync_cycle(
    stores: Stores,
    index: Map<u32, Seq<char>>,
    prune: bool,
    pruner: Pruner,
    unreadable: Set<u32>,
) -> Stores {
    apply_steps(stores, sync_steps(stores, index, prune, unreadable), pruner)
}

/// The local directory of a checkpoint as it is copied.
pub open spec fn source_dir(dir: Directory, selected: bool, prune: bool, pruner: Pruner) -> Directory {
    if selected && prune {
        pruner(dir)
    } else {
        dir
    }
}

/// The local directory of a checkpoint after the steps for its epoch.
pub open spec fn local_dir_after(
    dir: Directory,
    selected: bool,
    prune: bool,
    pruner: Pruner,
) -> Directory {
    source_dir(dir, selected, prune, pruner).insert(UPLOAD_COMPLETED_MARKER@, marker_content())
}

/// The remote directory of a selected checkpoint after the steps for its
/// epoch.
pub open spec fn remote_dir_after(remote: Directory, source: Directory) -> Directory {
    remote.union_prefer_right(source).insert(SUCCESS_MARKER@, marker_content())
}

/// The stores after the steps for the local checkpoints below `n`, written
/// out directory by directory.
pub open spec fn stores_after_upload(
    stores: Stores,
    missing: Seq<u32>,
    prune: bool,
    pruner: Pruner,
    n: nat,
) -> Stores {
    Stores {
        local: Map::new(
            |e: u32| stores.local.contains_key(e),
            |e: u32|
                if e < n {
                    local_dir_after(stores.local[e], is_selected(missing, e), prune, pruner)
                } else {
                    stores.local[e]
                },
        ),
        remote: Map::new(
            |e: u32|
                stores.remote.contains_key(e) || (e < n && stores.local.contains_key(e)
                    && is_selected(missing, e)),
            |e: u32|
                if e < n && stores.local.contains_key(e) && is_selected(missing, e) {
                    remote_dir_after(
                        dir_of(stores.remote, e),
                        source_dir(stores.local[e], true, prune, pruner),
                    )
                } else {
                    stores.remote[e]
                },
        ),
    }
}

/// The steps for one checkpoint touch the two directories of its epoch and
/// nothing else.
pub proof fn lemma_apply_epoch_steps(
    stores: Stores,
    epoch: u32,
    location: Seq<char>,
    selected: bool,
    prune: bool,
    pruner: Pruner,
)
    requires
        stores.local.contains_key(epoch),
    ensures
        ({
            let after = apply_steps(stores, epoch_steps(epoch, location, selected, prune), pruner);
            &&& after.local == stores.local.insert(
                epoch,
                local_dir_after(stores.local[epoch], selected, prune, pruner),
            )
            &&& selected ==> after.remote == stores.remote.insert(
                epoch,
                remote_dir_after(
                    dir_of(stores.remote, epoch),
                    source_dir(stores.local[epoch], true, prune, pruner),
                ),
            )
            &&& !selected ==> after.remote == stores.remote
        }),
{
    let steps = epoch_steps(epoch, location, selected, prune);
    let pruning = UploadStep::PruneAndCompact { epoch, location };
    let copy = UploadStep::CopyDirectory { epoch, location };
    let put_remote = UploadStep::WriteRemoteMarker {
        epoch,
        path: path_child(location, SUCCESS_MARKER@),
    };
    let put_local = UploadStep::WriteLocalMarker {
        epoch,
        path: path_child(location, UPLOAD_COMPLETED_MARKER@),
    };
    reveal_with_fuel(apply_steps, 5);
    if selected && prune {
        assert(steps =~= seq![pruning, copy, put_remote, put_local]);
        assert(steps.drop_last() =~= seq![pruning, copy, put_remote]);
        assert(seq![pruning, copy, put_remote].drop_last() =~= seq![pruning, copy]);
        assert(seq![pruning, copy].drop_last() =~= seq![pruning]);
        assert(seq![pruning].drop_last() =~= Seq::<UploadStep>::empty());
    } else if selected {
        assert(steps =~= seq![copy, put_remote, put_local]);
        assert(steps.drop_last() =~= seq![copy, put_remote]);
        assert(seq![copy, put_remote].drop_last() =~= seq![copy]);
        assert(seq![copy].drop_last() =~= Seq::<UploadStep>::empty());
    } else {
        assert(steps =~= seq![put_local]);
        assert(steps.drop_last() =~= Seq::<UploadStep>::empty());
    }
    let after = apply_steps(stores, steps, pruner);
    assert(after.local =~~= stores.local.insert(
        epoch,
        local_dir_after(stores.local[epoch], selected, prune, pruner),
    ));
    if selected {
        assert(after.remote =~~= stores.remote.insert(
            epoch,
            remote_dir_after(
                dir_of(stores.remote, epoch),
                source_dir(stores.local[epoch], true, prune, pruner),
            ),
        ));
    }
}

/// The stores after the steps for the local checkpoints below `n` are what
/// `stores_after_upload` writes out.
pub proof fn lemma_upload_effect(
    stores: Stores,
    missing: Seq<u32>,
    index: Map<u32, Seq<char>>,
    prune: bool,
    pruner: Pruner,
    n: nat,
)
    requires
        n <= 0x1_0000_0000,
        forall|e: u32| index.contains_key(e) <==> stores.local.contains_key(e),
    ensures
        apply_steps(stores, upload_steps_below(missing, index, prune, n), pruner)
            == stores_after_upload(stores, missing, prune, pruner, n),
    decreases n,
{
    let target = stores_after_upload(stores, missing, prune, pruner, n);
    if n == 0 {
        assert(target.local =~~= stores.local);
        assert(target.remote =~~= stores.remote);
    } else {
        let epoch = (n - 1) as u32;
        let earlier = upload_steps_below(missing, index, prune, (n - 1) as nat);
        let before = stores_after_upload(stores, missing, prune, pruner, (n - 1) as nat);
        lemma_upload_effect(stores, missing, index, prune, pruner, (n - 1) as nat);
        if index.contains_key(epoch) {
            let selected = is_selected(missing, epoch);
            let steps = epoch_steps(epoch, index[epoch], selected, prune);
            lemma_apply_steps_append(stores, earlier, steps, pruner);
            lemma_apply_epoch_steps(before, epoch, index[epoch], selected, prune, pruner);
            let after = apply_steps(before, steps, pruner);
            assert(dir_of(before.remote, epoch) == dir_of(stores.remote, epoch));
            assert(after.local =~~= target.local);
            assert(after.remote =~~= target.remote);
        } else {
            assert(target.local =~~= before.local);
            assert(target.remote =~~= before.remote);
        }
    }
}

/// After a sync cycle in which every step succeeded, every local checkpoint
/// holds the upload-completed marker, and every local checkpoint is
/// archived, its remote directory holding the completion marker, unless the
/// read of that marker failed. A checkpoint that was missing remotely was
/// copied: every file of its local directory, as it was when copied, is in
/// the remote directory with the same content. The other remote directories
/// are as they were.
pub proof fn lemma_sync_cycle_archives(
    stores: Stores,
    index: Map<u32, Seq<char>>,
    prune: bool,
    pruner: Pruner,
    unreadable: Set<u32>,
    epoch: u32,
)
    requires
        forall|e: u32| index.contains_key(e) <==> stores.local.contains_key(e),
        epochs_in_range(stores.remote),
    ensures
        ({
            let after = sync_cycle(stores, index, prune, pruner, unreadable);
            let missing = is_missing(observe_remote(stores.remote, unreadable), epoch);
            let source = source_dir(stores.local[epoch], true, prune, pruner);
            &&& after.local.contains_key(epoch) <==> stores.local.contains_key(epoch)
            &&& after.remote.contains_key(epoch) <==> stores.remote.contains_key(epoch)
                || stores.local.contains_key(epoch)
            &&& stores.local.contains_key(epoch) ==> has_file(
                after.local,
                epoch,
                UPLOAD_COMPLETED_MARKER@,
            )
            &&& stores.local.contains_key(epoch) && !(stores.remote.contains_key(epoch)
                && unreadable.contains(epoch)) ==> has_file(after.remote, epoch, SUCCESS_MARKER@)
            &&& stores.local.contains_key(epoch) && missing ==> forall|name: Seq<char>|
                #![trigger source.contains_key(name)]
                source.contains_key(name) && name != SUCCESS_MARKER@ ==> has_file(
                    after.remote,
                    epoch,
                    name,
                ) && after.remote[epoch][name] == source[name]
            &&& !(stores.local.contains_key(epoch) && missing) && stores.remote.contains_key(epoch)
                ==> after.remote[epoch] == stores.remote[epoch]
        }),
{
    let observed = observe_remote(stores.remote, unreadable);
    let missing = missing_epochs(observed);
    lemma_upload_effect(stores, missing, index, prune, pruner, 0x1_0000_0000);
    lemma_selected_iff_missing(observed, epoch);
}

/// A second sync cycle right after a first changes nothing: with no change
/// to either store in between, and the same reads failing, the remote store
/// holds the same files and markers after both cycles, and so does the local
/// store.
pub proof fn lemma_sync_cycle_idempotent(
    stores: Stores,
    index: Map<u32, Seq<char>>,
    prune: bool,
    pruner: Pruner,
    unreadable: Set<u32>,
)
    requires
        forall|e: u32| index.contains_key(e) <==> stores.local.contains_key(e),
        epochs_in_range(stores.remote),
        epochs_in_range(stores.local),
    ensures
        sync_cycle(
            sync_cycle(stores, index, prune, pruner, unreadable),
            index,
            prune,
            pruner,
            unreadable,
        ) == sync_cycle(stores, index, prune, pruner, unreadable),
{
    let observed = observe_remote(stores.remote, unreadable);
    let missing = missing_epochs(observed);
    let once = sync_cycle(stores, index, prune, pruner, unreadable);
    lemma_upload_effect(stores, missing, index, prune, pruner, 0x1_0000_0000);
    let observed_again = observe_remote(once.remote, unreadable);
    let missing_again = missing_epochs(observed_again);
    lemma_upload_effect(once, missing_again, index, prune, pruner, 0x1_0000_0000);
    let twice = sync_cycle(once, index, prune, pruner, unreadable);
    assert forall|e: u32| once.local.contains_key(e) implies !is_selected(missing_again, e) by {
        lemma_selected_iff_missing(observed, e);
        lemma_selected_iff_missing(observed_again, e);
    }
    assert(twice.local =~~= once.local);
    assert(twice.remote =~~= once.remote);
}

/// When the plan writes the local marker of a checkpoint, the completion
/// marker of that checkpoint is in the remote store: it was written just
/// before, or the checkpoint was not selected and had it all along.
pub proof fn lemma_local_marker_follows_archive(
    stores: Stores,
    missing: Seq<u32>,
    index: Map<u32, Seq<char>>,
    prune: bool,
    pruner: Pruner,
    n: nat,
    i: int,
)
    requires
        n <= 0x1_0000_0000,
        forall|e: u32| index.contains_key(e) <==> stores.local.contains_key(e),
        forall|e: u32|
            stores.local.contains_key(e) && !is_selected(missing, e) ==> has_file(
                stores.remote,
                e,
                SUCCESS_MARKER@,
            ),
        0 <= i < upload_steps_below(missing, index, prune, n).len(),
        upload_steps_below(missing, index, prune, n)[i] is WriteLocalMarker,
    ensures
        has_file(
            apply_steps(
                stores,
                upload_steps_below(missing, index, prune, n).subrange(0, i),
                pruner,
            ).remote,
            upload_steps_below(missing, index, prune, n)[i]->WriteLocalMarker_epoch,
            SUCCESS_MARKER@,
        ),
    decreases n,
{
    if n > 0 {
        let all = upload_steps_below(missing, index, prune, n);
        let earlier = upload_steps_below(missing, index, prune, (n - 1) as nat);
        let epoch = (n - 1) as u32;
        if i < earlier.len() {
            lemma_local_marker_follows_archive(
                stores,
                missing,
                index,
                prune,
                pruner,
                (n - 1) as nat,
                i,
            );
            assert(all.subrange(0, i) =~= earlier.subrange(0, i));
        } else {
            let selected = is_selected(missing, epoch);
            let own = epoch_steps(epoch, index[epoch], selected, prune);
            let before = stores_after_upload(stores, missing, prune, pruner, (n - 1) as nat);
            lemma_upload_effect(stores, missing, index, prune, pruner, (n - 1) as nat);
            assert(all[i] == own[i - earlier.len()]);
            assert(i - earlier.len() == own.len() - 1);
            assert(all.subrange(0, i) =~= earlier + own.drop_last());
            lemma_apply_steps_append(stores, earlier, own.drop_last(), pruner);
            if selected {
                assert(own.drop_last().last() is WriteRemoteMarker);
            } else {
                assert(own.drop_last() =~= Seq::<UploadStep>::empty());
            }
        }
    }
}

/// However far a sync cycle gets, it marks no checkpoint that is not
/// archived: if every local checkpoint with the upload-completed marker had
/// its completion marker in the remote store before the cycle, then so it is
/// after any number of the cycle's steps. This needs the reads of the
/// completion markers of the local checkpoints to be truthful: a local
/// checkpoint whose remote marker cannot be read is marked all the same.
pub proof fn lemma_cycle_marks_only_archived(
    stores: Stores,
    index: Map<u32, Seq<char>>,
    prune: bool,
    pruner: Pruner,
    unreadable: Set<u32>,
    done: int,
)
    requires
        forall|e: u32| index.contains_key(e) <==> stores.local.contains_key(e),
        forall|e: u32| stores.local.contains_key(e) ==> !unreadable.contains(e),
        epochs_in_range(stores.remote),
        marked_only_if_archived(stores),
        creates_no_marker(pruner),
        0 <= done <= sync_steps(stores, index, prune, unreadable).len(),
    ensures
        marked_only_if_archived(
            apply_steps(
                stores,
                sync_steps(stores, index, prune, unreadable).subrange(0, done),
                pruner,
            ),
        ),
    decreases done,
{
    let steps = sync_steps(stores, index, prune, unreadable);
    if done > 0 {
        let observed = observe_remote(stores.remote, unreadable);
        let missing = missing_epochs(observed);
        let step = steps[done - 1];
        lemma_cycle_marks_only_archived(stores, index, prune, pruner, unreadable, done - 1);
        assert(steps.subrange(0, done).drop_last() =~= steps.subrange(0, done - 1));
        if step is WriteLocalMarker {
            assert forall|e: u32|
                stores.local.contains_key(e) && !is_selected(missing, e) implies has_file(
                stores.remote,
                e,
                SUCCESS_MARKER@,
            ) by {
                lemma_selected_iff_missing(observed, e);
            }
            lemma_local_marker_follows_archive(
                stores,
                missing,
                index,
                prune,
                pruner,
                0x1_0000_0000,
                done - 1,
            );
        }
        lemma_step_keeps_marked_archived(
            apply_steps(stores, steps.subrange(0, done - 1), pruner),
            step,
            pruner,
        );
    }
}

} // verus!
