//! A model of the local and the remote store.
//!
//! The library plans; its caller acts on the stores. This module says what
//! each planned step means for the stores, so that the plans can be judged
//! by their effect. A store is modelled as its checkpoint directories by
//! epoch, a directory as its files by name, markers being files.

use crate::gap::MarkerRead;
use crate::markers::{MARKER_CONTENT, SUCCESS_MARKER, UPLOAD_COMPLETED_MARKER};
use crate::upload::UploadStep;
use vstd::prelude::*;
use vstd::string::StringSliceAdditionalSpecFns;

verus! {

/// The files of one checkpoint directory: content by name.
pub type Directory = Map<Seq<char>, Seq<u8>>;

/// The checkpoint directories of one store, by epoch.
pub type Store = Map<u32, Directory>;

/// The two stores.
pub struct Stores {
    pub local: Store,
    pub remote: Store,
}

/// What pruning and compaction make of a directory.
pub type Pruner = spec_fn(Directory) -> Directory;

/// The bytes of every marker object.
pub open spec fn marker_content() -> Seq<u8> {
    MARKER_CONTENT.spec_bytes()
}

/// Every epoch of the store is below `u32::MAX`, so that one past it is an
/// epoch.
pub open spec fn epochs_in_range(store: Store) -> bool {
    forall|e: u32| store.contains_key(e) ==> e < u32::MAX
}

/// The directory of `epoch`; empty where the store has none.
pub open spec fn dir_of(store: Store, epoch: u32) -> Directory {
    if store.contains_key(epoch) {
        store[epoch]
    } else {
        Map::empty()
    }
}

/// Whether the store has a directory for `epoch` that holds the file `name`.
pub open spec fn has_file(store: Store, epoch: u32, name: Seq<char>) -> bool {
    store.contains_key(epoch) && store[epoch].contains_key(name)
}

/// The store after `files` were copied into the directory of `epoch`: files
/// of the same name are overwritten, others stay. Copying no file creates no
/// directory.
pub open spec fn copy_into(store: Store, epoch: u32, files: Directory) -> Store {
    if files.dom() == Set::<Seq<char>>::empty() {
        store
    } else {
        store.insert(epoch, dir_of(store, epoch).union_prefer_right(files))
    }
}

/// The store after the marker `name` was written into the directory of
/// `epoch`.
pub open spec fn write_marker(store: Store, epoch: u32, name: Seq<char>) -> Store {
    store.insert(epoch, dir_of(store, epoch).insert(name, marker_content()))
}

/// The stores after one upload step succeeded.
pub open spec fn apply_step(stores: Stores, step: UploadStep, pruner: Pruner) -> Stores {
    match step {
        UploadStep::PruneAndCompact { epoch, .. } => Stores {
            local: stores.local.insert(epoch, pruner(dir_of(stores.local, epoch))),
            remote: stores.remote,
        },
        UploadStep::CopyDirectory { epoch, .. } => Stores {
            local: stores.local,
            remote: copy_into(stores.remote, epoch, dir_of(stores.local, epoch)),
        },
        UploadStep::WriteRemoteMarker { epoch, .. } => Stores {
            local: stores.local,
            remote: write_marker(stores.remote, epoch, SUCCESS_MARKER@),
        },
        UploadStep::WriteLocalMarker { epoch, .. } => Stores {
            local: write_marker(stores.local, epoch, UPLOAD_COMPLETED_MARKER@),
            remote: stores.remote,
        },
    }
}

/// The stores after a sequence of upload steps succeeded, one after the
/// other.
pub open spec fn apply_steps(stores: Stores, steps: Seq<UploadStep>, pruner: Pruner) -> Stores
    decreases steps.len(),
{
    if steps.len() == 0 {
        stores
    } else {
        apply_step(apply_steps(stores, steps.drop_last(), pruner), steps.last(), pruner)
    }
}

/// What reading the completion markers of the remote store gives. The reads
/// for the epochs in `unreadable` fail; every other read is answered
/// truthfully.
pub open spec fn observe_remote(remote: Store, unreadable: Set<u32>) -> Map<u32, MarkerRead> {
    Map::new(
        |e: u32| remote.contains_key(e),
        |e: u32|
            if unreadable.contains(e) {
                MarkerRead::Failed
            } else if remote[e].contains_key(SUCCESS_MARKER@) {
                MarkerRead::Found
            } else {
                MarkerRead::NotFound
            },
    )
}

/// What reading the markers `markers` in each local checkpoint gives when
/// every read is answered truthfully.
pub open spec fn observe_local(local: Store, markers: Seq<Seq<char>>) -> Map<
    u32,
    Seq<MarkerRead>,
> {
    Map::new(
        |e: u32| local.contains_key(e),
        |e: u32|
            Seq::new(
                markers.len(),
                |i: int|
                    if local[e].contains_key(markers[i]) {
                        MarkerRead::Found
                    } else {
                        MarkerRead::NotFound
                    },
            ),
    )
}

/// Every local checkpoint that holds the upload-completed marker has its
/// completion marker in the remote store: what may be deleted locally is
/// archived.
pub open spec fn marked_only_if_archived(stores: Stores) -> bool {
    forall|e: u32|
        #![trigger stores.local[e]]
        has_file(stores.local, e, UPLOAD_COMPLETED_MARKER@) ==> has_file(
            stores.remote,
            e,
            SUCCESS_MARKER@,
        )
}

/// Pruning and compaction create no upload-completed marker.
pub open spec fn creates_no_marker(pruner: Pruner) -> bool {
    forall|dir: Directory|
        (#[trigger] pruner(dir)).contains_key(UPLOAD_COMPLETED_MARKER@) ==> dir.contains_key(
            UPLOAD_COMPLETED_MARKER@,
        )
}

/// Steps are applied one list after the other.
pub proof fn lemma_apply_steps_append(
    stores: Stores,
    first: Seq<UploadStep>,
    second: Seq<UploadStep>,
    pruner: Pruner,
)
    ensures
        apply_steps(stores, first + second, pruner) == apply_steps(
            apply_steps(stores, first, pruner),
            second,
            pruner,
        ),
    decreases second.len(),
{
    if second.len() == 0 {
        assert(first + second =~= first);
    } else {
        lemma_apply_steps_append(stores, first, second.drop_last(), pruner);
        assert((first + second).drop_last() =~= first + second.drop_last());
        assert((first + second).last() == second.last());
    }
}

/// A step keeps what is marked archived, unless it writes the local marker
/// of a checkpoint whose completion marker is not in the remote store.
pub proof fn lemma_step_keeps_marked_archived(stores: Stores, step: UploadStep, pruner: Pruner)
    requires
        marked_only_if_archived(stores),
        creates_no_marker(pruner),
        step matches UploadStep::WriteLocalMarker { epoch, .. } ==> has_file(
            stores.remote,
            epoch,
            SUCCESS_MARKER@,
        ),
    ensures
        marked_only_if_archived(apply_step(stores, step, pruner)),
{
    let after = apply_step(stores, step, pruner);
    assert forall|e: u32|
        #![trigger after.local[e]]
        has_file(after.local, e, UPLOAD_COMPLETED_MARKER@) implies has_file(
        after.remote,
        e,
        SUCCESS_MARKER@,
    ) by {
        match step {
            UploadStep::PruneAndCompact { epoch, .. } => {
                if e == epoch {
                    assert(pruner(dir_of(stores.local, epoch)).contains_key(
                        UPLOAD_COMPLETED_MARKER@,
                    ));
                }
                assert(has_file(stores.local, e, UPLOAD_COMPLETED_MARKER@));
            },
            UploadStep::CopyDirectory { epoch, .. } => {
                assert(has_file(stores.local, e, UPLOAD_COMPLETED_MARKER@));
            },
            UploadStep::WriteRemoteMarker { epoch, .. } => {
                assert(has_file(stores.local, e, UPLOAD_COMPLETED_MARKER@));
            },
            UploadStep::WriteLocalMarker { epoch, .. } => {
                if e != epoch {
                    assert(has_file(stores.local, e, UPLOAD_COMPLETED_MARKER@));
                }
            },
        }
    }
}

} // verus!
