//! The checkpoint handler: the settings that the archival logic reads.

use crate::markers::{TEST_MARKER, UPLOAD_COMPLETED_MARKER};
use vstd::prelude::*;
use vstd::string::StringExecFns;

verus! {

/// What the handler reports for observation.
#[derive(Clone, Copy, Debug)]
pub struct DBCheckpointMetrics {
    /// First epoch for which the remote store has no complete checkpoint.
    pub first_missing_db_checkpoint_epoch: i64,
}

impl DBCheckpointMetrics {
    /// Metrics with the gauge at 0.
    pub fn new() -> (metrics: Self)
        ensures
            metrics.first_missing_db_checkpoint_epoch == 0,
    {
        DBCheckpointMetrics { first_missing_db_checkpoint_epoch: 0 }
    }
}

/// The value of the first-missing-epoch gauge for a missing-epoch list: its
/// first entry, or 0 for an empty list.
pub open spec fn first_missing_gauge(missing: Seq<u32>) -> int {
    if missing.len() == 0 {
        0
    } else {
        missing[0] as int
    }
}

/// Archives local database checkpoints to a remote store and deletes them
/// locally once they are archived.
pub struct DBCheckpointHandler {
    /// Seconds between two checks for new local checkpoints.
    interval_secs: u64,
    /// Names of the markers that must all be present in a local checkpoint
    /// directory before it is deleted.
    gc_markers: Vec<String>,
    /// Whether a checkpoint is pruned and compacted before it is uploaded.
    prune_and_compact_before_upload: bool,
    /// Setting handed to the pruner.
    indirect_objects_threshold: usize,
    metrics: DBCheckpointMetrics,
}

impl DBCheckpointHandler {
    /// The upload-completed marker is always among the markers that
    /// deletion waits for, and it comes first.
    #[verifier::type_invariant]
    spec fn well_formed(&self) -> bool {
        &&& self.gc_markers@.len() >= 1
        &&& self.gc_markers@[0]@ == UPLOAD_COMPLETED_MARKER@
    }

    /// Names of the markers that deletion waits for.
    pub closed spec fn marker_names(&self) -> Seq<Seq<char>> {
        self.gc_markers@.map_values(|name: String| name@)
    }

    /// Seconds between two sync ticks.
    pub closed spec fn interval(&self) -> u64 {
        self.interval_secs
    }

    /// Whether checkpoints are pruned and compacted before upload.
    pub closed spec fn prunes_before_upload(&self) -> bool {
        self.prune_and_compact_before_upload
    }

    /// Setting handed to the pruner.
    pub closed spec fn pruner_threshold(&self) -> usize {
        self.indirect_objects_threshold
    }

    /// Current value of the first-missing-epoch gauge.
    pub closed spec fn gauge(&self) -> i64 {
        self.metrics.first_missing_db_checkpoint_epoch
    }

    /// A handler that deletes a local checkpoint once its upload-completed
    /// marker is present.
    pub fn new(
        interval_s: u64,
        prune_and_compact_before_upload: bool,
        indirect_objects_threshold: usize,
    ) -> (handler: Self)
        ensures
            handler.interval() == interval_s,
            handler.prunes_before_upload() == prune_and_compact_before_upload,
            handler.pruner_threshold() == indirect_objects_threshold,
            handler.marker_names() == seq![UPLOAD_COMPLETED_MARKER@],
            handler.gauge() == 0,
    {
        let mut gc_markers: Vec<String> = Vec::new();
        gc_markers.push(String::from_str(UPLOAD_COMPLETED_MARKER));
        let handler = DBCheckpointHandler {
            interval_secs: interval_s,
            gc_markers,
            prune_and_compact_before_upload,
            indirect_objects_threshold,
            metrics: DBCheckpointMetrics::new(),
        };
        assert(handler.marker_names() =~= seq![UPLOAD_COMPLETED_MARKER@]);
        handler
    }

    /// A handler for test setups: deletion also waits for the test marker,
    /// and the pruner threshold is 0.
    pub fn new_for_test(interval_s: u64, prune_and_compact_before_upload: bool) -> (handler: Self)
        ensures
            handler.interval() == interval_s,
            handler.prunes_before_upload() == prune_and_compact_before_upload,
            handler.pruner_threshold() == 0,
            handler.marker_names() == seq![UPLOAD_COMPLETED_MARKER@, TEST_MARKER@],
            handler.gauge() == 0,
    {
        let mut gc_markers: Vec<String> = Vec::new();
        gc_markers.push(String::from_str(UPLOAD_COMPLETED_MARKER));
        gc_markers.push(String::from_str(TEST_MARKER));
        let handler = DBCheckpointHandler {
            interval_secs: interval_s,
            gc_markers,
            prune_and_compact_before_upload,
            indirect_objects_threshold: 0,
            metrics: DBCheckpointMetrics::new(),
        };
        assert(handler.marker_names() =~= seq![UPLOAD_COMPLETED_MARKER@, TEST_MARKER@]);
        handler
    }

    /// Seconds between two sync ticks.
    pub fn interval_secs(&self) -> (secs: u64)
        ensures
            secs == self.interval(),
    {
        self.interval_secs
    }

    /// Names of the markers that deletion waits for. The upload-completed
    /// marker is the first of them.
    pub fn gc_markers(&self) -> (markers: &Vec<String>)
        ensures
            markers@.map_values(|name: String| name@) == self.marker_names(),
            markers@.len() >= 1,
            markers@[0]@ == UPLOAD_COMPLETED_MARKER@,
    {
        proof {
            use_type_invariant(self);
        }
        &self.gc_markers
    }

    /// Whether checkpoints are pruned and compacted before upload.
    pub fn prune_and_compact_before_upload(&self) -> (prune: bool)
        ensures
            prune == self.prunes_before_upload(),
    {
        self.prune_and_compact_before_upload
    }

    /// Setting handed to the pruner.
    pub fn indirect_objects_threshold(&self) -> (threshold: usize)
        ensures
            threshold == self.pruner_threshold(),
    {
        self.indirect_objects_threshold
    }

    /// The handler's metrics.
    pub fn metrics(&self) -> (metrics: DBCheckpointMetrics)
        ensures
            metrics.first_missing_db_checkpoint_epoch == self.gauge(),
    {
        self.metrics
    }

    /// Sets the first-missing-epoch gauge from a missing-epoch list.
    pub fn record_first_missing(&mut self, missing: &Vec<u32>)
        ensures
            final(self).gauge() == first_missing_gauge(missing@),
            final(self).marker_names() == old(self).marker_names(),
            final(self).interval() == old(self).interval(),
            final(self).prunes_before_upload() == old(self).prunes_before_upload(),
            final(self).pruner_threshold() == old(self).pruner_threshold(),
    {
        proof {
            use_type_invariant(&*self);
        }
        let first: i64 = if missing.len() == 0 {
            0
        } else {
            missing[0] as i64
        };
        self.metrics.first_missing_db_checkpoint_epoch = first;
    }
}

} // verus!
