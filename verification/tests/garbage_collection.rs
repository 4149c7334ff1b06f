use db_checkpoint_handler::gap::MarkerRead;
use db_checkpoint_handler::gap::MarkerRead::{Failed, Found, NotFound};
use db_checkpoint_handler::gc::{epoch_local_readiness, EpochLocalReadiness};
use db_checkpoint_handler::DBCheckpointHandler;
use std::collections::BTreeMap;

fn index(entries: &[(u32, &str)]) -> BTreeMap<u32, String> {
    entries.iter().map(|(epoch, location)| (*epoch, location.to_string())).collect()
}

fn reads(entries: &[(u32, &[MarkerRead])]) -> BTreeMap<u32, Vec<MarkerRead>> {
    entries.iter().map(|(epoch, reads)| (*epoch, reads.to_vec())).collect()
}

#[test]
fn readiness_needs_every_marker() {
    assert_eq!(epoch_local_readiness(&vec![Found, Found], 2), EpochLocalReadiness::Ready);
    assert_eq!(epoch_local_readiness(&vec![Found, NotFound], 2), EpochLocalReadiness::NotReady);
    assert_eq!(epoch_local_readiness(&vec![NotFound, Found], 2), EpochLocalReadiness::NotReady);
    assert_eq!(epoch_local_readiness(&vec![Found, Failed], 2), EpochLocalReadiness::NotReady);
    assert_eq!(epoch_local_readiness(&vec![Found], 2), EpochLocalReadiness::NotReady);
    assert_eq!(epoch_local_readiness(&vec![Found, Found, Found], 2), EpochLocalReadiness::NotReady);
    assert_eq!(epoch_local_readiness(&Vec::new(), 1), EpochLocalReadiness::NotReady);
    assert_eq!(epoch_local_readiness(&vec![Found], 1), EpochLocalReadiness::Ready);
}

#[test]
fn only_ready_checkpoints_are_deleted() {
    let handler = DBCheckpointHandler::new_for_test(10, false);
    let local = index(&[(0, "epoch_0"), (1, "epoch_1"), (2, "epoch_2"), (3, "epoch_3")]);
    let observed = reads(&[
        (0, &[Found, Found]),
        (1, &[Found, NotFound]),
        (2, &[Failed, Found]),
        (3, &[Found, Found]),
    ]);
    assert_eq!(handler.garbage_collect_old_db_checkpoints(&local, &observed), vec![0, 3]);
}

#[test]
fn checkpoint_without_reads_is_kept() {
    let handler = DBCheckpointHandler::new(10, false, 0);
    let local = index(&[(0, "epoch_0"), (1, "epoch_1")]);
    let observed = reads(&[(1, &[Found]), (9, &[Found])]);
    assert_eq!(handler.garbage_collect_old_db_checkpoints(&local, &observed), vec![1]);
    assert_eq!(
        handler.garbage_collect_old_db_checkpoints(&local, &BTreeMap::new()),
        Vec::<u32>::new()
    );
}

#[test]
fn one_read_is_not_enough_for_two_markers() {
    let handler = DBCheckpointHandler::new_for_test(10, false);
    let local = index(&[(0, "epoch_0")]);
    let observed = reads(&[(0, &[Found])]);
    assert_eq!(handler.garbage_collect_old_db_checkpoints(&local, &observed), Vec::<u32>::new());
}

#[test]
fn readiness_markers_are_probed_for_each_local_checkpoint() {
    let handler = DBCheckpointHandler::new_for_test(10, false);
    let local = index(&[(8, "epoch_8"), (2, "epoch_2")]);
    let probes: Vec<(u32, Vec<String>)> = handler
        .readiness_marker_probes(&local)
        .into_iter()
        .map(|probe| (probe.epoch, probe.paths))
        .collect();
    assert_eq!(
        probes,
        vec![
            (2, vec!["epoch_2/_UPLOAD_COMPLETED".to_string(), "epoch_2/_TEST".to_string()]),
            (8, vec!["epoch_8/_UPLOAD_COMPLETED".to_string(), "epoch_8/_TEST".to_string()]),
        ]
    );
}

#[test]
fn production_handler_probes_only_the_upload_completed_marker() {
    let handler = DBCheckpointHandler::new(10, false, 0);
    let local = index(&[(2, "epoch_2")]);
    let probes = handler.readiness_marker_probes(&local);
    assert_eq!(probes.len(), 1);
    assert_eq!(probes[0].paths, vec!["epoch_2/_UPLOAD_COMPLETED".to_string()]);
}
