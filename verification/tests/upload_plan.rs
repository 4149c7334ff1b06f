use db_checkpoint_handler::upload::{selects, UploadAction, COPY_CONCURRENCY};
use db_checkpoint_handler::DBCheckpointHandler;
use std::collections::BTreeMap;

fn index(entries: &[(u32, &str)]) -> BTreeMap<u32, String> {
    entries.iter().map(|(epoch, location)| (*epoch, location.to_string())).collect()
}

/// One line per action, for comparison.
fn lines(actions: &[UploadAction]) -> Vec<String> {
    actions
        .iter()
        .map(|action| match action {
            UploadAction::PruneAndCompact { epoch, location } => {
                format!("prune {} {}", epoch, location)
            }
            UploadAction::CopyDirectory { epoch, location } => {
                format!("copy {} {}", epoch, location)
            }
            UploadAction::WriteRemoteMarker { epoch, path } => {
                format!("remote marker {} {}", epoch, path)
            }
            UploadAction::WriteLocalMarker { epoch, path } => {
                format!("local marker {} {}", epoch, path)
            }
        })
        .collect()
}

#[test]
fn selected_epochs_are_copied_and_all_get_the_local_marker() {
    let handler = DBCheckpointHandler::new(10, false, 0);
    let local = index(&[(0, "epoch_0"), (1, "epoch_1"), (2, "epoch_2"), (5, "epoch_5")]);
    let actions = handler.upload_db_checkpoints_to_object_store(&vec![1, 3], &local);
    assert_eq!(
        lines(&actions),
        vec![
            "local marker 0 epoch_0/_UPLOAD_COMPLETED",
            "copy 1 epoch_1",
            "remote marker 1 epoch_1/_SUCCESS",
            "local marker 1 epoch_1/_UPLOAD_COMPLETED",
            "local marker 2 epoch_2/_UPLOAD_COMPLETED",
            "copy 5 epoch_5",
            "remote marker 5 epoch_5/_SUCCESS",
            "local marker 5 epoch_5/_UPLOAD_COMPLETED",
        ]
    );
}

#[test]
fn pruning_comes_before_the_copy() {
    let handler = DBCheckpointHandler::new(10, true, 0);
    let local = index(&[(0, "epoch_0"), (1, "epoch_1")]);
    let actions = handler.upload_db_checkpoints_to_object_store(&vec![1, 2], &local);
    assert_eq!(
        lines(&actions),
        vec![
            "local marker 0 epoch_0/_UPLOAD_COMPLETED",
            "prune 1 epoch_1",
            "copy 1 epoch_1",
            "remote marker 1 epoch_1/_SUCCESS",
            "local marker 1 epoch_1/_UPLOAD_COMPLETED",
        ]
    );
}

#[test]
fn empty_missing_list_selects_every_local_epoch() {
    let handler = DBCheckpointHandler::new(10, false, 0);
    let local = index(&[(4, "epoch_4")]);
    let actions = handler.upload_db_checkpoints_to_object_store(&Vec::new(), &local);
    assert_eq!(
        lines(&actions),
        vec![
            "copy 4 epoch_4",
            "remote marker 4 epoch_4/_SUCCESS",
            "local marker 4 epoch_4/_UPLOAD_COMPLETED",
        ]
    );
}

#[test]
fn empty_local_index_gives_an_empty_plan() {
    let handler = DBCheckpointHandler::new(10, true, 0);
    let actions = handler.upload_db_checkpoints_to_object_store(&vec![0], &BTreeMap::new());
    assert!(actions.is_empty());
}

#[test]
fn highest_epoch_is_planned_like_any_other() {
    let handler = DBCheckpointHandler::new(10, false, 0);
    let local = index(&[(u32::MAX, "epoch_4294967295")]);
    let actions = handler.upload_db_checkpoints_to_object_store(&vec![7], &local);
    assert_eq!(
        lines(&actions),
        vec![
            "copy 4294967295 epoch_4294967295",
            "remote marker 4294967295 epoch_4294967295/_SUCCESS",
            "local marker 4294967295 epoch_4294967295/_UPLOAD_COMPLETED",
        ]
    );
}

#[test]
fn selection_goes_by_the_list_and_its_sentinel() {
    let missing = vec![2, 5, 9];
    assert!(selects(&missing, 2));
    assert!(selects(&missing, 5));
    assert!(selects(&missing, 9));
    assert!(selects(&missing, 10));
    assert!(selects(&missing, u32::MAX));
    assert!(!selects(&missing, 0));
    assert!(!selects(&missing, 3));
    assert!(!selects(&missing, 8));
    assert!(selects(&Vec::new(), 0));
}

#[test]
fn copy_concurrency_is_twenty() {
    assert_eq!(COPY_CONCURRENCY, 20);
}

#[test]
fn marker_name_is_kept_as_one_path_segment() {
    let handler = DBCheckpointHandler::new(10, false, 0);
    let local = index(&[(1, "a b/epoch_1")]);
    let actions = handler.upload_db_checkpoints_to_object_store(&vec![0], &local);
    assert_eq!(
        lines(&actions),
        vec![
            "copy 1 a b/epoch_1",
            "remote marker 1 a b/epoch_1/_SUCCESS",
            "local marker 1 a b/epoch_1/_UPLOAD_COMPLETED",
        ]
    );
}
