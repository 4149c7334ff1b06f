use db_checkpoint_handler::gap::MarkerRead;
use db_checkpoint_handler::progress::{Progress, StepOutcome};
use db_checkpoint_handler::upload::UploadAction;
use db_checkpoint_handler::{
    DBCheckpointHandler, SUCCESS_MARKER, TEST_MARKER, UPLOAD_COMPLETED_MARKER,
};
use std::collections::{BTreeMap, BTreeSet};

/// A store held in memory: the directories at its root, and its files by
/// location.
struct MemStore {
    dirs: BTreeSet<String>,
    files: BTreeMap<String, Vec<u8>>,
}

impl MemStore {
    fn new() -> Self {
        MemStore { dirs: BTreeSet::new(), files: BTreeMap::new() }
    }

    fn create_dir(&mut self, name: &str) {
        self.dirs.insert(name.to_string());
    }

    fn write(&mut self, location: &str, content: &[u8]) {
        if let Some((dir, _)) = location.split_once('/') {
            self.dirs.insert(dir.to_string());
        }
        self.files.insert(location.to_string(), content.to_vec());
    }

    fn has_file(&self, location: &str) -> bool {
        self.files.contains_key(location)
    }

    fn list_root(&self) -> Vec<String> {
        self.dirs.iter().cloned().collect()
    }

    fn read(&self, location: &str) -> MarkerRead {
        if self.files.contains_key(location) {
            MarkerRead::Found
        } else {
            MarkerRead::NotFound
        }
    }

    fn files_under(&self, dir: &str) -> Vec<(String, Vec<u8>)> {
        let prefix = format!("{}/", dir);
        self.files
            .iter()
            .filter(|(location, _)| location.starts_with(&prefix))
            .map(|(location, content)| (location.clone(), content.clone()))
            .collect()
    }

    fn remove_file(&mut self, location: &str) {
        self.files.remove(location);
    }

    fn remove_dir_all(&mut self, dir: &str) {
        for (location, _) in self.files_under(dir) {
            self.files.remove(&location);
        }
        self.dirs.remove(dir);
    }
}

fn find_missing(handler: &DBCheckpointHandler, remote: &MemStore) -> Vec<u32> {
    let index = handler.read_checkpoint_dir(&remote.list_root()).unwrap();
    let mut observed = BTreeMap::new();
    for probe in handler.completion_marker_probes(&index) {
        observed.insert(probe.epoch, remote.read(&probe.path));
    }
    handler.find_all_missing_checkpoint_epochs(&observed)
}

fn upload(
    handler: &DBCheckpointHandler,
    local: &mut MemStore,
    remote: &mut MemStore,
    missing: Vec<u32>,
) {
    let progress = upload_failing_at(handler, local, remote, missing, None);
    assert!(!progress.has_failed());
}

/// Runs an upload cycle in which the step at position `failing` fails.
fn upload_failing_at(
    handler: &DBCheckpointHandler,
    local: &mut MemStore,
    remote: &mut MemStore,
    missing: Vec<u32>,
    failing: Option<usize>,
) -> Progress {
    let index = handler.read_checkpoint_dir(&local.list_root()).unwrap();
    let actions = handler.upload_db_checkpoints_to_object_store(&missing, &index);
    let mut progress = Progress::new(actions.len());
    while let Some(step) = progress.next_step() {
        if failing == Some(step) {
            progress.record(StepOutcome::Failed);
            continue;
        }
        match &actions[step] {
            UploadAction::PruneAndCompact { .. } => {}
            UploadAction::CopyDirectory { location, .. } => {
                for (file, content) in local.files_under(location) {
                    remote.write(&file, &content);
                }
            }
            UploadAction::WriteRemoteMarker { path, .. } => remote.write(path, b"success"),
            UploadAction::WriteLocalMarker { path, .. } => local.write(path, b"success"),
        }
        progress.record(StepOutcome::Succeeded);
    }
    progress
}

fn collect_garbage(handler: &DBCheckpointHandler, local: &mut MemStore) -> Vec<u32> {
    collect_garbage_failing_at(handler, local, None).unwrap()
}

/// Runs a garbage collection pass in which the deletion of the epoch
/// `failing` fails after one file of the directory is gone.
fn collect_garbage_failing_at(
    handler: &DBCheckpointHandler,
    local: &mut MemStore,
    failing: Option<u32>,
) -> Result<Vec<u32>, u32> {
    let index = handler.read_checkpoint_dir(&local.list_root()).unwrap();
    let mut reads = BTreeMap::new();
    for probe in handler.readiness_marker_probes(&index) {
        let epoch_reads: Vec<MarkerRead> =
            probe.paths.iter().map(|path| local.read(path)).collect();
        reads.insert(probe.epoch, epoch_reads);
    }
    let deletions = handler.garbage_collect_old_db_checkpoints(&index, &reads);
    let mut progress = Progress::new(deletions.len());
    while let Some(step) = progress.next_step() {
        let epoch = deletions[step];
        if failing == Some(epoch) {
            local.remove_file(&format!("{}/file1", index[&epoch]));
            progress.record(StepOutcome::Failed);
        } else {
            local.remove_dir_all(&index[&epoch]);
            progress.record(StepOutcome::Succeeded);
        }
    }
    if progress.has_failed() {
        Err(deletions[progress.completed()])
    } else {
        Ok(deletions)
    }
}

fn write_checkpoint(store: &mut MemStore, dir: &str) {
    store.create_dir(dir);
    store.write(&format!("{}/file1", dir), b"Lorem ipsum");
    store.write(&format!("{}/file2", dir), b"Lorem ipsum");
    store.write(&format!("{}/data/file3", dir), b"Lorem ipsum");
}

#[test]
fn test_basic() {
    let mut local = MemStore::new();
    let mut remote = MemStore::new();
    write_checkpoint(&mut local, "epoch_0");

    let handler = DBCheckpointHandler::new_for_test(10, false);
    let local_checkpoints_by_epoch = handler.read_checkpoint_dir(&local.list_root()).unwrap();
    assert!(!local_checkpoints_by_epoch.is_empty());
    assert_eq!(*local_checkpoints_by_epoch.first_key_value().unwrap().0, 0);
    assert_eq!(local_checkpoints_by_epoch.first_key_value().unwrap().1, "epoch_0");

    let missing_epochs = find_missing(&handler, &remote);
    upload(&handler, &mut local, &mut remote, missing_epochs);

    assert!(remote.has_file("epoch_0/file1"));
    assert!(remote.has_file("epoch_0/file2"));
    assert!(remote.has_file("epoch_0/data/file3"));
    assert!(remote.has_file(&format!("epoch_0/{}", SUCCESS_MARKER)));
    assert!(local.has_file(&format!("epoch_0/{}", UPLOAD_COMPLETED_MARKER)));

    // An extra marker that only garbage collection waits for.
    local.write(&format!("epoch_0/{}", TEST_MARKER), b"Lorem ipsum");
    collect_garbage(&handler, &mut local);

    assert!(!local.has_file("epoch_0/file1"));
    assert!(!local.has_file("epoch_0/file1"));
    assert!(!local.has_file("epoch_0/file2"));
    assert!(!local.has_file("epoch_0/data/file3"));
}

#[test]
fn test_upload_resumes() {
    let mut local = MemStore::new();
    let mut remote = MemStore::new();
    let handler = DBCheckpointHandler::new_for_test(10, false);

    write_checkpoint(&mut local, "epoch_0");

    let missing_epochs = find_missing(&handler, &remote);
    upload(&handler, &mut local, &mut remote, missing_epochs);
    assert!(remote.has_file("epoch_0/file1"));
    assert!(remote.has_file("epoch_0/file2"));
    assert!(remote.has_file("epoch_0/data/file3"));
    assert!(remote.has_file(&format!("epoch_0/{}", SUCCESS_MARKER)));
    assert!(local.has_file(&format!("epoch_0/{}", UPLOAD_COMPLETED_MARKER)));

    // A new checkpoint appears locally.
    write_checkpoint(&mut local, "epoch_1");

    // The remote completion marker goes: the upload stopped half way.
    remote.remove_file(&format!("epoch_0/{}", SUCCESS_MARKER));

    // epoch_0 is copied again, before epoch_1.
    let missing_epochs = find_missing(&handler, &remote);
    upload(&handler, &mut local, &mut remote, missing_epochs);
    assert!(remote.has_file("epoch_0/file1"));
    assert!(remote.has_file("epoch_0/file2"));
    assert!(remote.has_file("epoch_0/data/file3"));
    assert!(remote.has_file(&format!("epoch_0/{}", SUCCESS_MARKER)));
    assert!(local.has_file(&format!("epoch_0/{}", UPLOAD_COMPLETED_MARKER)));

    assert!(remote.has_file("epoch_1/file1"));
    assert!(remote.has_file("epoch_1/file2"));
    assert!(remote.has_file("epoch_1/data/file3"));
    assert!(remote.has_file(&format!("epoch_1/{}", SUCCESS_MARKER)));
    assert!(local.has_file(&format!("epoch_1/{}", UPLOAD_COMPLETED_MARKER)));

    // An extra marker that only garbage collection waits for.
    local.write(&format!("epoch_0/{}", TEST_MARKER), b"Lorem ipsum");
    local.write(&format!("epoch_1/{}", TEST_MARKER), b"Lorem ipsum");

    collect_garbage(&handler, &mut local);
    assert!(!local.has_file("epoch_0/file1"));
    assert!(!local.has_file("epoch_0/file1"));
    assert!(!local.has_file("epoch_0/file2"));
    assert!(!local.has_file("epoch_0/data/file3"));
    assert!(!local.has_file("epoch_1/file1"));
    assert!(!local.has_file("epoch_1/file1"));
    assert!(!local.has_file("epoch_1/file2"));
    assert!(!local.has_file("epoch_1/data/file3"));
}

#[test]
fn test_missing_epochs() {
    let mut local = MemStore::new();
    let mut remote = MemStore::new();
    local.create_dir("epoch_0");
    local.create_dir("epoch_1");
    // No epoch 2.
    local.create_dir("epoch_3");

    let handler = DBCheckpointHandler::new_for_test(10, false);

    let missing_epochs = find_missing(&handler, &remote);
    upload(&handler, &mut local, &mut remote, missing_epochs);

    let first_missing_epoch = find_missing(&handler, &remote).first().cloned().unwrap();
    assert_eq!(first_missing_epoch, 2);

    remote.remove_file(&format!("epoch_0/{}", SUCCESS_MARKER));

    let first_missing_epoch = find_missing(&handler, &remote).first().cloned().unwrap();
    assert_eq!(first_missing_epoch, 0);
}

#[test]
fn test_range_missing_epochs() {
    let mut local = MemStore::new();
    let mut remote = MemStore::new();
    local.create_dir("epoch_100");
    local.create_dir("epoch_200");

    let handler = DBCheckpointHandler::new_for_test(10, false);

    let missing_epochs = find_missing(&handler, &remote);
    assert_eq!(missing_epochs, vec![0]);
    upload(&handler, &mut local, &mut remote, missing_epochs);

    let missing_epochs = find_missing(&handler, &remote);
    let mut expected_missing_epochs: Vec<u32> = (0..100).collect();
    expected_missing_epochs.extend(101..200);
    expected_missing_epochs.push(201);
    assert_eq!(missing_epochs, expected_missing_epochs);
}

#[test]
fn second_cycle_leaves_both_stores_as_they_are() {
    let mut local = MemStore::new();
    let mut remote = MemStore::new();
    write_checkpoint(&mut local, "epoch_0");
    write_checkpoint(&mut local, "epoch_2");
    remote.write("epoch_1/file1", b"older");
    let handler = DBCheckpointHandler::new(10, false, 0);

    let missing = find_missing(&handler, &remote);
    upload(&handler, &mut local, &mut remote, missing);
    let remote_once = remote.files.clone();
    let local_once = local.files.clone();

    let missing = find_missing(&handler, &remote);
    upload(&handler, &mut local, &mut remote, missing);
    assert_eq!(remote.files, remote_once);
    assert_eq!(local.files, local_once);
}

#[test]
fn incomplete_epoch_comes_before_a_later_gap() {
    let mut remote = MemStore::new();
    for dir in ["epoch_0", "epoch_1", "epoch_3"] {
        remote.write(&format!("{}/{}", dir, SUCCESS_MARKER), b"success");
    }
    let handler = DBCheckpointHandler::new(10, false, 0);
    assert_eq!(find_missing(&handler, &remote), vec![2, 4]);

    remote.remove_file(&format!("epoch_3/{}", SUCCESS_MARKER));
    remote.create_dir("epoch_3");
    assert_eq!(find_missing(&handler, &remote), vec![2, 3, 4]);

    remote.remove_file(&format!("epoch_0/{}", SUCCESS_MARKER));
    assert_eq!(find_missing(&handler, &remote)[0], 0);
}

#[test]
fn checkpoint_without_supplementary_marker_is_kept() {
    let mut local = MemStore::new();
    write_checkpoint(&mut local, "epoch_0");
    write_checkpoint(&mut local, "epoch_1");
    local.write(&format!("epoch_0/{}", UPLOAD_COMPLETED_MARKER), b"success");
    local.write(&format!("epoch_1/{}", UPLOAD_COMPLETED_MARKER), b"success");
    let handler = DBCheckpointHandler::new_for_test(10, false);

    assert_eq!(collect_garbage(&handler, &mut local), Vec::<u32>::new());
    assert!(local.has_file("epoch_0/file1"));
    assert!(local.has_file("epoch_1/file1"));

    local.write(&format!("epoch_1/{}", TEST_MARKER), b"x");
    assert_eq!(collect_garbage(&handler, &mut local), vec![1]);
    assert!(local.files_under("epoch_1").is_empty());
    assert!(local.has_file("epoch_0/file1"));
    assert!(local.has_file("epoch_0/file2"));
    assert!(local.has_file("epoch_0/data/file3"));
    assert!(local.has_file(&format!("epoch_0/{}", UPLOAD_COMPLETED_MARKER)));
}

#[test]
fn failed_deletion_touches_no_later_checkpoint() {
    let mut local = MemStore::new();
    let handler = DBCheckpointHandler::new(10, false, 0);
    for dir in ["epoch_0", "epoch_1", "epoch_2"] {
        write_checkpoint(&mut local, dir);
        local.write(&format!("{}/{}", dir, UPLOAD_COMPLETED_MARKER), b"success");
    }
    let untouched = local.files_under("epoch_2");

    assert_eq!(collect_garbage_failing_at(&handler, &mut local, Some(1)), Err(1));
    assert!(local.files_under("epoch_0").is_empty());
    assert!(!local.has_file("epoch_1/file1"));
    assert!(local.has_file("epoch_1/file2"));
    assert_eq!(local.files_under("epoch_2"), untouched);

    // The next pass takes up what is still ready.
    assert_eq!(collect_garbage(&handler, &mut local), vec![1, 2]);
    assert!(local.files.is_empty());
}

#[test]
fn failed_copy_ends_the_cycle() {
    let mut local = MemStore::new();
    let mut remote = MemStore::new();
    write_checkpoint(&mut local, "epoch_0");
    write_checkpoint(&mut local, "epoch_1");
    let handler = DBCheckpointHandler::new(10, false, 0);

    // Steps: copy 0, remote marker 0, local marker 0, copy 1, ...
    let missing = find_missing(&handler, &remote);
    let progress = upload_failing_at(&handler, &mut local, &mut remote, missing, Some(3));
    assert!(progress.has_failed());
    assert_eq!(progress.completed(), 3);
    assert!(remote.has_file(&format!("epoch_0/{}", SUCCESS_MARKER)));
    assert!(local.has_file(&format!("epoch_0/{}", UPLOAD_COMPLETED_MARKER)));
    assert!(remote.files_under("epoch_1").is_empty());
    assert!(!local.has_file(&format!("epoch_1/{}", UPLOAD_COMPLETED_MARKER)));

    // The next cycle starts at the epoch that failed.
    let missing = find_missing(&handler, &remote);
    assert_eq!(missing, vec![1]);
    upload(&handler, &mut local, &mut remote, missing);
    assert!(remote.has_file("epoch_1/file1"));
    assert!(remote.has_file(&format!("epoch_1/{}", SUCCESS_MARKER)));
    assert!(local.has_file(&format!("epoch_1/{}", UPLOAD_COMPLETED_MARKER)));
}

#[test]
fn copy_without_marker_is_taken_up_again() {
    let mut local = MemStore::new();
    let mut remote = MemStore::new();
    write_checkpoint(&mut local, "epoch_0");
    let handler = DBCheckpointHandler::new(10, false, 0);

    // The copy succeeds, the write of the remote marker fails.
    let missing = find_missing(&handler, &remote);
    let progress = upload_failing_at(&handler, &mut local, &mut remote, missing, Some(1));
    assert_eq!(progress.completed(), 1);
    assert!(remote.has_file("epoch_0/file1"));
    assert!(!remote.has_file(&format!("epoch_0/{}", SUCCESS_MARKER)));
    assert!(!local.has_file(&format!("epoch_0/{}", UPLOAD_COMPLETED_MARKER)));

    assert_eq!(find_missing(&handler, &remote), vec![0, 1]);
}
