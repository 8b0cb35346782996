use sync_saves::codec::ArchiveError;
use sync_saves::fingerprint::fingerprint;
use sync_saves::ledger::{commit_ops, AuthConfig, LedgerOp, NewVersion};
use sync_saves::sync::{SyncAction, SyncContext, SyncError, SyncEvent, SyncItem, SyncPhase, SyncResult, SyncSession};

#[derive(Default)]
struct FakeStore {
    devices: Vec<(String, String)>,
    items: Vec<(String, String)>,
    versions: Vec<(String, String, String, bool)>,
    uploads: Vec<String>,
    sent: usize,
    fail_upload: bool,
}

impl FakeStore {
    fn respond(&mut self, op: &LedgerOp) -> SyncEvent {
        self.sent += 1;
        match op {
            LedgerOp::FindDevice { machine_id } => SyncEvent::Rows(Ok(self
                .devices
                .iter()
                .filter(|d| &d.0 == machine_id)
                .map(|d| d.1.clone())
                .collect())),
            LedgerOp::CreateDevice { machine_id, .. } => {
                let id = format!("dev-{}", self.devices.len() + 1);
                self.devices.push((machine_id.clone(), id.clone()));
                SyncEvent::Rows(Ok(vec![id]))
            }
            LedgerOp::FindItem { slug } => SyncEvent::Rows(Ok(self
                .items
                .iter()
                .filter(|i| &i.0 == slug)
                .map(|i| i.1.clone())
                .collect())),
            LedgerOp::CreateItem { slug, .. } => {
                let id = format!("item-{}", self.items.len() + 1);
                self.items.push((slug.clone(), id.clone()));
                SyncEvent::Rows(Ok(vec![id]))
            }
            LedgerOp::UpsertPath { .. } => SyncEvent::Status(Ok((true, String::new()))),
            LedgerOp::LatestFingerprint { item_id } => SyncEvent::Rows(Ok(self
                .versions
                .iter()
                .filter(|v| &v.1 == item_id && v.3)
                .map(|v| v.2.clone())
                .collect())),
            LedgerOp::Upload { storage_path, .. } => {
                if self.fail_upload {
                    SyncEvent::Status(Ok((false, "boom".to_string())))
                } else {
                    self.uploads.push(storage_path.clone());
                    SyncEvent::Status(Ok((true, String::new())))
                }
            }
            LedgerOp::ClearLatest { item_id } => {
                for v in self.versions.iter_mut() {
                    if &v.1 == item_id {
                        v.3 = false;
                    }
                }
                SyncEvent::Status(Ok((true, String::new())))
            }
            LedgerOp::InsertVersion { version } => {
                self.versions.push((version.id.clone(), version.item_id.clone(), version.checksum.clone(), true));
                SyncEvent::Status(Ok((true, String::new())))
            }
        }
    }

    fn latest_count(&self, item: &str) -> usize {
        self.versions.iter().filter(|v| v.1 == item && v.3).count()
    }
}

fn item(enabled: bool) -> SyncItem {
    SyncItem {
        id: "local-1".to_string(),
        name: "Hollow Knight".to_string(),
        slug: "hollow-knight".to_string(),
        local_path: "/saves/hk".to_string(),
        sync_enabled: enabled,
        cover_url: None,
    }
}

fn ctx() -> SyncContext {
    SyncContext {
        auth: AuthConfig {
            url: "https://store.example".to_string(),
            key: "anon".to_string(),
            token: "tok".to_string(),
            user_id: "u1".to_string(),
        },
        machine_id: "machine-a".to_string(),
        device_name: "desk".to_string(),
        os: "linux".to_string(),
    }
}

/// Runs a session to its end; returns the outcome, the scratch file it asked
/// to remove, and a log of the action kinds.
fn run(
    store: &mut FakeStore,
    it: SyncItem,
    path_exists: bool,
    blob: Result<Vec<u8>, ArchiveError>,
) -> (Result<SyncResult, SyncError>, Option<String>, Vec<&'static str>) {
    let mut s = SyncSession::new(it, ctx());
    let mut log = Vec::new();
    let mut blob = Some(blob);
    let mut action = s.step(SyncEvent::Begin);
    loop {
        let event = match &action {
            SyncAction::CheckPath(_) => {
                log.push("check");
                SyncEvent::PathChecked(path_exists)
            }
            SyncAction::Pack { scratch, .. } => {
                assert_eq!(scratch, "hollow-knight.zip");
                log.push("pack");
                SyncEvent::Packed(blob.take().unwrap())
            }
            SyncAction::Send(op) => {
                log.push("send");
                store.respond(op)
            }
            SyncAction::Finish { .. } => break,
        };
        action = s.step(event);
    }
    assert_eq!(s.phase, SyncPhase::Done);
    match action {
        SyncAction::Finish { outcome, remove_scratch } => (outcome, remove_scratch, log),
        _ => unreachable!(),
    }
}

#[test]
fn missing_local_path_is_not_found_without_packing_or_network() {
    let mut store = FakeStore::default();
    let (out, remove, log) = run(&mut store, item(true), false, Ok(vec![1]));
    match out {
        Err(SyncError::NotFound(m)) => assert_eq!(m, "Local path does not exist: /saves/hk"),
        other => panic!("expected not found, got {:?}", other),
    }
    assert_eq!(log, vec!["check"]);
    assert_eq!(remove, None);
    assert_eq!(store.sent, 0);
}

#[test]
fn disabled_item_is_precondition_failed() {
    let mut store = FakeStore::default();
    let (out, _, log) = run(&mut store, item(false), true, Ok(vec![1]));
    match out {
        Err(SyncError::PreconditionFailed(m)) => assert_eq!(m, "Sync is disabled for this game"),
        other => panic!("expected precondition failure, got {:?}", other),
    }
    assert!(log.is_empty());
    assert_eq!(store.sent, 0);
}

#[test]
fn second_sync_of_unchanged_content_is_skipped() {
    let mut store = FakeStore::default();
    let blob = vec![1u8, 2, 3, 4, 5];
    let (first, remove1, _) = run(&mut store, item(true), true, Ok(blob.clone()));
    let first = first.expect("first sync");
    assert!(first.success);
    assert!(!first.skipped);
    assert_eq!(first.message, "Sync successful");
    let vid = first.version_id.clone().expect("a version id");
    assert_eq!(vid.len(), 36);
    assert_eq!(first.checksum.as_deref(), Some(fingerprint(&blob).as_str()));
    assert_eq!(first.file_size, Some(5));
    assert_eq!(remove1.as_deref(), Some("hollow-knight.zip"));
    assert_eq!(store.uploads, vec![format!("u1/hollow-knight/{}.zip", vid)]);

    let (second, remove2, _) = run(&mut store, item(true), true, Ok(blob.clone()));
    let second = second.expect("second sync");
    assert!(second.skipped);
    assert_eq!(second.version_id, None);
    assert_eq!(second.message, "Content unchanged, sync skipped");
    assert_eq!(remove2.as_deref(), Some("hollow-knight.zip"));
    assert_eq!(store.versions.len(), 1);
    assert_eq!(store.uploads.len(), 1);
    assert_eq!(store.devices.len(), 1);
    assert_eq!(store.items.len(), 1);
}

#[test]
fn different_remote_fingerprint_uploads_and_moves_latest() {
    let mut store = FakeStore::default();
    store.devices.push(("machine-a".to_string(), "dev-9".to_string()));
    store.items.push(("hollow-knight".to_string(), "item-9".to_string()));
    store.versions.push(("old".to_string(), "item-9".to_string(), "other".to_string(), true));
    let (out, _, _) = run(&mut store, item(true), true, Ok(vec![9, 9, 9]));
    let out = out.expect("sync");
    assert!(!out.skipped);
    assert_eq!(out.device_id.as_deref(), Some("dev-9"));
    assert_eq!(out.cloud_game_id.as_deref(), Some("item-9"));
    assert_eq!(store.uploads.len(), 1);
    assert_eq!(store.versions.len(), 2);
    assert!(!store.versions[0].3, "previous latest is cleared");
    assert!(store.versions[1].3, "new version is latest");
    assert_eq!(Some(store.versions[1].0.clone()), out.version_id);
}

#[test]
fn repeated_changes_keep_exactly_one_latest() {
    let mut store = FakeStore::default();
    let mut last = None;
    for n in 0..4u8 {
        let (out, _, _) = run(&mut store, item(true), true, Ok(vec![n; 10]));
        last = out.unwrap().version_id;
        assert_eq!(store.latest_count("item-1"), 1);
    }
    let latest: Vec<_> = store.versions.iter().filter(|v| v.3).collect();
    assert_eq!(Some(latest[0].0.clone()), last);
    assert_eq!(store.versions.len(), 4);
}

#[test]
fn failed_upload_is_transient_and_leaves_ledger_alone() {
    let mut store = FakeStore::default();
    store.fail_upload = true;
    let (out, remove, _) = run(&mut store, item(true), true, Ok(vec![1]));
    match out {
        Err(SyncError::Transient(m)) => assert_eq!(m, "Upload failed: boom"),
        other => panic!("expected transient, got {:?}", other),
    }
    assert_eq!(remove, None);
    assert!(store.versions.is_empty());
}

#[test]
fn failed_pack_is_io_error() {
    let mut store = FakeStore::default();
    let (out, _, log) = run(&mut store, item(true), true, Err(ArchiveError::Io("disk full".to_string())));
    match out {
        Err(SyncError::IoError(m)) => assert_eq!(m, "Compression failed: disk full"),
        other => panic!("expected io error, got {:?}", other),
    }
    assert_eq!(log, vec!["check", "pack"]);
    assert_eq!(store.sent, 0);
}

#[test]
fn step_with_id_names_storage_path() {
    let mut s = SyncSession::new(item(true), ctx());
    s.step(SyncEvent::Begin);
    s.step(SyncEvent::PathChecked(true));
    s.step(SyncEvent::Packed(Ok(vec![1, 2])));
    s.step(SyncEvent::Rows(Ok(vec!["d".to_string()])));
    s.step(SyncEvent::Rows(Ok(vec!["g".to_string()])));
    s.step(SyncEvent::Status(Ok((true, String::new()))));
    let a = s.step_with_id(SyncEvent::Rows(Ok(vec![])), "v-1".to_string());
    match a {
        SyncAction::Send(LedgerOp::Upload { storage_path, file_name }) => {
            assert_eq!(storage_path, "u1/hollow-knight/v-1.zip");
            assert_eq!(file_name, "v-1.zip");
        }
        other => panic!("expected upload, got {:?}", other),
    }
    s.step(SyncEvent::Status(Ok((true, String::new()))));
    match s.step(SyncEvent::Status(Ok((true, String::new())))) {
        SyncAction::Send(LedgerOp::InsertVersion { version }) => {
            assert_eq!(version.id, "v-1");
            assert_eq!(version.item_id, "g");
            assert_eq!(version.device_id, "d");
            assert_eq!(version.file_size, 2);
            assert_eq!(version.file_path, "u1/hollow-knight/v-1.zip");
        }
        other => panic!("expected insert, got {:?}", other),
    }
}

#[test]
fn failed_clear_of_latest_aborts_before_insert() {
    let mut s = SyncSession::new(item(true), ctx());
    s.step(SyncEvent::Begin);
    s.step(SyncEvent::PathChecked(true));
    s.step(SyncEvent::Packed(Ok(vec![1, 2])));
    s.step(SyncEvent::Rows(Ok(vec!["d".to_string()])));
    s.step(SyncEvent::Rows(Ok(vec!["g".to_string()])));
    s.step(SyncEvent::Status(Ok((true, String::new()))));
    s.step_with_id(SyncEvent::Rows(Ok(vec![])), "v-1".to_string());
    match s.step(SyncEvent::Status(Ok((true, String::new())))) {
        SyncAction::Send(LedgerOp::ClearLatest { item_id }) => assert_eq!(item_id, "g"),
        other => panic!("expected clear, got {:?}", other),
    }
    match s.step(SyncEvent::Status(Ok((false, "500 Internal Server Error".to_string())))) {
        SyncAction::Finish { outcome: Err(SyncError::Transient(m)), remove_scratch: None } => {
            assert_eq!(m, "Failed to clear the latest version: 500 Internal Server Error")
        }
        other => panic!("expected transient failure, got {:?}", other),
    }
    assert_eq!(s.phase, SyncPhase::Done);
}

#[test]
fn unexpected_event_ends_the_session() {
    let mut s = SyncSession::new(item(true), ctx());
    match s.step(SyncEvent::PathChecked(true)) {
        SyncAction::Finish { outcome: Err(SyncError::Transient(_)), .. } => {}
        other => panic!("expected failure, got {:?}", other),
    }
}

#[test]
fn commit_is_clear_then_insert() {
    let v = NewVersion {
        id: "v".to_string(),
        item_id: "g".to_string(),
        device_id: "d".to_string(),
        file_path: "p".to_string(),
        file_size: 3,
        checksum: "c".to_string(),
    };
    let ops = commit_ops(&v);
    assert_eq!(ops.len(), 2);
    assert!(matches!(&ops[0], LedgerOp::ClearLatest { item_id } if item_id == "g"));
    assert!(matches!(&ops[1], LedgerOp::InsertVersion { version } if version.id == "v" && version.checksum == "c"));
}

#[test]
fn error_messages() {
    assert_eq!(SyncError::Corrupt("bad".to_string()).message(), "bad");
    assert_eq!(SyncError::Transient("net".to_string()).message(), "net");
}
