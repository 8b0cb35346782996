//! The per-item sync session: from the item's record to a committed (or
//! skipped) version, as a state machine. Each step takes what the last
//! action brought back and names the next action; the caller performs the
//! actions (file system, network) and feeds their results back.

use vstd::prelude::*;
use crate::codec::ArchiveError;
use crate::fingerprint::{fingerprint, fingerprint_of};
use crate::ledger::{
    AuthConfig, LedgerOp, NewVersion, VersionRow, apply_ops, changes_versions, commit_ops_of, dedup_skips, is_sync_trace,
    latest_rows, lemma_latest_after_syncs,
};

verus! {

broadcast use vstd::string::group_string_axioms;

/// A synced item, as the local catalog holds it.
#[derive(Clone, Debug)]
pub struct SyncItem {
    pub id: String,
    pub name: String,
    pub slug: String,
    pub local_path: String,
    pub sync_enabled: bool,
    pub cover_url: Option<String>,
}

/// What a sync needs besides the item: the remote store, and this device.
#[derive(Clone, Debug)]
pub struct SyncContext {
    pub auth: AuthConfig,
    pub machine_id: String,
    pub device_name: String,
    pub os: String,
}

/// The outcome of a sync that succeeded.
#[derive(Clone, Debug)]
pub struct SyncResult {
    pub success: bool,
    pub message: String,
    pub file_size: Option<u64>,
    pub checksum: Option<String>,
    pub version_id: Option<String>,
    pub duration_ms: Option<u64>,
    pub cloud_game_id: Option<String>,
    pub device_id: Option<String>,
    pub skipped: bool,
}

/// Why a sync or a restore failed.
#[derive(Clone, Debug, PartialEq, Eq)]
pub enum SyncError {
    /// The item or its local path does not exist.
    NotFound(String),
    /// Sync is disabled for the item.
    PreconditionFailed(String),
    /// Reading or writing local files failed.
    IoError(String),
    /// A remote call failed: network, timeout, or a status that is not success.
    Transient(String),
    /// An archive could not be read.
    Corrupt(String),
}

impl SyncError {
    /// The human-readable message the error carries.
    pub fn message(&self) -> (r: String)
        ensures
            r@ == error_text(*self),
    {
        match self {
            SyncError::NotFound(m) | SyncError::PreconditionFailed(m) | SyncError::IoError(m)
            | SyncError::Transient(m) | SyncError::Corrupt(m) => m.clone(),
        }
    }
}

/// The message of an error.
pub open spec fn error_text(e: SyncError) -> Seq<char> {
    match e {
        SyncError::NotFound(m) | SyncError::PreconditionFailed(m) | SyncError::IoError(m)
        | SyncError::Transient(m) | SyncError::Corrupt(m) => m@,
    }
}

/// The message of an archive error.
pub open spec fn archive_error_text(e: ArchiveError) -> Seq<char> {
    match e {
        ArchiveError::Io(m) | ArchiveError::Corrupt(m) => m@,
    }
}

/// Where a session stands: which action's result it waits for.
#[derive(Clone, Copy, Debug, PartialEq, Eq, Structural)]
pub enum SyncPhase {
    Start,
    CheckingPath,
    Packing,
    FindingDevice,
    CreatingDevice,
    FindingItem,
    CreatingItem,
    UpsertingPath,
    QueryingLatest,
    Uploading,
    ClearingLatest,
    InsertingVersion,
    Done,
}

/// What the last action brought back.
#[derive(Debug)]
pub enum SyncEvent {
    /// The session is started.
    Begin,
    /// Whether the local path exists.
    PathChecked(bool),
    /// The archive image of the local path, written to the scratch file.
    Packed(Result<Vec<u8>, ArchiveError>),
    /// The values a lookup or a create answered with (ids, or fingerprints),
    /// in the order the store gave them; `Err` when the call failed.
    Rows(Result<Vec<String>, String>),
    /// Whether the store answered with a success status, and the text it
    /// answered with; `Err` when the call failed.
    Status(Result<(bool, String), String>),
}

/// What the caller does next.
#[derive(Debug)]
pub enum SyncAction {
    /// Check whether the path exists, and report `PathChecked`.
    CheckPath(String),
    /// Pack the source path into the scratch file, and report `Packed`.
    Pack { source: String, scratch: String },
    /// Send the operation to the remote store (an upload carries the
    /// session's archive image), and report `Rows` or `Status`.
    Send(LedgerOp),
    /// The sync is over. Remove the scratch file if one is named (a failure
    /// to remove it is not reported), and hand the outcome to the caller.
    Finish { outcome: Result<SyncResult, SyncError>, remove_scratch: Option<String> },
}

/// A sync of one item in progress.
#[derive(Clone, Debug)]
pub struct SyncSession {
    pub item: SyncItem,
    pub ctx: SyncContext,
    pub phase: SyncPhase,
    pub scratch: String,
    pub blob: Vec<u8>,
    pub file_size: u64,
    pub checksum: String,
    pub device_id: String,
    pub cloud_game_id: String,
    pub version_id: String,
    pub storage_path: String,
}

/// Relies on `uuid::Uuid::new_v4` and its hyphenated text form, which is 36
/// characters long.
#[verifier::external_body]
fn new_version_id() -> (r: String)
    ensures
        r@.len() == 36,
{
    uuid::Uuid::new_v4().to_string()
}

/// The action ends the sync with this error, removing no scratch file.
pub open spec fn fails_with(a: SyncAction, e: SyncError) -> bool {
    a == SyncAction::Finish { outcome: Err(e), remove_scratch: None }
}

/// The action ends the sync with a transient error of this message.
pub open spec fn fails_transient(a: SyncAction, m: Seq<char>) -> bool {
    match a {
        SyncAction::Finish { outcome: Err(SyncError::Transient(x)), remove_scratch: None } => x@ == m,
        _ => false,
    }
}

/// The action ends the sync successfully with the session's figures:
/// skipped with no version id, or synced with the session's version id; and
/// removes the scratch file.
pub open spec fn finishes_ok(a: SyncAction, s: SyncSession, skipped: bool) -> bool {
    match a {
        SyncAction::Finish { outcome: Ok(r), remove_scratch: Some(p) } => {
            &&& p@ == s.scratch@
            &&& r.success
            &&& r.skipped == skipped
            &&& r.message@ == (if skipped { "Content unchanged, sync skipped"@ } else { "Sync successful"@ })
            &&& r.file_size == Some(s.file_size)
            &&& r.checksum is Some && r.checksum->0@ == s.checksum@
            &&& (if skipped { r.version_id is None } else { r.version_id is Some && r.version_id->0@ == s.version_id@ })
            &&& r.duration_ms is None
            &&& r.cloud_game_id is Some && r.cloud_game_id->0@ == s.cloud_game_id@
            &&& r.device_id is Some && r.device_id->0@ == s.device_id@
        },
        _ => false,
    }
}

/// The action sends this operation.
pub open spec fn sends(a: SyncAction, op: LedgerOp) -> bool {
    a == SyncAction::Send(op)
}

/// The operation that upserts the item's local path on this device.
pub open spec fn upsert_op(s: SyncSession) -> LedgerOp {
    LedgerOp::UpsertPath {
        item_id: s.cloud_game_id,
        device_id: s.device_id,
        local_path: s.item.local_path,
        sync_enabled: true,
    }
}

/// The version a session commits.
pub open spec fn version_of(s: SyncSession) -> NewVersion {
    NewVersion {
        id: s.version_id,
        item_id: s.cloud_game_id,
        device_id: s.device_id,
        file_path: s.storage_path,
        file_size: s.file_size,
        checksum: s.checksum,
    }
}

/// The session is `s` with another phase.
pub open spec fn only_phase(s: SyncSession, t: SyncSession, p: SyncPhase) -> bool {
    t == SyncSession { phase: p, ..s }
}

/// One step of a session in state `s` on event `e`, to state `t` with
/// action `a`; `fresh` is the version id drawn for an upload.
pub open spec fn transition(s: SyncSession, e: SyncEvent, fresh: Seq<char>, t: SyncSession, a: SyncAction) -> bool {
    match (s.phase, e) {
        (SyncPhase::Start, SyncEvent::Begin) => if !s.item.sync_enabled {
            &&& only_phase(s, t, SyncPhase::Done)
            &&& match a {
                SyncAction::Finish { outcome: Err(SyncError::PreconditionFailed(m)), remove_scratch: None } =>
                    m@ == "Sync is disabled for this game"@,
                _ => false,
            }
        } else {
            only_phase(s, t, SyncPhase::CheckingPath) && a == SyncAction::CheckPath(s.item.local_path)
        },
        (SyncPhase::CheckingPath, SyncEvent::PathChecked(exists)) => if !exists {
            &&& only_phase(s, t, SyncPhase::Done)
            &&& match a {
                SyncAction::Finish { outcome: Err(SyncError::NotFound(m)), remove_scratch: None } =>
                    m@ == "Local path does not exist: "@ + s.item.local_path@,
                _ => false,
            }
        } else {
            &&& t == SyncSession { phase: SyncPhase::Packing, scratch: t.scratch, ..s }
            &&& t.scratch@ == s.item.slug@ + ".zip"@
            &&& a == SyncAction::Pack { source: s.item.local_path, scratch: t.scratch }
        },
        (SyncPhase::Packing, SyncEvent::Packed(r)) => match r {
            Err(err) => {
                &&& only_phase(s, t, SyncPhase::Done)
                &&& match a {
                    SyncAction::Finish { outcome: Err(SyncError::IoError(m)), remove_scratch: None } =>
                        m@ == "Compression failed: "@ + archive_error_text(err),
                    _ => false,
                }
            },
            Ok(blob) => {
                &&& t == SyncSession {
                    phase: SyncPhase::FindingDevice,
                    blob: t.blob,
                    file_size: t.file_size,
                    checksum: t.checksum,
                    ..s
                }
                &&& t.blob@ == blob@
                &&& t.file_size == blob@.len()
                &&& t.checksum@ == fingerprint_of(blob@)
                &&& sends(a, LedgerOp::FindDevice { machine_id: s.ctx.machine_id })
            },
        },
        (SyncPhase::FindingDevice, SyncEvent::Rows(r)) => match r {
            Err(m) => only_phase(s, t, SyncPhase::Done) && fails_with(a, SyncError::Transient(m)),
            Ok(ids) => if ids@.len() > 0 {
                &&& t == SyncSession { phase: SyncPhase::FindingItem, device_id: ids@[0], ..s }
                &&& sends(a, LedgerOp::FindItem { slug: s.item.slug })
            } else {
                &&& only_phase(s, t, SyncPhase::CreatingDevice)
                &&& sends(a, LedgerOp::CreateDevice { machine_id: s.ctx.machine_id, name: s.ctx.device_name, os: s.ctx.os })
            },
        },
        (SyncPhase::CreatingDevice, SyncEvent::Rows(r)) => match r {
            Err(m) => only_phase(s, t, SyncPhase::Done) && fails_with(a, SyncError::Transient(m)),
            Ok(ids) => if ids@.len() > 0 {
                &&& t == SyncSession { phase: SyncPhase::FindingItem, device_id: ids@[0], ..s }
                &&& sends(a, LedgerOp::FindItem { slug: s.item.slug })
            } else {
                only_phase(s, t, SyncPhase::Done) && fails_transient(a, "Failed to create device"@)
            },
        },
        (SyncPhase::FindingItem, SyncEvent::Rows(r)) => match r {
            Err(m) => only_phase(s, t, SyncPhase::Done) && fails_with(a, SyncError::Transient(m)),
            Ok(ids) => if ids@.len() > 0 {
                &&& t == SyncSession { phase: SyncPhase::UpsertingPath, cloud_game_id: ids@[0], ..s }
                &&& sends(a, upsert_op(t))
            } else {
                &&& only_phase(s, t, SyncPhase::CreatingItem)
                &&& sends(a, LedgerOp::CreateItem { name: s.item.name, slug: s.item.slug, cover_url: s.item.cover_url })
            },
        },
        (SyncPhase::CreatingItem, SyncEvent::Rows(r)) => match r {
            Err(m) => only_phase(s, t, SyncPhase::Done) && fails_with(a, SyncError::Transient(m)),
            Ok(ids) => if ids@.len() > 0 {
                &&& t == SyncSession { phase: SyncPhase::UpsertingPath, cloud_game_id: ids@[0], ..s }
                &&& sends(a, upsert_op(t))
            } else {
                only_phase(s, t, SyncPhase::Done) && fails_transient(a, "Failed to create cloud game"@)
            },
        },
        (SyncPhase::UpsertingPath, SyncEvent::Status(r)) => match r {
            Err(m) => only_phase(s, t, SyncPhase::Done) && fails_with(a, SyncError::Transient(m)),
            Ok((ok, text)) => if ok {
                only_phase(s, t, SyncPhase::QueryingLatest) && sends(a, LedgerOp::LatestFingerprint { item_id: s.cloud_game_id })
            } else {
                only_phase(s, t, SyncPhase::Done) && fails_transient(a, "Failed to upsert game path: "@ + text@)
            },
        },
        (SyncPhase::QueryingLatest, SyncEvent::Rows(r)) => match r {
            Err(m) => only_phase(s, t, SyncPhase::Done) && fails_with(a, SyncError::Transient(m)),
            Ok(fps) => if fps@.len() > 0 && fps@[0]@ == s.checksum@ {
                only_phase(s, t, SyncPhase::Done) && finishes_ok(a, s, true)
            } else {
                &&& t == SyncSession {
                    phase: SyncPhase::Uploading,
                    version_id: t.version_id,
                    storage_path: t.storage_path,
                    ..s
                }
                &&& t.version_id@ == fresh
                &&& t.storage_path@ == s.ctx.auth.user_id@ + "/"@ + s.item.slug@ + "/"@ + fresh + ".zip"@
                &&& match a {
                    SyncAction::Send(LedgerOp::Upload { storage_path, file_name }) =>
                        storage_path == t.storage_path && file_name@ == fresh + ".zip"@,
                    _ => false,
                }
            },
        },
        (SyncPhase::Uploading, SyncEvent::Status(r)) => match r {
            Err(m) => only_phase(s, t, SyncPhase::Done) && fails_transient(a, "Upload request failed: "@ + m@),
            Ok((ok, text)) => if ok {
                only_phase(s, t, SyncPhase::ClearingLatest) && sends(a, LedgerOp::ClearLatest { item_id: s.cloud_game_id })
            } else {
                only_phase(s, t, SyncPhase::Done) && fails_transient(a, "Upload failed: "@ + text@)
            },
        },
        (SyncPhase::ClearingLatest, SyncEvent::Status(r)) => match r {
            Err(m) => only_phase(s, t, SyncPhase::Done) && fails_with(a, SyncError::Transient(m)),
            Ok((ok, text)) => if ok {
                only_phase(s, t, SyncPhase::InsertingVersion) && sends(a, LedgerOp::InsertVersion { version: version_of(s) })
            } else {
                only_phase(s, t, SyncPhase::Done) && fails_transient(a, "Failed to clear the latest version: "@ + text@)
            },
        },
        (SyncPhase::InsertingVersion, SyncEvent::Status(r)) => match r {
            Err(m) => only_phase(s, t, SyncPhase::Done) && fails_with(a, SyncError::Transient(m)),
            Ok((ok, text)) => if ok {
                only_phase(s, t, SyncPhase::Done) && finishes_ok(a, s, false)
            } else {
                only_phase(s, t, SyncPhase::Done) && fails_transient(a, "Failed to create save version: "@ + text@)
            },
        },
        _ => only_phase(s, t, SyncPhase::Done) && fails_transient(a, "Unexpected event for this sync step"@),
    }
}

fn text_of(parts: &str, tail: &str) -> (r: String)
    ensures
        r@ == parts@ + tail@,
{
    let mut s = String::from_str(parts);
    s.append(tail);
    s
}

fn archive_error_message(e: &ArchiveError) -> (r: String)
    ensures
        r@ == archive_error_text(*e),
{
    match e {
        ArchiveError::Io(m) | ArchiveError::Corrupt(m) => m.clone(),
    }
}

impl SyncSession {
    /// A session for the item, not started yet.
    pub fn new(item: SyncItem, ctx: SyncContext) -> (r: SyncSession)
        ensures
            r.item == item,
            r.ctx == ctx,
            r.phase == SyncPhase::Start,
    {
        SyncSession {
            item,
            ctx,
            phase: SyncPhase::Start,
            scratch: String::new(),
            blob: Vec::new(),
            file_size: 0,
            checksum: String::new(),
            device_id: String::new(),
            cloud_game_id: String::new(),
            version_id: String::new(),
            storage_path: String::new(),
        }
    }

    fn end(&mut self, e: SyncError) -> (a: SyncAction)
        ensures
            only_phase(*old(self), *final(self), SyncPhase::Done),
            fails_with(a, e),
    {
        self.phase = SyncPhase::Done;
        SyncAction::Finish { outcome: Err(e), remove_scratch: None }
    }

    fn finish_ok(&mut self, skipped: bool) -> (a: SyncAction)
        ensures
            only_phase(*old(self), *final(self), SyncPhase::Done),
            finishes_ok(a, *old(self), skipped),
    {
        self.phase = SyncPhase::Done;
        let message = if skipped {
            String::from_str("Content unchanged, sync skipped")
        } else {
            String::from_str("Sync successful")
        };
        let result = SyncResult {
            success: true,
            message,
            file_size: Some(self.file_size),
            checksum: Some(self.checksum.clone()),
            version_id: if skipped { None } else { Some(self.version_id.clone()) },
            duration_ms: None,
            cloud_game_id: Some(self.cloud_game_id.clone()),
            device_id: Some(self.device_id.clone()),
            skipped,
        };
        SyncAction::Finish { outcome: Ok(result), remove_scratch: Some(self.scratch.clone()) }
    }

    fn upsert(&self) -> (op: LedgerOp)
        ensures
            op == upsert_op(*self),
    {
        LedgerOp::UpsertPath {
            item_id: self.cloud_game_id.clone(),
            device_id: self.device_id.clone(),
            local_path: self.item.local_path.clone(),
            sync_enabled: true,
        }
    }

    /// One step: takes what the last action brought back and names the next
    /// action, as `transition` states; `fresh_id` becomes the version id if
    /// this step starts an upload.
    pub fn step_with_id(&mut self, event: SyncEvent, fresh_id: String) -> (a: SyncAction)
        ensures
            transition(*old(self), event, fresh_id@, *final(self), a),
    {
        match (self.phase, event) {
            (SyncPhase::Start, SyncEvent::Begin) => {
                if !self.item.sync_enabled {
                    self.end(SyncError::PreconditionFailed(String::from_str("Sync is disabled for this game")))
                } else {
                    self.phase = SyncPhase::CheckingPath;
                    SyncAction::CheckPath(self.item.local_path.clone())
                }
            },
            (SyncPhase::CheckingPath, SyncEvent::PathChecked(exists)) => {
                if !exists {
                    let m = text_of("Local path does not exist: ", self.item.local_path.as_str());
                    self.end(SyncError::NotFound(m))
                } else {
                    let mut scratch = self.item.slug.clone();
                    scratch.append(".zip");
                    self.scratch = scratch.clone();
                    self.phase = SyncPhase::Packing;
                    SyncAction::Pack { source: self.item.local_path.clone(), scratch }
                }
            },
            (SyncPhase::Packing, SyncEvent::Packed(r)) => match r {
                Err(err) => {
                    let m = text_of("Compression failed: ", archive_error_message(&err).as_str());
                    self.end(SyncError::IoError(m))
                },
                Ok(blob) => {
                    self.checksum = fingerprint(blob.as_slice());
                    self.file_size = blob.len() as u64;
                    self.blob = blob;
                    self.phase = SyncPhase::FindingDevice;
                    SyncAction::Send(LedgerOp::FindDevice { machine_id: self.ctx.machine_id.clone() })
                },
            },
            (SyncPhase::FindingDevice, SyncEvent::Rows(r)) => match r {
                Err(m) => self.end(SyncError::Transient(m)),
                Ok(ids) => {
                    if ids.len() > 0 {
                        self.device_id = ids[0].clone();
                        self.phase = SyncPhase::FindingItem;
                        SyncAction::Send(LedgerOp::FindItem { slug: self.item.slug.clone() })
                    } else {
                        self.phase = SyncPhase::CreatingDevice;
                        SyncAction::Send(LedgerOp::CreateDevice {
                            machine_id: self.ctx.machine_id.clone(),
                            name: self.ctx.device_name.clone(),
                            os: self.ctx.os.clone(),
                        })
                    }
                },
            },
            (SyncPhase::CreatingDevice, SyncEvent::Rows(r)) => match r {
                Err(m) => self.end(SyncError::Transient(m)),
                Ok(ids) => {
                    if ids.len() > 0 {
                        self.device_id = ids[0].clone();
                        self.phase = SyncPhase::FindingItem;
                        SyncAction::Send(LedgerOp::FindItem { slug: self.item.slug.clone() })
                    } else {
                        self.end(SyncError::Transient(String::from_str("Failed to create device")))
                    }
                },
            },
            (SyncPhase::FindingItem, SyncEvent::Rows(r)) => match r {
                Err(m) => self.end(SyncError::Transient(m)),
                Ok(ids) => {
                    if ids.len() > 0 {
                        self.cloud_game_id = ids[0].clone();
                        self.phase = SyncPhase::UpsertingPath;
                        SyncAction::Send(self.upsert())
                    } else {
                        self.phase = SyncPhase::CreatingItem;
                        SyncAction::Send(LedgerOp::CreateItem {
                            name: self.item.name.clone(),
                            slug: self.item.slug.clone(),
                            cover_url: match &self.item.cover_url {
                                Some(c) => Some(c.clone()),
                                None => None,
                            },
                        })
                    }
                },
            },
            (SyncPhase::CreatingItem, SyncEvent::Rows(r)) => match r {
                Err(m) => self.end(SyncError::Transient(m)),
                Ok(ids) => {
                    if ids.len() > 0 {
                        self.cloud_game_id = ids[0].clone();
                        self.phase = SyncPhase::UpsertingPath;
                        SyncAction::Send(self.upsert())
                    } else {
                        self.end(SyncError::Transient(String::from_str("Failed to create cloud game")))
                    }
                },
            },
            (SyncPhase::UpsertingPath, SyncEvent::Status(r)) => match r {
                Err(m) => self.end(SyncError::Transient(m)),
                Ok((ok, text)) => {
                    if ok {
                        self.phase = SyncPhase::QueryingLatest;
                        SyncAction::Send(LedgerOp::LatestFingerprint { item_id: self.cloud_game_id.clone() })
                    } else {
                        let m = text_of("Failed to upsert game path: ", text.as_str());
                        self.end(SyncError::Transient(m))
                    }
                },
            },
            (SyncPhase::QueryingLatest, SyncEvent::Rows(r)) => match r {
                Err(m) => self.end(SyncError::Transient(m)),
                Ok(fps) => {
                    if fps.len() > 0 && fps[0] == self.checksum {
                        self.finish_ok(true)
                    } else {
                        let mut path = self.ctx.auth.user_id.clone();
                        path.append("/");
                        path.append(self.item.slug.as_str());
                        path.append("/");
                        path.append(fresh_id.as_str());
                        path.append(".zip");
                        let mut file_name = fresh_id.clone();
                        file_name.append(".zip");
                        self.version_id = fresh_id;
                        self.storage_path = path.clone();
                        self.phase = SyncPhase::Uploading;
                        SyncAction::Send(LedgerOp::Upload { storage_path: path, file_name })
                    }
                },
            },
            (SyncPhase::Uploading, SyncEvent::Status(r)) => match r {
                Err(m) => {
                    let m = text_of("Upload request failed: ", m.as_str());
                    self.end(SyncError::Transient(m))
                },
                Ok((ok, text)) => {
                    if ok {
                        self.phase = SyncPhase::ClearingLatest;
                        SyncAction::Send(LedgerOp::ClearLatest { item_id: self.cloud_game_id.clone() })
                    } else {
                        let m = text_of("Upload failed: ", text.as_str());
                        self.end(SyncError::Transient(m))
                    }
                },
            },
            (SyncPhase::ClearingLatest, SyncEvent::Status(Err(m))) => self.end(SyncError::Transient(m)),
            (SyncPhase::ClearingLatest, SyncEvent::Status(Ok((false, text)))) => {
                let m = text_of("Failed to clear the latest version: ", text.as_str());
                self.end(SyncError::Transient(m))
            },
            (SyncPhase::ClearingLatest, SyncEvent::Status(Ok((true, _)))) => {
                self.phase = SyncPhase::InsertingVersion;
                SyncAction::Send(LedgerOp::InsertVersion {
                    version: NewVersion {
                        id: self.version_id.clone(),
                        item_id: self.cloud_game_id.clone(),
                        device_id: self.device_id.clone(),
                        file_path: self.storage_path.clone(),
                        file_size: self.file_size,
                        checksum: self.checksum.clone(),
                    },
                })
            },
            (SyncPhase::InsertingVersion, SyncEvent::Status(r)) => match r {
                Err(m) => self.end(SyncError::Transient(m)),
                Ok((ok, text)) => {
                    if ok {
                        self.finish_ok(false)
                    } else {
                        let m = text_of("Failed to create save version: ", text.as_str());
                        self.end(SyncError::Transient(m))
                    }
                },
            },
            _ => self.end(SyncError::Transient(String::from_str("Unexpected event for this sync step"))),
        }
    }

    /// One step, drawing a fresh version id for an upload: what follows is
    /// as `transition` states for some 36-character id.
    pub fn step(&mut self, event: SyncEvent) -> (a: SyncAction)
        ensures
            exists|fresh: Seq<char>| fresh.len() == 36 && transition(*old(self), event, fresh, *final(self), a),
    {
        let fresh = new_version_id();
        self.step_with_id(event, fresh)
    }
}

/// A session commits as the ledger's commit protocol states: once its
/// upload succeeded, its next two operations, the first one succeeding,
/// are the commit of its version (the item's latest marker
/// cleared, then the version, with the session's fingerprint, inserted as
/// latest), and the second success ends the sync as synced.
pub proof fn lemma_session_commit(
    s: SyncSession,
    text: String,
    fresh: Seq<char>,
    t: SyncSession,
    a1: SyncAction,
    text2: String,
    u: SyncSession,
    a2: SyncAction,
    text3: String,
    w: SyncSession,
    a3: SyncAction,
)
    requires
        s.phase == SyncPhase::Uploading,
        transition(s, SyncEvent::Status(Ok((true, text))), fresh, t, a1),
        transition(t, SyncEvent::Status(Ok((true, text2))), fresh, u, a2),
        transition(u, SyncEvent::Status(Ok((true, text3))), fresh, w, a3),
    ensures
        a1 == SyncAction::Send(commit_ops_of(version_of(s))[0]),
        a2 == SyncAction::Send(commit_ops_of(version_of(s))[1]),
        version_of(s).checksum == s.checksum,
        version_of(s).item_id == s.cloud_game_id,
        w.phase == SyncPhase::Done,
        finishes_ok(a3, s, false),
{
    assert(t == SyncSession { phase: SyncPhase::ClearingLatest, ..s });
    assert(u == SyncSession { phase: SyncPhase::InsertingVersion, ..s });
    assert(version_of(u) == version_of(s));
}

/// A session whose latest-fingerprint lookup answers first with the
/// fingerprint it computed (the dedup rule holds) finishes as skipped,
/// with no version id, and sends no further operation.
pub proof fn lemma_session_skips_unchanged(s: SyncSession, fps: Vec<String>, fresh: Seq<char>, t: SyncSession, a: SyncAction)
    requires
        s.phase == SyncPhase::QueryingLatest,
        fps@.len() > 0,
        dedup_skips(Some(fps@[0]@), s.checksum@),
        transition(s, SyncEvent::Rows(Ok(fps)), fresh, t, a),
    ensures
        t.phase == SyncPhase::Done,
        finishes_ok(a, s, true),
        a is Finish,
{
}

/// Whether the states, events, drawn ids and actions are a run of a session
/// from its start: each step a transition.
pub open spec fn is_run(ss: Seq<SyncSession>, es: Seq<SyncEvent>, fr: Seq<Seq<char>>, acts: Seq<SyncAction>) -> bool {
    &&& ss.len() == es.len() + 1
    &&& acts.len() == es.len()
    &&& fr.len() == es.len()
    &&& ss[0].phase == SyncPhase::Start
    &&& forall|i: int| #![trigger es[i]] 0 <= i < es.len() ==> transition(ss[i], es[i], fr[i], ss[i + 1], acts[i])
}

/// The operations the actions send, in order.
pub open spec fn sent_ops(acts: Seq<SyncAction>) -> Seq<LedgerOp>
    decreases acts.len(),
{
    if acts.len() == 0 {
        Seq::empty()
    } else {
        let r = sent_ops(acts.drop_last());
        match acts.last() {
            SyncAction::Send(op) => r.push(op),
            _ => r,
        }
    }
}

/// Whether none of the operations changes the version rows.
pub open spec fn unchanging(ops: Seq<LedgerOp>) -> bool {
    forall|i: int| 0 <= i < ops.len() ==> !changes_versions(#[trigger] ops[i])
}

/// What a session has sent so far, by phase: nothing that changes versions
/// until its upload succeeded; then the clear of its item's latest marker;
/// then the whole commit of its version.
pub open spec fn trace_so_far(s: SyncSession, ops: Seq<LedgerOp>) -> bool {
    match s.phase {
        SyncPhase::ClearingLatest => ops.len() >= 1 && ops.last() == commit_ops_of(version_of(s))[0]
            && unchanging(ops.drop_last()),
        SyncPhase::InsertingVersion => ops.len() >= 2 && ops.subrange(ops.len() - 2, ops.len() as int)
            == commit_ops_of(version_of(s)) && unchanging(ops.subrange(0, ops.len() - 2)),
        SyncPhase::Done => true,
        _ => unchanging(ops),
    }
}

proof fn lemma_unchanging_push(ops: Seq<LedgerOp>, op: LedgerOp)
    requires
        unchanging(ops),
        !changes_versions(op),
    ensures
        unchanging(ops.push(op)),
{
    assert forall|i: int| 0 <= i < ops.push(op).len() implies !changes_versions(#[trigger] ops.push(op)[i]) by {
        if i < ops.len() {
            assert(ops.push(op)[i] == ops[i]);
        }
    }
}

/// One step keeps `trace_so_far`; a step that ends the sync successfully
/// leaves a sync trace of the session's remote item, ending in the commit of
/// its version when the sync was not skipped.
#[verifier::rlimit(40)]
proof fn lemma_step_trace(s: SyncSession, e: SyncEvent, f: Seq<char>, t: SyncSession, a: SyncAction, ops: Seq<LedgerOp>)
    requires
        s.phase != SyncPhase::Done,
        transition(s, e, f, t, a),
        trace_so_far(s, ops),
    ensures
        ({
            let next = match a {
                SyncAction::Send(op) => ops.push(op),
                _ => ops,
            };
            &&& t.phase != SyncPhase::Done ==> trace_so_far(t, next)
            &&& match a {
                SyncAction::Finish { outcome: Ok(r), .. } => {
                    &&& is_sync_trace(next, s.cloud_game_id@)
                    &&& (!r.skipped ==> next.len() >= 2
                        && next.subrange(next.len() - 2, next.len() as int) == commit_ops_of(version_of(s))
                        && r.version_id is Some && r.version_id->0@ == version_of(s).id@)
                    &&& (r.skipped ==> unchanging(next))
                },
                _ => true,
            }
        }),
{
    match a {
        SyncAction::Send(op) => {
            if !changes_versions(op) && !(t.phase is ClearingLatest) && !(t.phase is InsertingVersion) {
                lemma_unchanging_push(ops, op);
            }
            if t.phase is ClearingLatest {
                assert(ops.push(op).drop_last() =~= ops);
            }
            if t.phase is InsertingVersion {
                let n = ops.push(op);
                assert(n.subrange(0, n.len() - 2) =~= ops.drop_last());
                assert(n.subrange(n.len() - 2, n.len() as int) =~= seq![ops.last(), op]);
                assert(version_of(t) == version_of(s));
            }
        },
        SyncAction::Finish { outcome: Ok(r), .. } => {
            if s.phase is InsertingVersion {
                let v = version_of(s);
                assert(commit_ops_of(v) == ops.subrange(ops.len() - 2, ops.len() as int));
                assert forall|i: int| 0 <= i < ops.len() - 2 implies !changes_versions(#[trigger] ops[i]) by {
                    assert(ops[i] == ops.subrange(0, ops.len() - 2)[i]);
                }
                assert(is_sync_trace(ops, s.cloud_game_id@));
            }
        },
        _ => {},
    }
}

proof fn lemma_done_absorbs(ss: Seq<SyncSession>, es: Seq<SyncEvent>, fr: Seq<Seq<char>>, acts: Seq<SyncAction>, j: int, k: int)
    requires
        is_run(ss, es, fr, acts),
        0 <= j <= k < ss.len(),
        ss[j].phase == SyncPhase::Done,
    ensures
        ss[k].phase == SyncPhase::Done,
        k < acts.len() ==> !(acts[k] matches SyncAction::Finish { outcome: Ok(_), .. }),
    decreases k - j,
{
    if j < k {
        lemma_done_absorbs(ss, es, fr, acts, j, k - 1);
        assert(transition(ss[k - 1], es[k - 1], fr[k - 1], ss[k], acts[k - 1]));
    }
    if k < acts.len() {
        assert(transition(ss[k], es[k], fr[k], ss[k + 1], acts[k]));
    }
}

proof fn lemma_run_prefix(ss: Seq<SyncSession>, es: Seq<SyncEvent>, fr: Seq<Seq<char>>, acts: Seq<SyncAction>, k: int)
    requires
        is_run(ss, es, fr, acts),
        0 <= k < ss.len(),
        forall|j: int| 0 <= j <= k ==> (#[trigger] ss[j]).phase != SyncPhase::Done,
    ensures
        trace_so_far(ss[k], sent_ops(acts.take(k))),
    decreases k,
{
    if k == 0 {
        assert(acts.take(0) =~= Seq::<SyncAction>::empty());
    } else {
        lemma_run_prefix(ss, es, fr, acts, k - 1);
        assert(transition(ss[k - 1], es[k - 1], fr[k - 1], ss[k], acts[k - 1]));
        assert(acts.take(k).drop_last() =~= acts.take(k - 1));
        assert(acts.take(k).last() == acts[k - 1]);
        lemma_step_trace(ss[k - 1], es[k - 1], fr[k - 1], ss[k], acts[k - 1], sent_ops(acts.take(k - 1)));
    }
}

/// A session run that ends in success sends a sync trace of its remote
/// item: operations that leave the versions alone, followed, when the sync
/// was not skipped, by the commit of the version whose id the result
/// carries. This is what `lemma_latest_after_syncs` and
/// `lemma_dedup_idempotent` take of each sync.
pub proof fn lemma_run_is_sync_trace(
    ss: Seq<SyncSession>,
    es: Seq<SyncEvent>,
    fr: Seq<Seq<char>>,
    acts: Seq<SyncAction>,
    r: SyncResult,
    rm: Option<String>,
)
    requires
        is_run(ss, es, fr, acts),
        acts.len() > 0,
        acts.last() == (SyncAction::Finish { outcome: Ok(r), remove_scratch: rm }),
    ensures
        ({
            let n = acts.len() - 1;
            let ops = sent_ops(acts);
            &&& is_sync_trace(ops, ss[n].cloud_game_id@)
            &&& (r.skipped ==> unchanging(ops))
            &&& (!r.skipped ==> ops.len() >= 2
                && ops.subrange(ops.len() - 2, ops.len() as int) == commit_ops_of(version_of(ss[n]))
                && r.version_id is Some && r.version_id->0@ == version_of(ss[n]).id@)
        }),
{
    let n = acts.len() - 1;
    assert forall|j: int| 0 <= j <= n implies (#[trigger] ss[j]).phase != SyncPhase::Done by {
        if ss[j].phase == SyncPhase::Done {
            lemma_done_absorbs(ss, es, fr, acts, j, n);
        }
    }
    lemma_run_prefix(ss, es, fr, acts, n);
    assert(transition(ss[n], es[n], fr[n], ss[n + 1], acts[n]));
    assert(acts.drop_last() =~= acts.take(n));
    lemma_step_trace(ss[n], es[n], fr[n], ss[n + 1], acts[n], sent_ops(acts.take(n)));
}

/// A run of a session as a whole: its states, events, drawn ids and actions.
pub type SessionRun = (Seq<SyncSession>, Seq<SyncEvent>, Seq<Seq<char>>, Seq<SyncAction>);

/// Whether the run ends in success with the result `r`, for the remote item `item`.
pub open spec fn run_succeeds(run: SessionRun, r: SyncResult, item: Seq<char>) -> bool {
    &&& is_run(run.0, run.1, run.2, run.3)
    &&& run.3.len() > 0
    &&& match run.3.last() {
        SyncAction::Finish { outcome: Ok(x), .. } => x == r,
        _ => false,
    }
    &&& run.0[run.3.len() - 1].cloud_game_id@ == item
}

/// The latest invariant for one writer, over session runs: after any
/// sequence of successful syncs of one item, one after the other, of which
/// at least one was not skipped, whatever the ledger held before, exactly one
/// version of the item is marked latest, and it is the one whose id the
/// last sync that was not skipped returned.
pub proof fn lemma_latest_after_successful_runs(
    rows: Seq<VersionRow>,
    item: Seq<char>,
    runs: Seq<SessionRun>,
    results: Seq<SyncResult>,
    last: int,
)
    requires
        runs.len() == results.len(),
        forall|k: int| 0 <= k < runs.len() ==> run_succeeds(#[trigger] runs[k], results[k], item),
        0 <= last < runs.len(),
        !results[last].skipped,
        forall|k: int| last < k < runs.len() ==> (#[trigger] results[k]).skipped,
    ensures
        ({
            let after = apply_ops(rows, runs.map_values(|run: SessionRun| sent_ops(run.3)).flatten());
            &&& latest_rows(after, item).len() == 1
            &&& exists|j: int| latest_rows(after, item) == set![j] && Some(after[j].id) == (match results[last].version_id {
                Some(v) => Some(v@),
                None => None,
            })
        }),
{
    let traces = runs.map_values(|run: SessionRun| sent_ops(run.3));
    assert forall|k: int| 0 <= k < traces.len() implies is_sync_trace(#[trigger] traces[k], item) && (k > last ==> unchanging(traces[k])) by {
        let run = runs[k];
        assert(run_succeeds(runs[k], results[k], item));
        if let SyncAction::Finish { outcome: Ok(x), remove_scratch: rm } = run.3.last() {
            lemma_run_is_sync_trace(run.0, run.1, run.2, run.3, x, rm);
        }
    }
    let lr = runs[last];
    assert(run_succeeds(runs[last], results[last], item));
    let n = lr.3.len() - 1;
    if let SyncAction::Finish { outcome: Ok(x), remove_scratch: rm } = lr.3.last() {
        lemma_run_is_sync_trace(lr.0, lr.1, lr.2, lr.3, x, rm);
    }
    let v = version_of(lr.0[n]);
    assert forall|k: int, i: int| last < k < traces.len() && 0 <= i < traces[k].len()
        implies !changes_versions(#[trigger] traces[k][i]) by {
        assert(unchanging(traces[k]));
    }
    lemma_latest_after_syncs(rows, item, traces, last, v);
}

} // verus!
