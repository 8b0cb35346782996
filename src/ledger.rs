//! The remote version ledger: the operations the sync protocol sends, what
//! each does to the ledger's version rows, and the commit protocol that keeps
//! one "latest" version per item.

use vstd::prelude::*;

verus! {

/// Where the remote store is and who is calling it.
#[derive(Clone, Debug)]
pub struct AuthConfig {
    pub url: String,
    pub key: String,
    pub token: String,
    pub user_id: String,
}

/// A new version record, as committed.
#[derive(Clone, Debug)]
pub struct NewVersion {
    pub id: String,
    pub item_id: String,
    pub device_id: String,
    pub file_path: String,
    pub file_size: u64,
    pub checksum: String,
}

/// One operation on the remote store.
#[derive(Clone, Debug)]
pub enum LedgerOp {
    /// Look the device up by its machine id.
    FindDevice { machine_id: String },
    /// Create the device, merging with an existing row on (user, machine id).
    CreateDevice { machine_id: String, name: String, os: String },
    /// Look the remote item up by its slug.
    FindItem { slug: String },
    /// Create the remote item.
    CreateItem { name: String, slug: String, cover_url: Option<String> },
    /// Record the item's local path on this device, merging on conflict.
    UpsertPath { item_id: String, device_id: String, local_path: String, sync_enabled: bool },
    /// Ask for the fingerprint of the item's version marked latest.
    LatestFingerprint { item_id: String },
    /// Store an archive image under a storage path.
    Upload { storage_path: String, file_name: String },
    /// Clear the latest marker on every version of the item that has it.
    ClearLatest { item_id: String },
    /// Insert a version, marked latest.
    InsertVersion { version: NewVersion },
}

/// The model of one version row of the remote ledger.
pub struct VersionRow {
    pub id: Seq<char>,
    pub item_id: Seq<char>,
    pub fingerprint: Seq<char>,
    pub is_latest: bool,
}

/// A row with its latest marker cleared when it belongs to `item`.
pub open spec fn cleared(r: VersionRow, item: Seq<char>) -> VersionRow {
    if r.item_id == item {
        VersionRow { is_latest: false, ..r }
    } else {
        r
    }
}

/// What an operation does to the version rows: clearing and inserting are
/// the only operations that change them.
pub open spec fn apply_op(rows: Seq<VersionRow>, op: LedgerOp) -> Seq<VersionRow> {
    match op {
        LedgerOp::ClearLatest { item_id } => rows.map_values(|r: VersionRow| cleared(r, item_id@)),
        LedgerOp::InsertVersion { version } => rows.push(
            VersionRow {
                id: version.id@,
                item_id: version.item_id@,
                fingerprint: version.checksum@,
                is_latest: true,
            },
        ),
        _ => rows,
    }
}

/// Whether an operation changes the version rows.
pub open spec fn changes_versions(op: LedgerOp) -> bool {
    op is ClearLatest || op is InsertVersion
}

/// The rows after the operations, applied in order.
pub open spec fn apply_ops(rows: Seq<VersionRow>, ops: Seq<LedgerOp>) -> Seq<VersionRow>
    decreases ops.len(),
{
    if ops.len() == 0 {
        rows
    } else {
        apply_op(apply_ops(rows, ops.drop_last()), ops.last())
    }
}

/// The indices of the rows of `item` marked latest.
pub open spec fn latest_rows(rows: Seq<VersionRow>, item: Seq<char>) -> Set<int> {
    Set::new(|i: int| 0 <= i < rows.len() && rows[i].item_id == item && rows[i].is_latest)
}

/// What the latest-fingerprint lookup answers: the fingerprint of the first
/// row of `item` marked latest, if any.
pub open spec fn latest_fingerprint_from(rows: Seq<VersionRow>, item: Seq<char>, i: int) -> Option<Seq<char>>
    decreases rows.len() - i,
{
    if i < 0 || i >= rows.len() {
        None
    } else if rows[i].item_id == item && rows[i].is_latest {
        Some(rows[i].fingerprint)
    } else {
        latest_fingerprint_from(rows, item, i + 1)
    }
}

pub open spec fn latest_fingerprint(rows: Seq<VersionRow>, item: Seq<char>) -> Option<Seq<char>> {
    latest_fingerprint_from(rows, item, 0)
}

/// The two operations of a commit: clear the item's latest marker, then
/// insert the new version marked latest.
pub open spec fn commit_ops_of(v: NewVersion) -> Seq<LedgerOp> {
    seq![LedgerOp::ClearLatest { item_id: v.item_id }, LedgerOp::InsertVersion { version: v }]
}

/// The operations that commit a new version.
pub fn commit_ops(v: &NewVersion) -> (r: Vec<LedgerOp>)
    ensures
        r@ == commit_ops_of(*v),
{
    let mut out: Vec<LedgerOp> = Vec::new();
    out.push(LedgerOp::ClearLatest { item_id: v.item_id.clone() });
    let version = NewVersion {
        id: v.id.clone(),
        item_id: v.item_id.clone(),
        device_id: v.device_id.clone(),
        file_path: v.file_path.clone(),
        file_size: v.file_size,
        checksum: v.checksum.clone(),
    };
    out.push(LedgerOp::InsertVersion { version });
    assert(out@ =~= commit_ops_of(*v));
    out
}

/// Whether `ops` is what one successful sync of `item` sends: operations that
/// leave the versions alone, possibly followed by the commit of one version
/// of `item`.
pub open spec fn is_sync_trace(ops: Seq<LedgerOp>, item: Seq<char>) -> bool {
    ||| forall|i: int| 0 <= i < ops.len() ==> !changes_versions(#[trigger] ops[i])
    ||| exists|v: NewVersion| #[trigger] commit_ops_of(v) == ops.subrange(ops.len() - 2, ops.len() as int)
            && ops.len() >= 2 && v.item_id@ == item
            && forall|i: int| 0 <= i < ops.len() - 2 ==> !changes_versions(#[trigger] ops[i])
}

proof fn lemma_apply_ops_append(rows: Seq<VersionRow>, a: Seq<LedgerOp>, b: Seq<LedgerOp>)
    ensures
        apply_ops(rows, a + b) == apply_ops(apply_ops(rows, a), b),
    decreases b.len(),
{
    if b.len() == 0 {
        assert(a + b =~= a);
    } else {
        assert((a + b).drop_last() =~= a + b.drop_last());
        lemma_apply_ops_append(rows, a, b.drop_last());
    }
}

proof fn lemma_unchanging_ops(rows: Seq<VersionRow>, ops: Seq<LedgerOp>)
    requires
        forall|i: int| 0 <= i < ops.len() ==> !changes_versions(#[trigger] ops[i]),
    ensures
        apply_ops(rows, ops) == rows,
    decreases ops.len(),
{
    if ops.len() > 0 {
        assert(!changes_versions(ops[ops.len() - 1]));
        lemma_unchanging_ops(rows, ops.drop_last());
    }
}

/// After a commit of `v`, the one row of its item marked latest is the new
/// version, the last row.
proof fn lemma_commit_latest(rows: Seq<VersionRow>, v: NewVersion)
    ensures
        ({
            let after = apply_ops(rows, commit_ops_of(v));
            &&& after.len() == rows.len() + 1
            &&& latest_rows(after, v.item_id@) == set![rows.len() as int]
            &&& after[rows.len() as int].id == v.id@
            &&& after[rows.len() as int].fingerprint == v.checksum@
        }),
{
    let ops = commit_ops_of(v);
    assert(ops.drop_last().drop_last() =~= Seq::<LedgerOp>::empty());
    assert(ops.drop_last().last() == LedgerOp::ClearLatest { item_id: v.item_id });
    assert(ops.last() == LedgerOp::InsertVersion { version: v });
    assert(apply_ops(rows, ops.drop_last().drop_last()) == rows);
    let mid = rows.map_values(|r: VersionRow| cleared(r, v.item_id@));
    assert(apply_ops(rows, ops.drop_last()) == mid);
    let row = VersionRow { id: v.id@, item_id: v.item_id@, fingerprint: v.checksum@, is_latest: true };
    let after = apply_ops(rows, ops);
    assert(after == mid.push(row));
    assert forall|i: int| 0 <= i < rows.len() implies !(after[i].item_id == v.item_id@ && (#[trigger] after[i]).is_latest) by {
        assert(after[i] == mid[i]);
    }
    assert(after[rows.len() as int] == row);
    assert(latest_rows(after, v.item_id@) =~= set![rows.len() as int]);
}

/// The latest invariant for one writer: after any sequence of successful
/// syncs of one item, of which at least one committed a version, exactly one
/// version of the item is marked latest, and it is the most recently
/// committed one.
pub proof fn lemma_latest_after_syncs(
    rows: Seq<VersionRow>,
    item: Seq<char>,
    traces: Seq<Seq<LedgerOp>>,
    last: int,
    v: NewVersion,
)
    requires
        forall|k: int| 0 <= k < traces.len() ==> is_sync_trace(#[trigger] traces[k], item),
        0 <= last < traces.len(),
        traces[last].len() >= 2,
        traces[last].subrange(traces[last].len() - 2, traces[last].len() as int) == commit_ops_of(v),
        forall|k: int, i: int| last < k < traces.len() && 0 <= i < traces[k].len()
            ==> !changes_versions(#[trigger] traces[k][i]),
    ensures
        ({
            let after = apply_ops(rows, traces.flatten());
            let n = latest_rows(after, item);
            &&& n.len() == 1
            &&& exists|j: int| n == set![j] && after[j].id == v.id@ && after[j].fingerprint == v.checksum@
        }),
    decreases traces.len(),
{
    let t = traces.last();
    let init = traces.drop_last();
    assert(traces =~= init.push(t));
    assert(traces.flatten() =~= init.flatten() + t) by {
        init.lemma_flatten_push(t);
    }
    lemma_apply_ops_append(rows, init.flatten(), t);
    let mid = apply_ops(rows, init.flatten());
    if last == traces.len() - 1 {
        let pre = t.subrange(0, t.len() - 2);
        assert(t =~= pre + commit_ops_of(v));
        assert forall|i: int| 0 <= i < pre.len() implies !changes_versions(#[trigger] pre[i]) by {
            assert(pre[i] == t[i]);
            if changes_versions(t[i]) {
                // a version-changing operation can only stand in the commit
                assert(is_sync_trace(t, item));
                let w = choose|w: NewVersion| #[trigger] commit_ops_of(w) == t.subrange(t.len() - 2, t.len() as int)
                    && t.len() >= 2 && w.item_id@ == item
                    && forall|i: int| 0 <= i < t.len() - 2 ==> !changes_versions(#[trigger] t[i]);
                assert(commit_ops_of(w)[0] == commit_ops_of(v)[0]);
            }
        }
        lemma_apply_ops_append(mid, pre, commit_ops_of(v));
        lemma_unchanging_ops(mid, pre);
        lemma_commit_latest(mid, v);
        assert(is_sync_trace(t, item));
        let w = choose|w: NewVersion| #[trigger] commit_ops_of(w) == t.subrange(t.len() - 2, t.len() as int)
            && t.len() >= 2 && w.item_id@ == item
            && forall|i: int| 0 <= i < t.len() - 2 ==> !changes_versions(#[trigger] t[i]);
        if !(forall|i: int| 0 <= i < t.len() ==> !changes_versions(#[trigger] t[i])) {
            assert(commit_ops_of(w)[0] == commit_ops_of(v)[0]);
            assert(v.item_id@ == item);
        } else {
            assert(changes_versions(t[t.len() - 1]));
        }
        let after = apply_ops(mid, t);
        assert(latest_rows(after, item) == set![mid.len() as int]);
        assert(set![mid.len() as int].len() == 1);
    } else {
        assert forall|k: int| 0 <= k < init.len() implies is_sync_trace(#[trigger] init[k], item) by {
            assert(init[k] == traces[k]);
        }
        assert forall|k: int, i: int| last < k < init.len() && 0 <= i < init[k].len()
            implies !changes_versions(#[trigger] init[k][i]) by {
            assert(init[k] == traces[k]);
        }
        assert(init[last] == traces[last]);
        lemma_latest_after_syncs(rows, item, init, last, v);
        assert(t == traces[traces.len() - 1]);
        assert forall|i: int| 0 <= i < t.len() implies !changes_versions(#[trigger] t[i]) by {
            assert(t[i] == traces[traces.len() - 1][i]);
        }
        lemma_unchanging_ops(mid, t);
    }
}

/// The dedup rule: a sync is skipped when the item's latest fingerprint is
/// the fingerprint just computed.
pub open spec fn dedup_skips(latest: Option<Seq<char>>, fp: Seq<char>) -> bool {
    latest == Some(fp)
}

proof fn lemma_latest_fingerprint_single(rows: Seq<VersionRow>, item: Seq<char>, j: int, i: int)
    requires
        latest_rows(rows, item) == set![j],
        0 <= i <= j,
    ensures
        latest_fingerprint_from(rows, item, i) == Some(rows[j].fingerprint),
    decreases j - i,
{
    assert(latest_rows(rows, item).contains(j));
    if i < j {
        assert(!latest_rows(rows, item).contains(i));
        lemma_latest_fingerprint_single(rows, item, j, i + 1);
    }
}

/// Idempotence of dedup: after a sync of an item whose content has
/// fingerprint `fp` (it either committed a version with that fingerprint, or
/// was skipped because `fp` was already latest), the latest-fingerprint
/// lookup answers `fp`, so a second sync of the unchanged content is skipped,
/// and what a skipped sync sends creates no version row.
pub proof fn lemma_dedup_idempotent(
    rows: Seq<VersionRow>,
    item: Seq<char>,
    fp: Seq<char>,
    pre: Seq<LedgerOp>,
    committed: Option<NewVersion>,
    second: Seq<LedgerOp>,
)
    requires
        forall|i: int| 0 <= i < pre.len() ==> !changes_versions(#[trigger] pre[i]),
        forall|i: int| 0 <= i < second.len() ==> !changes_versions(#[trigger] second[i]),
        match committed {
            Some(v) => v.item_id@ == item && v.checksum@ == fp,
            None => latest_fingerprint(rows, item) == Some(fp),
        },
    ensures
        ({
            let first = match committed {
                Some(v) => pre + commit_ops_of(v),
                None => pre,
            };
            let after = apply_ops(rows, first);
            &&& dedup_skips(latest_fingerprint(after, item), fp)
            &&& apply_ops(after, second) == after
        }),
{
    lemma_unchanging_ops(rows, pre);
    match committed {
        Some(v) => {
            lemma_apply_ops_append(rows, pre, commit_ops_of(v));
            lemma_commit_latest(rows, v);
            let after = apply_ops(rows, pre + commit_ops_of(v));
            lemma_latest_fingerprint_single(after, item, rows.len() as int, 0);
            lemma_unchanging_ops(after, second);
        },
        None => {
            lemma_unchanging_ops(rows, second);
        },
    }
}

} // verus!
