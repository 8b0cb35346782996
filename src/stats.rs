//! Statistics about a save directory, from facts about its files.

use vstd::prelude::*;
use crate::text::{lowercase, lower_of, seq_contains, seq_ends_with, seq_starts_with, str_contains, str_ends_with, str_starts_with};

verus! {

broadcast use vstd::string::group_string_axioms;

#[verifier::external_type_specification]
#[verifier::external_body]
pub struct ExSystemTime(std::time::SystemTime);

/// Relies on `std::time::SystemTime::duration_since` with the Unix epoch:
/// the time since the epoch, or none for a time before it.
#[verifier::external_body]
fn duration_since_epoch(st: std::time::SystemTime) -> (r: Option<std::time::Duration>) {
    st.duration_since(std::time::UNIX_EPOCH).ok()
}

/// Relies on `std::time::Duration::as_millis`: whole milliseconds.
#[verifier::external_body]
fn duration_millis(d: &std::time::Duration) -> (r: u128) {
    d.as_millis()
}

/// Milliseconds as a signed 64-bit number: the low 64 bits of the count, as
/// a cast gives them; zero for a time before the epoch.
pub fn millis_to_i64(ms: Option<u128>) -> (r: i64)
    ensures
        r == (match ms {
            Some(m) => m as i64,
            None => 0i64,
        }),
{
    match ms {
        Some(m) => m as i64,
        None => 0,
    }
}

/// Milliseconds since the Unix epoch of a file time; zero for a time before it.
pub fn system_time_to_ms(st: std::time::SystemTime) -> (r: i64) {
    let ms = match duration_since_epoch(st) {
        Some(d) => Some(duration_millis(&d)),
        None => None,
    };
    millis_to_i64(ms)
}

/// Whether an item is the one game with extra statistics: its name or slug
/// mentions `silksong`, or its path `hollow knight silksong`, in any case.
pub open spec fn is_silksong(name: Seq<char>, slug: Seq<char>, path: Seq<char>) -> bool {
    seq_contains(lower_of(name), "silksong"@) || seq_contains(lower_of(slug), "silksong"@)
        || seq_contains(lower_of(path), "hollow knight silksong"@)
}

/// Whether an item is the one game with extra statistics.
pub fn detect_silksong(name: &str, slug: &str, path: &str) -> (r: bool)
    ensures
        r == is_silksong(name@, slug@, path@),
{
    let n = lowercase(name);
    let s = lowercase(slug);
    let p = lowercase(path);
    str_contains(n.as_str(), "silksong") || str_contains(s.as_str(), "silksong")
        || str_contains(p.as_str(), "hollow knight silksong")
}

/// What is known of one regular file under a save directory.
#[derive(Clone, Debug)]
pub struct FileFacts {
    /// Its path relative to the walked directory.
    pub rel_path: String,
    /// Its file name.
    pub file_name: String,
    /// Its size, if its metadata could be read.
    pub size: Option<u64>,
    /// Its modification time in milliseconds since the epoch, if known.
    pub mtime_ms: Option<i64>,
}

/// Totals over the files of a save directory.
#[derive(Clone, Copy, Debug, PartialEq, Eq, Structural)]
pub struct SaveTreeSummary {
    pub file_count: u64,
    pub total_bytes: u64,
    pub newest_mtime_ms: Option<i64>,
}

/// The larger of an optional maximum and a new value.
pub open spec fn max_opt(cur: Option<i64>, v: i64) -> Option<i64> {
    match cur {
        Some(x) => Some(if x >= v { x } else { v }),
        None => Some(v),
    }
}

/// The sum of the known sizes, saturating at the largest `u64`.
pub open spec fn total_size(fs: Seq<FileFacts>) -> u64
    decreases fs.len(),
{
    if fs.len() == 0 {
        0
    } else {
        let t = total_size(fs.drop_last());
        match fs.last().size {
            Some(n) => if t + n > u64::MAX { u64::MAX } else { (t + n) as u64 },
            None => t,
        }
    }
}

/// The newest known modification time.
pub open spec fn newest_mtime(fs: Seq<FileFacts>) -> Option<i64>
    decreases fs.len(),
{
    if fs.len() == 0 {
        None
    } else {
        let m = newest_mtime(fs.drop_last());
        match fs.last().mtime_ms {
            Some(t) => max_opt(m, t),
            None => m,
        }
    }
}

/// Totals over the files: how many there are, their total size (sizes that
/// could not be read count nothing; the sum saturates), and the newest
/// modification time.
pub fn summarize_files(files: &Vec<FileFacts>) -> (r: SaveTreeSummary)
    ensures
        r.file_count == files@.len(),
        r.total_bytes == total_size(files@),
        r.newest_mtime_ms == newest_mtime(files@),
{
    let mut count: u64 = 0;
    let mut total: u64 = 0;
    let mut newest: Option<i64> = None;
    let mut i: usize = 0;
    while i < files.len()
        invariant
            i <= files@.len(),
            count == i,
            total == total_size(files@.take(i as int)),
            newest == newest_mtime(files@.take(i as int)),
        decreases files@.len() - i,
    {
        proof {
            assert(files@.take(i + 1).drop_last() =~= files@.take(i as int));
        }
        let f = &files[i];
        if let Some(n) = f.size {
            total = total.saturating_add(n);
        }
        if let Some(t) = f.mtime_ms {
            newest = match newest {
                Some(x) => Some(if x >= t { x } else { t }),
                None => Some(t),
            };
        }
        count = count + 1;
        i = i + 1;
    }
    assert(files@.take(files@.len() as int) =~= files@);
    SaveTreeSummary { file_count: count, total_bytes: total, newest_mtime_ms: newest }
}

/// Counts over the files of the game's `default` directory.
#[derive(Clone, Copy, Debug, PartialEq, Eq, Structural)]
pub struct SilksongCounts {
    pub user_dat_files: u64,
    pub restore_point_files: u64,
    pub decoded_json_files: u64,
    pub newest_save_mtime_ms: Option<i64>,
}

/// A save slot: a file whose name begins with `user` and ends with `.dat`, in any case.
pub open spec fn is_user_dat(f: FileFacts) -> bool {
    seq_starts_with(lower_of(f.file_name@), "user"@) && seq_ends_with(lower_of(f.file_name@), ".dat"@)
}

/// A decoded save: a file whose name ends with `.dat.json`, in any case.
pub open spec fn is_decoded_json(f: FileFacts) -> bool {
    seq_ends_with(lower_of(f.file_name@), ".dat.json"@)
}

/// A restore point: a file whose relative path mentions `restore_points`, in any case.
pub open spec fn is_restore_point(f: FileFacts) -> bool {
    seq_contains(lower_of(f.rel_path@), "restore_points"@)
}

/// How many of the files satisfy each rule, and the newest modification time
/// of a save slot.
pub open spec fn silksong_counts_of(fs: Seq<FileFacts>) -> (nat, nat, nat, Option<i64>)
    decreases fs.len(),
{
    if fs.len() == 0 {
        (0, 0, 0, None)
    } else {
        let c = silksong_counts_of(fs.drop_last());
        let f = fs.last();
        (
            if is_user_dat(f) { c.0 + 1 } else { c.0 },
            if is_restore_point(f) { c.1 + 1 } else { c.1 },
            if is_decoded_json(f) { c.2 + 1 } else { c.2 },
            if is_user_dat(f) && f.mtime_ms is Some { max_opt(c.3, f.mtime_ms->0) } else { c.3 },
        )
    }
}

proof fn lemma_counts_bounded(fs: Seq<FileFacts>)
    ensures
        silksong_counts_of(fs).0 <= fs.len(),
        silksong_counts_of(fs).1 <= fs.len(),
        silksong_counts_of(fs).2 <= fs.len(),
    decreases fs.len(),
{
    if fs.len() > 0 {
        lemma_counts_bounded(fs.drop_last());
    }
}

/// The counts over the files of the game's `default` directory: save slots,
/// restore points, decoded saves, and the newest save slot's time.
pub fn silksong_counts(files: &Vec<FileFacts>) -> (r: SilksongCounts)
    ensures
        r.user_dat_files == silksong_counts_of(files@).0,
        r.restore_point_files == silksong_counts_of(files@).1,
        r.decoded_json_files == silksong_counts_of(files@).2,
        r.newest_save_mtime_ms == silksong_counts_of(files@).3,
{
    let mut r = SilksongCounts { user_dat_files: 0, restore_point_files: 0, decoded_json_files: 0, newest_save_mtime_ms: None };
    let mut i: usize = 0;
    while i < files.len()
        invariant
            i <= files@.len(),
            r.user_dat_files == silksong_counts_of(files@.take(i as int)).0,
            r.restore_point_files == silksong_counts_of(files@.take(i as int)).1,
            r.decoded_json_files == silksong_counts_of(files@.take(i as int)).2,
            r.newest_save_mtime_ms == silksong_counts_of(files@.take(i as int)).3,
        decreases files@.len() - i,
    {
        proof {
            assert(files@.take(i + 1).drop_last() =~= files@.take(i as int));
            lemma_counts_bounded(files@.take(i + 1));
        }
        let f = &files[i];
        let name = lowercase(f.file_name.as_str());
        let rel = lowercase(f.rel_path.as_str());
        if str_starts_with(name.as_str(), "user") && str_ends_with(name.as_str(), ".dat") {
            r.user_dat_files = r.user_dat_files + 1;
            if let Some(t) = f.mtime_ms {
                r.newest_save_mtime_ms = match r.newest_save_mtime_ms {
                    Some(x) => Some(if x >= t { x } else { t }),
                    None => Some(t),
                };
            }
        }
        if str_ends_with(name.as_str(), ".dat.json") {
            r.decoded_json_files = r.decoded_json_files + 1;
        }
        if str_contains(rel.as_str(), "restore_points") {
            r.restore_point_files = r.restore_point_files + 1;
        }
        i = i + 1;
    }
    assert(files@.take(files@.len() as int) =~= files@);
    r
}

/// The index of the newest decoded save among `fs`, the first on ties; a
/// file without a known time counts as time zero.
pub open spec fn newest_sidecar_of(fs: Seq<FileFacts>) -> Option<int>
    decreases fs.len(),
{
    if fs.len() == 0 {
        None
    } else {
        let prev = newest_sidecar_of(fs.drop_last());
        let k = fs.len() - 1;
        let t = match fs[k].mtime_ms { Some(x) => x, None => 0 };
        if !is_decoded_json(fs[k]) {
            prev
        } else {
            match prev {
                None => Some(k),
                Some(j) => if t > (match fs[j].mtime_ms { Some(x) => x, None => 0 }) { Some(k) } else { Some(j) },
            }
        }
    }
}

proof fn lemma_newest_sidecar_prefix(fs: Seq<FileFacts>, n: int)
    requires
        0 <= n <= fs.len(),
    ensures
        newest_sidecar_of(fs.take(n)) is Some ==> 0 <= newest_sidecar_of(fs.take(n))->0 < n,
    decreases n,
{
    if n > 0 {
        assert(fs.take(n).drop_last() =~= fs.take(n - 1));
        lemma_newest_sidecar_prefix(fs, n - 1);
    }
}

/// The decoded save whose progress is shown: the newest file whose name ends
/// with `.dat.json` (in any case), the first one on ties.
pub fn newest_json_sidecar(files: &Vec<FileFacts>) -> (r: Option<usize>)
    ensures
        r == (match newest_sidecar_of(files@) { Some(j) => Some(j as usize), None => None::<usize> }),
{
    let mut best: Option<usize> = None;
    let mut i: usize = 0;
    while i < files.len()
        invariant
            i <= files@.len(),
            best == (match newest_sidecar_of(files@.take(i as int)) { Some(j) => Some(j as usize), None => None::<usize> }),
            newest_sidecar_of(files@.take(i as int)) is Some ==> 0 <= newest_sidecar_of(files@.take(i as int))->0 < i,
        decreases files@.len() - i,
    {
        proof {
            assert(files@.take(i + 1).drop_last() =~= files@.take(i as int));
            lemma_newest_sidecar_prefix(files@, i + 1);
        }
        let name = lowercase(files[i].file_name.as_str());
        if str_ends_with(name.as_str(), ".dat.json") {
            let t = match files[i].mtime_ms { Some(x) => x, None => 0 };
            best = match best {
                None => Some(i),
                Some(j) => {
                    let tj = match files[j].mtime_ms { Some(x) => x, None => 0 };
                    if t > tj { Some(i) } else { Some(j) }
                },
            };
        }
        proof {
            let p = files@.take(i + 1);
            assert(p[i as int] == files@[i as int]);
            if let Some(j) = newest_sidecar_of(files@.take(i as int)) {
                assert(p[j] == files@[j]);
            }
        }
        i = i + 1;
    }
    assert(files@.take(files@.len() as int) =~= files@);
    best
}

} // verus!
