//! The change watcher's decisions: which paths are watched, which
//! subscriptions change between cycles, and which items a cycle's file
//! system events signal.

use vstd::prelude::*;
use crate::sync::SyncItem;

verus! {

/// A watched item: its id and its local path.
#[derive(Clone, Debug)]
pub struct WatchEntry {
    pub item_id: String,
    pub path: String,
}

/// The kind of a file system event. A modification of an unknown or other
/// kind counts as a content change.
#[derive(Clone, Copy, Debug, PartialEq, Eq, Structural)]
pub enum EventKind {
    Created,
    ContentModified,
    Renamed,
    MetadataChanged,
    Accessed,
    Removed,
    Other,
}

/// A file system event: its kind and the paths it touches.
#[derive(Clone, Debug)]
pub struct FsEvent {
    pub kind: EventKind,
    pub paths: Vec<String>,
}

/// Name for what `std::path::Path::starts_with` answers: whether the path
/// `p` lies under `base`, comparing whole components.
pub uninterp spec fn path_within(p: Seq<char>, base: Seq<char>) -> bool;

/// Relies on `std::path::Path::starts_with`: whether `base` is a prefix of
/// `p`, component by component.
#[verifier::external_body]
fn path_starts_with(p: &str, base: &str) -> (r: bool)
    ensures
        r == path_within(p@, base@),
{
    std::path::Path::new(p).starts_with(base)
}

/// Every creation and every modification is worth a sync, renames
/// included; metadata-only changes, accesses and removals are not.
pub open spec fn relevant(k: EventKind) -> bool {
    k == EventKind::Created || k == EventKind::ContentModified || k == EventKind::Renamed
}

/// Whether an event kind is worth a sync.
pub fn is_relevant_event(kind: EventKind) -> (r: bool)
    ensures
        r == relevant(kind),
{
    match kind {
        EventKind::Created | EventKind::ContentModified | EventKind::Renamed => true,
        _ => false,
    }
}

/// The watch entries of the items that are sync-enabled and whose path
/// exists, in order.
pub open spec fn watch_set_of(items: Seq<SyncItem>, exists: Seq<bool>) -> Seq<(Seq<char>, Seq<char>)>
    decreases items.len(),
{
    if items.len() == 0 || exists.len() != items.len() {
        Seq::empty()
    } else {
        let rest = watch_set_of(items.drop_last(), exists.drop_last());
        let it = items.last();
        if it.sync_enabled && exists.last() {
            rest.push((it.id@, it.local_path@))
        } else {
            rest
        }
    }
}

pub open spec fn entries_view(ws: Seq<WatchEntry>) -> Seq<(Seq<char>, Seq<char>)> {
    ws.map_values(|w: WatchEntry| (w.item_id@, w.path@))
}

/// The watch set: the items that are sync-enabled and whose local path
/// exists (`exists[i]` tells of `items[i]`), in order.
pub fn watch_set(items: &Vec<SyncItem>, exists: &Vec<bool>) -> (r: Vec<WatchEntry>)
    requires
        items@.len() == exists@.len(),
    ensures
        entries_view(r@) == watch_set_of(items@, exists@),
{
    let mut out: Vec<WatchEntry> = Vec::new();
    let mut i: usize = 0;
    while i < items.len()
        invariant
            i <= items@.len(),
            items@.len() == exists@.len(),
            entries_view(out@) == watch_set_of(items@.take(i as int), exists@.take(i as int)),
        decreases items@.len() - i,
    {
        proof {
            assert(items@.take(i + 1).drop_last() =~= items@.take(i as int));
            assert(exists@.take(i + 1).drop_last() =~= exists@.take(i as int));
        }
        if items[i].sync_enabled && exists[i] {
            out.push(WatchEntry { item_id: items[i].id.clone(), path: items[i].local_path.clone() });
        }
        assert(entries_view(out@) =~= watch_set_of(items@.take(i + 1), exists@.take(i + 1)));
        i = i + 1;
    }
    assert(items@.take(items@.len() as int) =~= items@);
    assert(exists@.take(exists@.len() as int) =~= exists@);
    out
}

/// Whether some entry of `ws` has the path `p`.
pub open spec fn has_path(ws: Seq<WatchEntry>, p: Seq<char>) -> bool {
    exists|j: int| 0 <= j < ws.len() && (#[trigger] ws[j]).path@ == p
}

/// The paths of `a` that no entry of `b` has, each once, in order of first
/// appearance: the subscriptions to add (with `a` the new set and `b` the
/// old) or to drop (the other way round).
pub fn paths_not_in(a: &Vec<WatchEntry>, b: &Vec<WatchEntry>) -> (r: Vec<String>)
    ensures
        forall|k: int| 0 <= k < r@.len() ==> has_path(a@, #[trigger] r@[k]@) && !has_path(b@, r@[k]@),
        forall|j: int| 0 <= j < a@.len() && !has_path(b@, (#[trigger] a@[j]).path@)
            ==> exists|k: int| 0 <= k < r@.len() && r@[k]@ == a@[j].path@,
        forall|k1: int, k2: int| 0 <= k1 < k2 < r@.len() ==> r@[k1]@ != r@[k2]@,
{
    let mut out: Vec<String> = Vec::new();
    let mut i: usize = 0;
    while i < a.len()
        invariant
            i <= a@.len(),
            forall|k: int| 0 <= k < out@.len() ==> has_path(a@, #[trigger] out@[k]@) && !has_path(b@, out@[k]@),
            forall|j: int| 0 <= j < i && !has_path(b@, (#[trigger] a@[j]).path@)
                ==> exists|k: int| 0 <= k < out@.len() && out@[k]@ == a@[j].path@,
            forall|k1: int, k2: int| 0 <= k1 < k2 < out@.len() ==> out@[k1]@ != out@[k2]@,
        decreases a@.len() - i,
    {
        let p = &a[i].path;
        let mut in_b = false;
        let mut j: usize = 0;
        while j < b.len()
            invariant
                j <= b@.len(),
                in_b == exists|m: int| 0 <= m < j && (#[trigger] b@[m]).path@ == p@,
            decreases b@.len() - j,
        {
            if b[j].path == *p {
                in_b = true;
            }
            j = j + 1;
        }
        let mut seen = false;
        let mut k: usize = 0;
        while k < out.len()
            invariant
                k <= out@.len(),
                seen == exists|m: int| 0 <= m < k && (#[trigger] out@[m])@ == p@,
            decreases out@.len() - k,
        {
            if out[k] == *p {
                seen = true;
            }
            k = k + 1;
        }
        let ghost old_out = out@;
        if !in_b && !seen {
            assert(has_path(a@, a@[i as int].path@));
            out.push(p.clone());
        }
        assert forall|j: int| 0 <= j < i + 1 && !has_path(b@, (#[trigger] a@[j]).path@)
            implies exists|k: int| 0 <= k < out@.len() && out@[k]@ == a@[j].path@ by {
            if j == i {
                if seen {
                    let m = choose|m: int| 0 <= m < old_out.len() && (#[trigger] old_out[m])@ == p@;
                    assert(out@[m] == old_out[m]);
                } else {
                    assert(!in_b) by {
                        if in_b {
                            let m = choose|m: int| 0 <= m < b@.len() && (#[trigger] b@[m]).path@ == p@;
                            assert(has_path(b@, p@));
                        }
                    }
                    assert(out@[out@.len() - 1]@ == a@[j].path@);
                }
            } else {
                let k = choose|k: int| 0 <= k < old_out.len() && old_out[k]@ == a@[j].path@;
                assert(out@[k] == old_out[k]);
            }
        }
        assert forall|k1: int, k2: int| 0 <= k1 < k2 < out@.len() implies out@[k1]@ != out@[k2]@ by {
            if k2 == old_out.len() {
                assert(out@[k1] == old_out[k1]);
            } else {
                assert(out@[k1] == old_out[k1]);
                assert(out@[k2] == old_out[k2]);
            }
        }
        assert forall|k: int| 0 <= k < out@.len() implies has_path(a@, #[trigger] out@[k]@) && !has_path(b@, out@[k]@) by {
            if k < old_out.len() {
                assert(out@[k] == old_out[k]);
            } else {
                assert(has_path(a@, a@[i as int].path@));
                assert(!in_b) by {
                    if in_b {
                        let m = choose|m: int| 0 <= m < b@.len() && (#[trigger] b@[m]).path@ == p@;
                        assert(has_path(b@, p@));
                    }
                }
                assert(!has_path(b@, p@)) by {
                    if has_path(b@, p@) {
                        let m = choose|m: int| 0 <= m < b@.len() && (#[trigger] b@[m]).path@ == p@;
                        assert(exists|m: int| 0 <= m < b@.len() && (#[trigger] b@[m]).path@ == p@);
                    }
                }
            }
        }
        i = i + 1;
    }
    out
}

/// The first entry of `ws`, from index `j` on, under whose path one of the
/// event's paths lies.
pub open spec fn first_watch_match(ws: Seq<WatchEntry>, paths: Seq<String>, j: int) -> Option<int>
    decreases ws.len() - j,
{
    if j < 0 || j >= ws.len() {
        None
    } else if exists|q: int| 0 <= q < paths.len() && path_within((#[trigger] paths[q])@, ws[j].path@) {
        Some(j)
    } else {
        first_watch_match(ws, paths, j + 1)
    }
}

/// The item an event signals: none for a metadata-only change, an access,
/// a removal or another kind of event; else the first watched item under whose path one
/// of the event's paths lies, if any.
pub open spec fn signal_of(ws: Seq<WatchEntry>, e: FsEvent) -> Option<Seq<char>> {
    if !relevant(e.kind) {
        None
    } else {
        match first_watch_match(ws, e.paths@, 0) {
            Some(j) => Some(ws[j].item_id@),
            None => None,
        }
    }
}

fn any_path_within(paths: &Vec<String>, base: &String) -> (r: bool)
    ensures
        r == exists|q: int| 0 <= q < paths@.len() && path_within((#[trigger] paths@[q])@, base@),
{
    let mut q: usize = 0;
    while q < paths.len()
        invariant
            q <= paths@.len(),
            forall|m: int| 0 <= m < q ==> !path_within((#[trigger] paths@[m])@, base@),
        decreases paths@.len() - q,
    {
        if path_starts_with(paths[q].as_str(), base.as_str()) {
            return true;
        }
        q = q + 1;
    }
    false
}

/// The item an event signals, as `signal_of` states: a metadata-only
/// change, an access or a removal never signals.
pub fn signal_for_event(ws: &Vec<WatchEntry>, event: &FsEvent) -> (r: Option<String>)
    ensures
        r is Some <==> signal_of(ws@, *event) is Some,
        r is Some ==> r->0@ == signal_of(ws@, *event)->0,
        !relevant(event.kind) ==> r is None,
{
    if !is_relevant_event(event.kind) {
        return None;
    }
    let mut j: usize = 0;
    while j < ws.len()
        invariant
            j <= ws@.len(),
            relevant(event.kind),
            first_watch_match(ws@, event.paths@, 0) == first_watch_match(ws@, event.paths@, j as int),
        decreases ws@.len() - j,
    {
        if any_path_within(&event.paths, &ws[j].path) {
            assert(first_watch_match(ws@, event.paths@, j as int) == Some(j as int));
            return Some(ws[j].item_id.clone());
        }
        j = j + 1;
    }
    None
}

/// Whether some relevant event of the cycle signals the item `id`.
pub open spec fn signaled_by(ws: Seq<WatchEntry>, events: Seq<FsEvent>, id: Seq<char>) -> bool {
    exists|m: int| 0 <= m < events.len() && relevant(events[m].kind) && #[trigger] signal_of(ws, events[m]) == Some(id)
}

/// The signals of one watcher cycle: the items that the cycle's events
/// signal, each named once, in the order of their first signal. Bursts of
/// events under one item's path are coalesced into one signal, and
/// metadata-only changes, accesses and removals add none.
pub fn cycle_signals(ws: &Vec<WatchEntry>, events: &Vec<FsEvent>) -> (r: Vec<String>)
    ensures
        forall|k1: int, k2: int| 0 <= k1 < k2 < r@.len() ==> r@[k1]@ != r@[k2]@,
        forall|k: int| 0 <= k < r@.len() ==> signaled_by(ws@, events@, #[trigger] r@[k]@),
        forall|i: int| 0 <= i < events@.len() && (#[trigger] signal_of(ws@, events@[i])) is Some
            ==> exists|k: int| 0 <= k < r@.len() && Some(r@[k]@) == signal_of(ws@, events@[i]),
{
    let mut out: Vec<String> = Vec::new();
    let mut i: usize = 0;
    while i < events.len()
        invariant
            i <= events@.len(),
            forall|k1: int, k2: int| 0 <= k1 < k2 < out@.len() ==> out@[k1]@ != out@[k2]@,
            forall|k: int| 0 <= k < out@.len() ==> signaled_by(ws@, events@, #[trigger] out@[k]@),
            forall|m: int| 0 <= m < i && (#[trigger] signal_of(ws@, events@[m])) is Some
                ==> exists|k: int| 0 <= k < out@.len() && Some(out@[k]@) == signal_of(ws@, events@[m]),
        decreases events@.len() - i,
    {
        match signal_for_event(ws, &events[i]) {
            None => {},
            Some(id) => {
                let mut seen = false;
                let mut k: usize = 0;
                while k < out.len()
                    invariant
                        k <= out@.len(),
                        seen == exists|m: int| 0 <= m < k && (#[trigger] out@[m])@ == id@,
                    decreases out@.len() - k,
                {
                    if out[k] == id {
                        seen = true;
                    }
                    k = k + 1;
                }
                let ghost old_out = out@;
                let ghost sig = signal_of(ws@, events@[i as int]);
                assert(relevant(events@[i as int].kind));
                assert(sig == Some(id@));
                if !seen {
                    out.push(id);
                }
                assert forall|k: int| 0 <= k < out@.len() implies signaled_by(ws@, events@, #[trigger] out@[k]@) by {
                    if k < old_out.len() {
                        assert(out@[k] == old_out[k]);
                    } else {
                        assert(signal_of(ws@, events@[i as int]) == Some(out@[k]@));
                    }
                }
                assert forall|k1: int, k2: int| 0 <= k1 < k2 < out@.len() implies out@[k1]@ != out@[k2]@ by {
                    assert(out@[k1] == old_out[k1]);
                    if k2 < old_out.len() {
                        assert(out@[k2] == old_out[k2]);
                    }
                }
                assert forall|m: int| 0 <= m < i + 1 && (#[trigger] signal_of(ws@, events@[m])) is Some
                    implies exists|k: int| 0 <= k < out@.len() && Some(out@[k]@) == signal_of(ws@, events@[m]) by {
                    if m == i {
                        if seen {
                            let w = choose|w: int| 0 <= w < old_out.len() && (#[trigger] old_out[w])@ == sig->0;
                            assert(out@[w] == old_out[w]);
                        } else {
                            assert(out@[out@.len() - 1]@ == sig->0);
                        }
                    } else {
                        let w = choose|w: int| 0 <= w < old_out.len() && Some(old_out[w]@) == signal_of(ws@, events@[m]);
                        assert(out@[w] == old_out[w]);
                    }
                }
            },
        }
        i = i + 1;
    }
    out
}

} // verus!
