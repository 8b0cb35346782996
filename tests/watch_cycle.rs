use sync_saves::sync::SyncItem;
use sync_saves::watcher::{
    cycle_signals, is_relevant_event, paths_not_in, signal_for_event, watch_set, EventKind, FsEvent, WatchEntry,
};

fn it(id: &str, path: &str, enabled: bool) -> SyncItem {
    SyncItem {
        id: id.to_string(),
        name: id.to_string(),
        slug: id.to_string(),
        local_path: path.to_string(),
        sync_enabled: enabled,
        cover_url: None,
    }
}

fn entry(id: &str, path: &str) -> WatchEntry {
    WatchEntry { item_id: id.to_string(), path: path.to_string() }
}

fn ev(kind: EventKind, paths: &[&str]) -> FsEvent {
    FsEvent { kind, paths: paths.iter().map(|p| p.to_string()).collect() }
}

#[test]
fn watch_set_keeps_enabled_existing_items() {
    let items = vec![it("a", "/s/a", true), it("b", "/s/b", false), it("c", "/s/c", true), it("d", "/s/d", true)];
    let ws = watch_set(&items, &vec![true, true, false, true]);
    let got: Vec<(&str, &str)> = ws.iter().map(|w| (w.item_id.as_str(), w.path.as_str())).collect();
    assert_eq!(got, vec![("a", "/s/a"), ("d", "/s/d")]);
}

#[test]
fn subscription_changes_between_cycles() {
    let old = vec![entry("a", "/s/a"), entry("b", "/s/b")];
    let new = vec![entry("b", "/s/b"), entry("c", "/s/c"), entry("c2", "/s/c")];
    assert_eq!(paths_not_in(&new, &old), vec!["/s/c".to_string()]);
    assert_eq!(paths_not_in(&old, &new), vec!["/s/a".to_string()]);
    assert!(paths_not_in(&old, &old).is_empty());
}

#[test]
fn only_content_changes_and_creations_are_relevant() {
    assert!(is_relevant_event(EventKind::Created));
    assert!(is_relevant_event(EventKind::ContentModified));
    assert!(is_relevant_event(EventKind::Renamed));
    for k in [EventKind::MetadataChanged, EventKind::Accessed, EventKind::Removed, EventKind::Other] {
        assert!(!is_relevant_event(k));
    }
}

#[test]
fn metadata_change_never_signals() {
    let ws = vec![entry("a", "/s/a")];
    assert_eq!(signal_for_event(&ws, &ev(EventKind::MetadataChanged, &["/s/a/save.dat"])), None);
    assert_eq!(signal_for_event(&ws, &ev(EventKind::Accessed, &["/s/a/save.dat"])), None);
    let signals = cycle_signals(&ws, &vec![ev(EventKind::MetadataChanged, &["/s/a/x"]), ev(EventKind::Removed, &["/s/a/y"])]);
    assert!(signals.is_empty());
}

#[test]
fn rename_under_watched_path_signals() {
    let ws = vec![entry("a", "/s/a")];
    assert_eq!(signal_for_event(&ws, &ev(EventKind::Renamed, &["/s/a/old.dat", "/s/a/new.dat"])), Some("a".to_string()));
}

#[test]
fn event_signals_first_watched_prefix_by_component() {
    let ws = vec![entry("a", "/s/a"), entry("ab", "/s/ab"), entry("s", "/s")];
    assert_eq!(signal_for_event(&ws, &ev(EventKind::ContentModified, &["/s/ab/1.dat"])), Some("ab".to_string()));
    assert_eq!(signal_for_event(&ws, &ev(EventKind::Created, &["/s/a/1.dat"])), Some("a".to_string()));
    assert_eq!(signal_for_event(&ws, &ev(EventKind::Created, &["/s/z"])), Some("s".to_string()));
    assert_eq!(signal_for_event(&ws, &ev(EventKind::Created, &["/other/z"])), None);
}

#[test]
fn burst_in_one_cycle_gives_one_signal() {
    let ws = vec![entry("a", "/s/a"), entry("b", "/s/b")];
    let burst: Vec<FsEvent> = (0..50).map(|i| ev(EventKind::ContentModified, &[&format!("/s/a/f{}", i)])).collect();
    assert_eq!(cycle_signals(&ws, &burst), vec!["a".to_string()]);
    let mixed = vec![
        ev(EventKind::ContentModified, &["/s/b/1"]),
        ev(EventKind::Created, &["/s/a/1"]),
        ev(EventKind::ContentModified, &["/s/b/2"]),
    ];
    assert_eq!(cycle_signals(&ws, &mixed), vec!["b".to_string(), "a".to_string()]);
    assert!(cycle_signals(&ws, &vec![]).is_empty());
}
