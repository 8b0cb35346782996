use sync_saves::catalog::{apply_update, new_local_game, slugify, LocalGame, UpdateGameParams};
use sync_saves::restore::restore_plan_from_base64;
use sync_saves::settings::{device_display_name, value_or, AppSettings, SystemInfo};
use sync_saves::stats::{detect_silksong, millis_to_i64, newest_json_sidecar, silksong_counts, summarize_files, system_time_to_ms, FileFacts};
use sync_saves::sync::SyncError;
use sync_saves::archive::RestorePlan;

#[test]
fn slug_lowercases_and_hyphenates() {
    assert_eq!(slugify("Hollow Knight Silksong"), "hollow-knight-silksong");
    assert_eq!(slugify(""), "");
    assert_eq!(slugify("ÉLAN  Vital"), "élan--vital");
}

#[test]
fn new_record_defaults() {
    let g = new_local_game("id1".to_string(), "Dead Cells".to_string(), "/p".to_string(), "steam".to_string());
    assert_eq!(g.slug, "dead-cells");
    assert!(g.sync_enabled);
    assert_eq!(g.status, "idle");
    assert_eq!(g.cover_url, None);
}

#[test]
fn update_replaces_given_fields_and_reslugs() {
    let cur = LocalGame {
        id: "id1".to_string(),
        name: "Old Name".to_string(),
        slug: "old-name".to_string(),
        cover_url: Some("c".to_string()),
        platform: "steam".to_string(),
        local_path: "/a".to_string(),
        sync_enabled: true,
        status: "idle".to_string(),
    };
    let up = UpdateGameParams {
        name: Some("New Name".to_string()),
        local_path: None,
        platform: Some("gog".to_string()),
        sync_enabled: Some(false),
        cover_url: None,
    };
    let g = apply_update(&cur, &up);
    assert_eq!(g.id, "id1");
    assert_eq!(g.name, "New Name");
    assert_eq!(g.slug, "new-name");
    assert_eq!(g.local_path, "/a");
    assert_eq!(g.platform, "gog");
    assert!(!g.sync_enabled);
    assert_eq!(g.cover_url.as_deref(), Some("c"));
    assert_eq!(g.status, "idle");
}

#[test]
fn settings_defaults_rows_and_reading() {
    let d = AppSettings::default();
    assert_eq!(d, AppSettings { launch_on_startup: true, desktop_notifications: false, auto_sync_enabled: true });
    let mut s = d;
    s.apply_setting("setting_notifications", "true");
    s.apply_setting("setting_launch_startup", "yes");
    s.apply_setting("setting_unknown", "true");
    assert_eq!(s, AppSettings { launch_on_startup: false, desktop_notifications: true, auto_sync_enabled: true });
    let rows = s.setting_rows();
    let rows: Vec<(&str, &str)> = rows.iter().map(|(k, v)| (k.as_str(), v.as_str())).collect();
    assert_eq!(
        rows,
        vec![("setting_launch_startup", "false"), ("setting_notifications", "true"), ("setting_auto_sync", "true")]
    );
}

#[test]
fn system_info_and_names_fall_back() {
    let i = SystemInfo::from_parts(Some("Linux".to_string()), None, None, 1024, None);
    assert_eq!(i.os_name, "Linux");
    assert_eq!(i.os_version, "Unknown");
    assert_eq!(i.hostname, "Unknown");
    assert_eq!(i.total_memory, 1024);
    assert_eq!(i.device_id, "unknown");
    assert_eq!(device_display_name(Some("Mine".to_string()), Some("host".to_string())), "Mine");
    assert_eq!(device_display_name(None, Some("host".to_string())), "host");
    assert_eq!(device_display_name(None, None), "Unknown-PC");
    assert_eq!(value_or(None, "x"), "x");
}

#[test]
fn silksong_detection() {
    assert!(detect_silksong("Hollow Knight: SILKSONG", "x", "/p"));
    assert!(detect_silksong("x", "silksong", "/p"));
    assert!(detect_silksong("x", "y", "C:/Games/Hollow Knight Silksong/saves"));
    assert!(!detect_silksong("Hollow Knight", "hollow-knight", "/saves/hollow knight"));
}

fn file(rel: &str, size: Option<u64>, mtime: Option<i64>) -> FileFacts {
    let name = rel.rsplit('/').next().unwrap().to_string();
    FileFacts { rel_path: rel.to_string(), file_name: name, size, mtime_ms: mtime }
}

#[test]
fn file_summary_counts_sums_and_newest() {
    let files = vec![file("a", Some(10), Some(5)), file("b/c", None, Some(9)), file("d", Some(u64::MAX), None)];
    let s = summarize_files(&files);
    assert_eq!(s.file_count, 3);
    assert_eq!(s.total_bytes, u64::MAX);
    assert_eq!(s.newest_mtime_ms, Some(9));
    let e = summarize_files(&vec![]);
    assert_eq!((e.file_count, e.total_bytes, e.newest_mtime_ms), (0, 0, None));
}

#[test]
fn silksong_counts_and_sidecar() {
    let files = vec![
        file("user1.dat", Some(1), Some(100)),
        file("USER2.DAT", Some(1), Some(300)),
        file("user1.dat.json", Some(1), Some(50)),
        file("Restore_Points1/user1.dat", Some(1), None),
        file("user2.dat.json", Some(1), Some(70)),
        file("notes.txt", Some(1), Some(999)),
    ];
    let c = silksong_counts(&files);
    assert_eq!(c.user_dat_files, 3);
    assert_eq!(c.restore_point_files, 1);
    assert_eq!(c.decoded_json_files, 2);
    assert_eq!(c.newest_save_mtime_ms, Some(300));
    assert_eq!(newest_json_sidecar(&files), Some(4));
    assert_eq!(newest_json_sidecar(&vec![file("a.txt", None, None)]), None);
}

#[test]
fn time_conversion() {
    assert_eq!(millis_to_i64(None), 0);
    assert_eq!(millis_to_i64(Some(1_700_000_000_123)), 1_700_000_000_123);
    let t = std::time::UNIX_EPOCH + std::time::Duration::from_millis(1234);
    assert_eq!(system_time_to_ms(t), 1234);
    let before = std::time::UNIX_EPOCH - std::time::Duration::from_secs(5);
    assert_eq!(system_time_to_ms(before), 0);
}

#[test]
fn restore_from_base64() {
    match restore_plan_from_base64("%%%") {
        Err(SyncError::Corrupt(_)) => {}
        other => panic!("expected corrupt, got {:?}", other.map(|_| ())),
    }
    match restore_plan_from_base64("aGVsbG8=") {
        Err(SyncError::Corrupt(_)) => {}
        other => panic!("expected corrupt archive, got {:?}", other.map(|_| ())),
    }
    let blob = sync_saves::codec::pack(&sync_saves::archive::SourceTree::File(b"data".to_vec())).unwrap();
    let text = base64_encode(&blob);
    match restore_plan_from_base64(&text) {
        Ok(RestorePlan::SingleFile(b)) => assert_eq!(b, b"data".to_vec()),
        other => panic!("expected single file, got {:?}", other.map(|_| ())),
    }
}

fn base64_encode(data: &[u8]) -> String {
    const T: &[u8; 64] = b"ABCDEFGHIJKLMNOPQRSTUVWXYZabcdefghijklmnopqrstuvwxyz0123456789+/";
    let mut out = String::new();
    for chunk in data.chunks(3) {
        let b = [chunk[0], *chunk.get(1).unwrap_or(&0), *chunk.get(2).unwrap_or(&0)];
        let n = ((b[0] as u32) << 16) | ((b[1] as u32) << 8) | b[2] as u32;
        for i in 0..4 {
            if i <= chunk.len() {
                out.push(T[((n >> (18 - 6 * i)) & 63) as usize] as char);
            } else {
                out.push('=');
            }
        }
    }
    out
}
