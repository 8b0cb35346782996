use sync_saves::ledger::{AuthConfig, LedgerOp, NewVersion};
use sync_saves::request::{render_request, HttpRequest, Method, RequestBody};

fn auth() -> AuthConfig {
    AuthConfig {
        url: "https://x.example".to_string(),
        key: "k1".to_string(),
        token: "t1".to_string(),
        user_id: "u1".to_string(),
    }
}

fn render(op: LedgerOp) -> HttpRequest {
    render_request(&auth(), &op)
}

fn headers(r: &HttpRequest) -> Vec<(&str, &str)> {
    r.headers.iter().map(|(k, v)| (k.as_str(), v.as_str())).collect()
}

fn json(r: &HttpRequest) -> &str {
    match &r.body {
        RequestBody::Json(b) => b.as_str(),
        other => panic!("expected json body, got {:?}", other),
    }
}

#[test]
fn device_lookup_filters_by_machine_id() {
    let r = render(LedgerOp::FindDevice { machine_id: "m-7".to_string() });
    assert_eq!(r.method, Method::Get);
    assert_eq!(r.url, "https://x.example/rest/v1/devices?user_id=eq.u1&machine_id=eq.m-7&select=id");
    assert_eq!(headers(&r), vec![("apikey", "k1"), ("Authorization", "Bearer t1")]);
    assert!(matches!(r.body, RequestBody::Empty));
}

#[test]
fn device_create_merges_duplicates() {
    let r = render(LedgerOp::CreateDevice {
        machine_id: "m-7".to_string(),
        name: "My \"PC\"".to_string(),
        os: "linux".to_string(),
    });
    assert_eq!(r.method, Method::Post);
    assert_eq!(r.url, "https://x.example/rest/v1/devices");
    assert_eq!(
        headers(&r),
        vec![
            ("apikey", "k1"),
            ("Authorization", "Bearer t1"),
            ("Prefer", "return=representation,resolution=merge-duplicates"),
            ("Content-Type", "application/json"),
        ]
    );
    assert_eq!(
        json(&r),
        r#"{"machine_id":"m-7","name":"My \"PC\"","os":"linux","type":"desktop","user_id":"u1"}"#
    );
}

#[test]
fn item_lookup_and_create() {
    let r = render(LedgerOp::FindItem { slug: "hk".to_string() });
    assert_eq!(r.url, "https://x.example/rest/v1/games?user_id=eq.u1&slug=eq.hk&select=id");
    let r = render(LedgerOp::CreateItem { name: "HK".to_string(), slug: "hk".to_string(), cover_url: None });
    assert_eq!(r.url, "https://x.example/rest/v1/games");
    assert_eq!(json(&r), r#"{"cover_url":null,"name":"HK","slug":"hk","user_id":"u1"}"#);
    assert_eq!(headers(&r)[2], ("Prefer", "return=representation,resolution=merge-duplicates"));
    let r = render(LedgerOp::CreateItem {
        name: "HK".to_string(),
        slug: "hk".to_string(),
        cover_url: Some("c.png".to_string()),
    });
    assert_eq!(json(&r), r#"{"cover_url":"c.png","name":"HK","slug":"hk","user_id":"u1"}"#);
}

#[test]
fn path_upsert_body() {
    let r = render(LedgerOp::UpsertPath {
        item_id: "g1".to_string(),
        device_id: "d1".to_string(),
        local_path: "C:\\Saves".to_string(),
        sync_enabled: true,
    });
    assert_eq!(r.url, "https://x.example/rest/v1/game_paths");
    assert_eq!(headers(&r)[2], ("Prefer", "resolution=merge-duplicates"));
    assert_eq!(json(&r), r#"{"device_id":"d1","game_id":"g1","local_path":"C:\\Saves","sync_enabled":true}"#);
}

#[test]
fn latest_lookup_clear_and_insert() {
    let r = render(LedgerOp::LatestFingerprint { item_id: "g1".to_string() });
    assert_eq!(r.method, Method::Get);
    assert_eq!(r.url, "https://x.example/rest/v1/save_versions?game_id=eq.g1&is_latest=eq.true&select=checksum");
    let r = render(LedgerOp::ClearLatest { item_id: "g1".to_string() });
    assert_eq!(r.method, Method::Patch);
    assert_eq!(r.url, "https://x.example/rest/v1/save_versions?game_id=eq.g1&is_latest=eq.true");
    assert_eq!(json(&r), r#"{"is_latest":false}"#);
    let r = render(LedgerOp::InsertVersion {
        version: NewVersion {
            id: "v1".to_string(),
            item_id: "g1".to_string(),
            device_id: "d1".to_string(),
            file_path: "u1/hk/v1.zip".to_string(),
            file_size: 2048,
            checksum: "ab".to_string(),
        },
    });
    assert_eq!(r.method, Method::Post);
    assert_eq!(r.url, "https://x.example/rest/v1/save_versions");
    assert_eq!(
        json(&r),
        r#"{"checksum":"ab","device_id":"d1","file_path":"u1/hk/v1.zip","file_size":2048,"game_id":"g1","id":"v1","is_latest":true}"#
    );
}

#[test]
fn upload_goes_to_object_storage() {
    let r = render(LedgerOp::Upload { storage_path: "u1/hk/v1.zip".to_string(), file_name: "v1.zip".to_string() });
    assert_eq!(r.method, Method::Post);
    assert_eq!(r.url, "https://x.example/storage/v1/object/saves/u1/hk/v1.zip");
    assert_eq!(headers(&r).len(), 2);
    match &r.body {
        RequestBody::Archive(name) => assert_eq!(name, "v1.zip"),
        other => panic!("expected archive body, got {:?}", other),
    }
}
