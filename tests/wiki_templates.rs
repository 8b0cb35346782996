use sync_saves::pcgw::{
    expand_windows_path_tokens, extract_balanced_template, extract_templates_named, lookup_title,
    save_locations_from_wikitext, search_request, split_template_params, UserFolders,
};
use sync_saves::steam::{steam_result, store_query, StorePrice};

fn no_folders() -> UserFolders {
    UserFolders { appdata: None, localappdata: None, userprofile: None }
}

fn folders() -> UserFolders {
    UserFolders {
        appdata: Some("C:\\Users\\me\\AppData\\Roaming".to_string()),
        localappdata: Some("C:\\Users\\me\\AppData\\Local".to_string()),
        userprofile: Some("C:\\Users\\me".to_string()),
    }
}

#[test]
fn balanced_template_with_nesting() {
    let s = "x{{a|{{b}}|c}}y";
    assert_eq!(extract_balanced_template(s, 1), Some((14, "a|{{b}}|c".to_string())));
    assert_eq!(extract_balanced_template(s, 0), None);
    assert_eq!(extract_balanced_template("{{open", 0), None);
    assert_eq!(extract_balanced_template("{{}}", 0), Some((4, String::new())));
    assert_eq!(extract_balanced_template("ab", 5), None);
}

#[test]
fn templates_by_name_in_order() {
    let text = "pre {{Game data/saves|Windows|{{p|appdata}}/Foo}} mid {{Other|x}} {{Game data/saves|Linux|~/.foo}} end";
    assert_eq!(
        extract_templates_named(text, "Game data/saves"),
        vec!["Game data/saves|Windows|{{p|appdata}}/Foo".to_string(), "Game data/saves|Linux|~/.foo".to_string()]
    );
    assert!(extract_templates_named("no templates", "Game data/saves").is_empty());
    assert_eq!(
        extract_templates_named("{{T|1}} {{T|2", "T"),
        vec!["T|1".to_string()]
    );
}

#[test]
fn params_split_outside_nested_templates() {
    assert_eq!(
        split_template_params("Game data/saves|Windows|{{p|userprofile}}\\Saves|x"),
        vec!["Windows".to_string(), "{{p|userprofile}}\\Saves".to_string(), "x".to_string()]
    );
    assert!(split_template_params("NameOnly").is_empty());
    assert_eq!(split_template_params("N|"), vec![String::new()]);
}

#[test]
fn path_tokens_expand() {
    assert_eq!(
        expand_windows_path_tokens("{{p|appdata}}/Team Cherry/Hollow Knight", &folders()),
        Some("C:\\Users\\me\\AppData\\Roaming\\Team Cherry\\Hollow Knight".to_string())
    );
    assert_eq!(
        expand_windows_path_tokens("{{p|savedgames}}\\Game", &folders()),
        Some("C:\\Users\\me\\Saved Games\\Game".to_string())
    );
    assert_eq!(expand_windows_path_tokens("C:\\Fixed\\Path", &folders()), None);
    assert_eq!(expand_windows_path_tokens("{{p|appdata}}\\X", &no_folders()), None);
    assert_eq!(expand_windows_path_tokens("a/b", &no_folders()), Some("a\\b".to_string()));
}

#[test]
fn save_locations_filter_sort_and_dedup() {
    let text = "{{Game data/saves|Windows|{{p|localappdata}}\\Z}}\
                {{Game data/saves|Linux|~/.z}}\
                {{Game data/saves|Windows|{{p|appdata}}\\A}}\
                {{Game data/saves|Windows|{{p|appdata}}\\A}}\
                {{Game data/saves|Win| C:\\B }}\
                {{Game data/saves|Windows|  }}\
                {{Game data/saves|Windows}}";
    let locs = save_locations_from_wikitext("Some Game".to_string(), text, &folders());
    assert_eq!(locs.title, "Some Game");
    let got: Vec<(String, String, Option<String>)> =
        locs.paths.iter().map(|p| (p.os.clone(), p.raw.clone(), p.expanded.clone())).collect();
    assert_eq!(
        got,
        vec![
            ("Win".to_string(), "C:\\B".to_string(), None),
            (
                "Windows".to_string(),
                "{{p|localappdata}}\\Z".to_string(),
                Some("C:\\Users\\me\\AppData\\Local\\Z".to_string())
            ),
            (
                "Windows".to_string(),
                "{{p|appdata}}\\A".to_string(),
                Some("C:\\Users\\me\\AppData\\Roaming\\A".to_string())
            ),
        ]
    );
}

#[test]
fn title_and_search_rules() {
    assert_eq!(lookup_title("  Hades  "), Ok("Hades".to_string()));
    assert_eq!(lookup_title("   "), Err("Title is required".to_string()));
    assert_eq!(search_request(" hk ", None), Some(("hk".to_string(), 8)));
    assert_eq!(search_request("hk", Some(0)), Some(("hk".to_string(), 1)));
    assert_eq!(search_request("hk", Some(99)), Some(("hk".to_string(), 20)));
    assert_eq!(search_request("hk", Some(5)), Some(("hk".to_string(), 5)));
    assert_eq!(search_request("  ", Some(5)), None);
}

#[test]
fn store_hits() {
    let r = steam_result(367520, "Hollow Knight".to_string(), Some(StorePrice { final_cents: 1499, currency: "USD".to_string() }));
    assert_eq!(r.id, 367520);
    assert_eq!(
        r.cover_url.as_deref(),
        Some("https://shared.fastly.steamstatic.com/store_item_assets/steam/apps/367520/library_600x900.jpg")
    );
    assert_eq!(r.price.as_deref(), Some("14 USD"));
    let free = steam_result(1, "Free".to_string(), None);
    assert_eq!(free.price, None);
    assert_eq!(store_query("  celeste "), Some("celeste".to_string()));
    assert_eq!(store_query(""), None);
}
