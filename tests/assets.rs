use runner::resource::{asset_kind, kind_of_extension, AssetCache, AssetKind, ResourceError};

#[test]
fn extensions_in_any_case() {
    assert_eq!(asset_kind("res/sprites/player.png").unwrap(), AssetKind::Texture);
    assert_eq!(asset_kind("res/sounds/jumping.WaV").unwrap(), AssetKind::Sound);
    assert_eq!(asset_kind("a.b.PNG").unwrap(), AssetKind::Texture);
}

#[test]
fn unknown_extension_is_upper_cased() {
    match asset_kind("notes.txt") {
        Err(ResourceError::UnknownExtension(e)) => assert_eq!(e, "TXT"),
        other => panic!("unexpected {:?}", other),
    }
    match asset_kind("noext") {
        Err(ResourceError::UnknownExtension(e)) => assert_eq!(e, "NOEXT"),
        other => panic!("unexpected {:?}", other),
    }
    match asset_kind("trailing.") {
        Err(ResourceError::UnknownExtension(e)) => assert_eq!(e, ""),
        other => panic!("unexpected {:?}", other),
    }
}

#[test]
fn extension_must_already_be_upper_case() {
    assert_eq!(kind_of_extension(String::from("PNG")).unwrap(), AssetKind::Texture);
    assert_eq!(kind_of_extension(String::from("WAV")).unwrap(), AssetKind::Sound);
    assert!(matches!(kind_of_extension(String::from("png")), Err(ResourceError::UnknownExtension(_))));
}

#[test]
fn cache_shares_by_path() {
    let mut cache: AssetCache<u32> = AssetCache::new();
    assert!(cache.get("a.png").is_none());
    cache.insert("a.png", 7);
    cache.insert("b.wav", 9);
    assert_eq!(cache.get("a.png"), Some(&7));
    assert_eq!(cache.get("b.wav"), Some(&9));
    assert!(cache.get("c.wav").is_none());
    assert_eq!(cache.entries.len(), 2);
}

use runner::menu::{find_menu, target_menu, MenuLookup};

#[test]
fn level_files_lead_to_their_extension_menu() {
    assert_eq!(target_menu(&String::from("first.lvl")), ".lvl");
    assert_eq!(target_menu(&String::from("a.b.c")), ".b.c");
    assert_eq!(target_menu(&String::from("Main menu")), "Main menu");
    assert_eq!(target_menu(&String::from("")), "");
}

#[test]
fn menus_are_found_by_name() {
    let ids = vec![String::from("Main menu"), String::from("Play"), String::from(".lvl"), String::from("Play")];
    assert_eq!(find_menu(&ids, &String::from(".lvl")), MenuLookup::Unique(2));
    assert_eq!(find_menu(&ids, &String::from("Main menu")), MenuLookup::Unique(0));
    assert_eq!(find_menu(&ids, &String::from("Options")), MenuLookup::Missing);
    assert_eq!(find_menu(&ids, &String::from("Play")), MenuLookup::Ambiguous);
}
