use sable::games::{
    ea_name_from_folder, exe_from_display_icon, exe_preference_lowered, extract_vdf_value,
    first_occurrences, is_likely_game, is_likely_game_lowered, keep_first_paths,
    parse_steam_manifest_text, parse_vdf_library_paths, pick_exe, steam_library_paths, ManifestError,
};

#[test]
fn test_is_likely_game_filters_runtimes() {
    assert!(!is_likely_game("Microsoft Visual C++ 2015 Redistributable"));
    assert!(!is_likely_game("DirectX End-User Runtimes"));
    assert!(is_likely_game("Cyberpunk 2077"));
    assert!(is_likely_game("Counter-Strike 2"));
}

#[test]
fn test_extract_vdf_value() {
    let line = r#"		"name"		"Half-Life 2""#;
    assert_eq!(extract_vdf_value(line), "Half-Life 2");
}

#[test]
fn vdf_value_needs_three_quotes() {
    assert_eq!(extract_vdf_value(r#""name" "#), "");
    assert_eq!(extract_vdf_value(r#""name"  "open"#), "open");
}

#[test]
fn likely_game_lowered_checks_every_keyword() {
    assert!(!is_likely_game_lowered("steamworks common"));
    assert!(!is_likely_game_lowered("nvidia graphics driver"));
    assert!(is_likely_game_lowered("elden ring"));
    // the uppercase keyword does not match before lowercasing
    assert!(is_likely_game_lowered("STEAM"));
    assert!(!is_likely_game("STEAM"));
}

#[test]
fn library_paths_are_read_and_unescaped() {
    let vdf = "\"libraryfolders\"\n{\n\t\"0\"\n\t{\n\t\t\"path\"\t\t\"C:\\\\Program Files (x86)\\\\Steam\"\r\n\t\t\"label\"\t\t\"\"\n\t}\n\t\"1\"\n\t{\n\t\t\"path\"\t\t\"D:\\\\SteamLibrary\"\n\t}\n\t\t\"path\"\t\t\"\"\n}\n";
    let paths = parse_vdf_library_paths(vdf);
    assert_eq!(
        paths,
        vec![
            "C:\\Program Files (x86)\\Steam".to_string(),
            "D:\\SteamLibrary".to_string()
        ]
    );
}

#[test]
fn steam_manifest_fields() {
    let acf = "\"AppState\"\n{\n\t\"appid\"\t\t\"220\"\n\t\"name\"\t\t\"Half-Life 2\"\n\t\"installdir\"\t\t\"Half-Life 2\"\n}\n";
    let m = parse_steam_manifest_text(acf).unwrap();
    assert_eq!(m.name, "Half-Life 2");
    assert_eq!(m.app_id, "220");
    assert_eq!(m.install_dir, "Half-Life 2");
}

#[test]
fn steam_manifest_later_line_wins_and_missing_dir_fails() {
    let acf = "\"name\" \"A\"\n\"name\" \"B\"\n\"installdir\" \"b\"\n";
    assert_eq!(parse_steam_manifest_text(acf).unwrap().name, "B");
    let missing = "\"name\" \"A\"\n\"appid\" \"1\"\n";
    assert!(matches!(
        parse_steam_manifest_text(missing),
        Err(ManifestError::Incomplete)
    ));
}

#[test]
fn exe_ranking_prefers_the_directory_name() {
    assert_eq!(exe_preference_lowered("witcher3", "witcher3"), 0);
    assert_eq!(exe_preference_lowered("redlauncher", "witcher3"), 2);
    assert_eq!(exe_preference_lowered("crashreporter", "witcher3"), 1);
    let stems = vec![
        "UnityCrashHandler64".to_string(),
        "Setup".to_string(),
        "Hades".to_string(),
        "Other".to_string(),
    ];
    assert_eq!(pick_exe(&stems, "Hades"), Some(2));
    let no_match = vec!["Launcher".to_string(), "game".to_string(), "tool".to_string()];
    assert_eq!(pick_exe(&no_match, "x"), Some(1));
    assert_eq!(pick_exe(&Vec::new(), "x"), None);
}

#[test]
fn dedup_keeps_the_first_of_each_path() {
    let keys = vec!["a".to_string(), "b".to_string(), "a".to_string()];
    assert_eq!(first_occurrences(&keys), vec![true, true, false]);
    let paths = vec![
        "C:\\Games\\X.exe".to_string(),
        "c:\\games\\x.EXE".to_string(),
        "C:\\Games\\Y.exe".to_string(),
    ];
    assert_eq!(keep_first_paths(&paths), vec![true, false, true]);
}

#[test]
fn display_icon_and_ea_names() {
    assert_eq!(exe_from_display_icon("  C:\\G\\g.exe ,0"), "C:\\G\\g.exe");
    assert_eq!(exe_from_display_icon("C:\\G\\g.exe"), "C:\\G\\g.exe");
    assert_eq!(ea_name_from_folder("Mass_Effect-Legendary"), "Mass Effect Legendary");
}

#[test]
fn steam_libraries_start_with_the_steam_folder() {
    let vdf = "\"libraryfolders\"\n{\n\t\"0\"\n\t{\n\t\t\"path\"\t\t\"C:\\\\Steam\"\n\t}\n\t\"1\"\n\t{\n\t\t\"path\"\t\t\"D:\\\\Games\"\n\t\t\"path\"\t\t\"D:\\\\Games\"\n\t}\n}\n";
    let libs = steam_library_paths(r"C:\Steam".to_string(), vdf);
    assert_eq!(libs, vec![r"C:\Steam".to_string(), r"D:\Games".to_string()]);
    let libs = steam_library_paths(r"E:\Steam".to_string(), vdf);
    assert_eq!(libs, vec![r"E:\Steam".to_string(), r"C:\Steam".to_string(), r"D:\Games".to_string()]);
}
