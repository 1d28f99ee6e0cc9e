use sable::entries::{dedup_games, ea_entry, epic_entry, gog_entry, gog_install_path, gog_listed_exe, steam_entry, uninstall_entry, GameEntry, GogReadings};
use sable::games::{GamePlatform, SteamManifest};

fn is_v4(id: u128) -> bool {
    (id >> 76) & 0xf == 4 && (id >> 62) & 3 == 2
}

fn gog() -> GogReadings {
    GogReadings {
        subkey: "1207658924".to_string(),
        game_name: None,
        game_name_alt: Some("Witcher".to_string()),
        path: Some(r"C:\GOG\Witcher".to_string()),
        path_alt: None,
        exe: Some(String::new()),
        game_exe: Some(r"C:\GOG\Witcher\witcher.exe".to_string()),
    }
}

#[test]
fn steam_entry_falls_back_to_the_directory() {
    let m = SteamManifest { name: "Portal".to_string(), app_id: "400".to_string(), install_dir: "Portal".to_string() };
    let e = steam_entry(m, r"D:\Steam\steamapps\common\Portal".to_string(), None);
    assert_eq!(e.name, "Portal");
    assert_eq!(e.exe_path, r"D:\Steam\steamapps\common\Portal");
    assert_eq!(e.platform, GamePlatform::Steam);
    assert!(is_v4(e.id));
    assert!(e.icon_path.is_none() && e.last_played.is_none() && e.preset_id.is_none());
}

#[test]
fn epic_entry_needs_name_and_location() {
    assert!(epic_entry(String::new(), r"C:\Epic\X".to_string(), "x.exe", r"C:\Epic\X\x.exe".to_string(), None).is_none());
    assert!(epic_entry("X".to_string(), String::new(), "", String::new(), None).is_none());
    let e = epic_entry("X".to_string(), r"C:\Epic\X".to_string(), "x.exe", r"C:\Epic\X\x.exe".to_string(), None).unwrap();
    assert_eq!(e.exe_path, r"C:\Epic\X\x.exe");
    assert_eq!(e.platform, GamePlatform::Epic);
    let e = epic_entry("X".to_string(), r"C:\Epic\X".to_string(), "", String::new(), Some(r"C:\Epic\X\run.exe".to_string())).unwrap();
    assert_eq!(e.exe_path, r"C:\Epic\X\run.exe");
}

#[test]
fn gog_readings_fall_back_in_order() {
    let r = gog();
    // EXE reads but is empty, so it counts as no executable; GameEXE is not consulted.
    assert_eq!(gog_listed_exe(&r), None);
    assert_eq!(gog_install_path(&r), r"C:\GOG\Witcher");
    let e = gog_entry(r, Some(r"C:\GOG\Witcher\found.exe".to_string())).unwrap();
    assert_eq!(e.name, "Witcher");
    assert_eq!(e.exe_path, r"C:\GOG\Witcher\found.exe");
    assert_eq!(e.platform, GamePlatform::Gog);

    let r = GogReadings { exe: None, ..gog() };
    assert_eq!(gog_listed_exe(&r), Some(r"C:\GOG\Witcher\witcher.exe".to_string()));
    let r = GogReadings { game_name_alt: None, exe: None, ..gog() };
    let e = gog_entry(r, None).unwrap();
    assert_eq!(e.name, "1207658924");
    assert_eq!(e.exe_path, r"C:\GOG\Witcher\witcher.exe");
}

#[test]
fn gog_without_path_is_skipped() {
    let r = GogReadings { path: None, path_alt: Some(String::new()), ..gog() };
    assert!(gog_entry(r, None).is_none());
}

#[test]
fn ea_entry_name_from_folder() {
    let e = ea_entry("Star_Wars-Jedi", r"C:\EA\Star_Wars-Jedi".to_string(), None);
    assert_eq!(e.name, "Star Wars Jedi");
    assert_eq!(e.exe_path, r"C:\EA\Star_Wars-Jedi");
    assert_eq!(e.platform, GamePlatform::Ea);
}

#[test]
fn uninstall_entries() {
    assert!(uninstall_entry(None, None, None, None).is_none());
    assert!(uninstall_entry(Some("Microsoft Edge".to_string()), None, None, None).is_none());
    let e = uninstall_entry(Some("Hades".to_string()), None, Some(r" C:\Games\Hades\Hades.exe ,0".to_string()), None).unwrap();
    assert_eq!(e.exe_path, r"C:\Games\Hades\Hades.exe");
    assert_eq!(e.icon_path, Some(r" C:\Games\Hades\Hades.exe ,0".to_string()));
    assert_eq!(e.platform, GamePlatform::Custom);
    let e = uninstall_entry(Some("Hades".to_string()), Some(r"C:\Games\Hades".to_string()), None, None).unwrap();
    assert_eq!(e.exe_path, r"C:\Games\Hades");
    assert_eq!(e.icon_path, Some(String::new()));
}

fn entry(name: &str, exe: &str) -> GameEntry {
    ea_entry(name, exe.to_string(), None)
}

#[test]
fn dedup_keeps_first_by_lowercased_path() {
    let games = vec![
        entry("A", r"C:\Games\A.exe"),
        entry("B", r"C:\Games\B.exe"),
        entry("A again", r"c:\games\a.EXE"),
        entry("C", r"C:\Games\C.exe"),
        entry("B again", r"C:\GAMES\B.exe"),
    ];
    let kept = dedup_games(games);
    let names: Vec<&str> = kept.iter().map(|g| g.name.as_str()).collect();
    assert_eq!(names, vec!["A", "B", "C"]);
}
