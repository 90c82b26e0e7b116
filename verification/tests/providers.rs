use ludex::providers::battlenet::{self, BattlenetGameDir};
use ludex::providers::ea::{self, find_exe, EaGameDir};
use ludex::providers::epic::{self, installation_from_manifest_with, is_manifest_file, EpicManifest};
use ludex::providers::gog::{
    self, installation_from_dir_with, primary_task, GogGameDir, GogInfo, GogInfoFile, GogPlayTask,
};
use ludex::providers::microsoft::{self, XboxApp};
use ludex::providers::steam::{is_appmanifest_name, SteamProvider};
use ludex::providers::ubisoft::{self, UbisoftInstall};
use ludex::providers::{game_id_of_folder, scan_provider, ProviderKind};

fn task(primary: Option<bool>, path: Option<&str>) -> GogPlayTask {
    GogPlayTask { is_primary: primary, path: path.map(str::to_string) }
}

#[test]
fn chooses_primary_gog_play_task() {
    let info = GogInfo {
        game_id: None,
        name: None,
        play_tasks: Some(vec![task(Some(false), Some("setup.exe")), task(Some(true), Some("bin/game.exe"))]),
    };
    assert!(primary_task(&info, "C:/GOG/Game").unwrap().ends_with("bin/game.exe"));
}

#[test]
fn gog_primary_task_needs_a_path_and_the_flag() {
    let info = GogInfo {
        game_id: None,
        name: None,
        play_tasks: Some(vec![task(Some(true), None), task(None, Some("a.exe")), task(Some(true), Some("b.exe"))]),
    };
    assert_eq!(primary_task(&info, "C:\\Games\\X").as_deref(), Some("C:\\Games\\X\\b.exe"));
    let none = GogInfo { game_id: None, name: None, play_tasks: None };
    assert_eq!(primary_task(&none, "C:\\Games\\X"), None);
}

fn gog_dir(files: Vec<GogInfoFile>) -> GogGameDir {
    GogGameDir { dir: "C:\\GOG Games\\Witcher".to_string(), dir_name: Some("Witcher".to_string()), files }
}

#[test]
fn gog_folders_use_their_first_readable_info_file() {
    let info = GogInfo {
        game_id: None,
        name: None,
        play_tasks: Some(vec![task(Some(true), Some("witcher.exe"))]),
    };
    let d = gog_dir(vec![
        GogInfoFile { file_name: "readme.txt".to_string(), info: Some(info.clone()) },
        GogInfoFile { file_name: "goggame-1.info".to_string(), info: None },
        GogInfoFile { file_name: "goggame-goggame-1207658924.info".to_string(), info: Some(info) },
    ]);
    let i = installation_from_dir_with(&d, true).unwrap();
    assert_eq!(i.provider, "gog");
    assert_eq!(i.external_id, "1207658924");
    assert_eq!(i.title, "Witcher");
    assert_eq!(i.executable.as_deref(), Some("C:\\GOG Games\\Witcher\\witcher.exe"));
    assert!(i.installed);
    assert_eq!(installation_from_dir_with(&d, false).unwrap().executable, None);

    let named = gog_dir(vec![GogInfoFile {
        file_name: "goggame-5.info".to_string(),
        info: Some(GogInfo { game_id: Some("77".to_string()), name: Some("The Witcher".to_string()), play_tasks: None }),
    }]);
    let i = installation_from_dir_with(&named, true).unwrap();
    assert_eq!((i.external_id.as_str(), i.title.as_str()), ("77", "The Witcher"));

    let mut unnamed = gog_dir(vec![GogInfoFile {
        file_name: "goggame-5.info".to_string(),
        info: Some(GogInfo { game_id: None, name: None, play_tasks: None }),
    }]);
    unnamed.dir_name = None;
    assert_eq!(installation_from_dir_with(&unnamed, true).unwrap().title, "GOG Game");
    assert!(installation_from_dir_with(&gog_dir(vec![]), true).is_none());
}

#[test]
fn gog_scan_reports_its_folders() {
    let d = gog_dir(vec![GogInfoFile {
        file_name: "goggame-5.info".to_string(),
        info: Some(GogInfo { game_id: Some("5".to_string()), name: Some("Five".to_string()), play_tasks: None }),
    }]);
    let s = gog::scan(&vec!["/no/such/root".to_string()], &vec![d, gog_dir(vec![])]).unwrap();
    assert_eq!((s.id, s.name, s.can_launch), ("gog", "GOG", true));
    assert_eq!(s.installations.len(), 1);
    assert_eq!(s.installations[0].external_id, "5");
    assert_eq!(s.root, None);
}

#[test]
fn xbox_apps_need_a_name_and_an_id() {
    let s = microsoft::scan(None).unwrap();
    assert!(!s.can_launch && s.installations.is_empty());
    assert_eq!(s.message, "Disponível no Windows.");
    let apps = vec![
        XboxApp { name: Some("Forza Horizon 5".to_string()), app_id: Some("Microsoft.624F8B84B80_8wekyb3d8bbwe!Forza".to_string()) },
        XboxApp { name: None, app_id: Some("x!y".to_string()) },
        XboxApp { name: Some("Halo".to_string()), app_id: None },
    ];
    let s = microsoft::scan(Some(apps)).unwrap();
    assert!(s.can_launch);
    assert_eq!(s.installations.len(), 1);
    assert_eq!(s.installations[0].title, "Forza Horizon 5");
    assert_eq!(s.installations[0].provider, "xbox");
    assert_eq!(s.installations[0].install_dir, None);
}

#[test]
fn ubisoft_titles_come_from_the_install_folder() {
    let s = ubisoft::scan(None).unwrap();
    assert!(!s.can_launch && s.installations.is_empty());
    let installs = vec![
        UbisoftInstall { id: "635".to_string(), install_dir: "C:\\Games\\Far Cry 5\\".to_string() },
        UbisoftInstall { id: "1".to_string(), install_dir: String::new() },
        UbisoftInstall { id: "2".to_string(), install_dir: "C:\\".to_string() },
    ];
    let s = ubisoft::scan(Some(installs)).unwrap();
    assert_eq!(s.installations.len(), 2);
    assert_eq!(s.installations[0].title, "Far Cry 5");
    assert_eq!(s.installations[0].external_id, "635");
    assert_eq!(s.installations[1].title, "Ubisoft Game");
}

#[test]
fn folder_games_get_slug_ids() {
    assert_eq!(game_id_of_folder("Mass Effect Legendary"), "mass-effect-legendary");
    let s = battlenet::scan(&vec![BattlenetGameDir { dir: "C:\\Program Files\\Diablo IV".to_string(), title: "Diablo IV".to_string() }]).unwrap();
    assert_eq!(s.installations[0].external_id, "diablo-iv");
    assert!(!s.can_launch);
    assert_eq!(s.root, None);
}

#[test]
fn ea_executables_skip_uninstallers() {
    let entries = vec![
        "C:\\EA Games\\Game\\Unins000.EXE".to_string(),
        "C:\\EA Games\\Game\\readme.txt".to_string(),
        "C:\\EA Games\\Game\\Game.Exe".to_string(),
    ];
    assert_eq!(find_exe(&entries).as_deref(), Some("C:\\EA Games\\Game\\Game.Exe"));
    assert_eq!(find_exe(&vec!["C:\\x\\.exe".to_string()]), None);
    let s = ea::scan(&vec![], &vec![EaGameDir { dir: "C:\\EA Games\\Game".to_string(), title: "The Game".to_string(), entries }]).unwrap();
    assert_eq!(s.installations[0].external_id, "the-game");
    assert_eq!(s.installations[0].executable.as_deref(), Some("C:\\EA Games\\Game\\Game.Exe"));
}

fn manifest() -> EpicManifest {
    EpicManifest {
        app_name: Some("Fortnite".to_string()),
        display_name: Some("Fortnite".to_string()),
        install_location: Some("Z:\\NoSuchGame".to_string()),
        launch_executable: Some("FortniteGame\\Binaries\\Win64\\FortniteClient-Win64-Shipping.exe".to_string()),
        catalog_namespace: Some("fn".to_string()),
        catalog_item_id: Some("cat".to_string()),
        is_incomplete_install: false,
    }
}

#[test]
fn parses_epic_item_manifest() {
    let item = installation_from_manifest_with(&manifest(), false).unwrap();
    assert_eq!(item.external_id, "fn:cat:Fortnite");
    assert!(item.executable.unwrap().contains("FortniteClient"));
}

#[test]
fn epic_manifests_need_an_app_name() {
    let mut m = manifest();
    m.app_name = Some("  ".to_string());
    assert_eq!(installation_from_manifest_with(&m, true).unwrap_err(), "AppName ausente");
    let mut m = manifest();
    m.catalog_item_id = Some(String::new());
    m.display_name = None;
    m.install_location = Some(" ".to_string());
    let i = installation_from_manifest_with(&m, true).unwrap();
    assert_eq!(i.external_id, "Fortnite");
    assert_eq!(i.title, "Fortnite");
    assert_eq!((i.install_dir, i.executable, i.installed), (None, None, false));
    assert!(installation_from_manifest_with(&manifest(), true).unwrap().installed);
    let mut incomplete = manifest();
    incomplete.is_incomplete_install = true;
    assert!(!installation_from_manifest_with(&incomplete, true).unwrap().installed);
    assert!(is_manifest_file("C:\\Manifests\\ABC.ITEM"));
    assert!(!is_manifest_file("C:\\Manifests\\ABC.json"));
    let s = epic::scan(&vec![manifest()], &vec![], Some("C:\\ProgramData\\Epic".to_string())).unwrap();
    assert_eq!(s.root.as_deref(), Some("C:\\ProgramData\\Epic"));
    assert_eq!(s.installations.len(), 1);
}

#[test]
fn steam_roots_and_libraries() {
    let regs = SteamProvider::registry_roots(Some("c:/program files (x86)/steam".to_string()), vec![None, Some("D:\\Steam".to_string())]);
    assert_eq!(regs, vec!["c:/program files (x86)/steam", "D:\\Steam"]);
    let c = SteamProvider::candidate_roots(Some("C:\\Program Files (x86)".to_string()), None, Some("C:\\Users\\a\\AppData\\Local\\".to_string()));
    assert_eq!(c, vec!["C:\\Program Files (x86)\\Steam", "C:\\Users\\a\\AppData\\Local\\Steam"]);
    assert_eq!(SteamProvider::detect_root(&vec!["/no/such/steam".to_string()]), None);
    let vdf = "\"libraryfolders\"\n{\n\t\"0\"\n\t{\n\t\t\"path\"\t\t\"C:\\\\Program Files (x86)\\\\Steam\"\n\t}\n\t\"1\"\n\t{\n\t\t\"path\"\t\t\"D:\\\\SteamLibrary\"\n\t}\n\t\"2\"\n\t{\n\t\t\"path\"\t\t\"d:\\\\steamlibrary\"\n\t}\n}\n";
    let libs = SteamProvider::library_paths("C:\\Program Files (x86)\\Steam", Some(vdf));
    assert_eq!(libs, vec!["C:\\Program Files (x86)\\Steam", "D:\\SteamLibrary"]);
    assert_eq!(SteamProvider::library_paths("C:\\Steam", None), vec!["C:\\Steam"]);
    assert!(is_appmanifest_name("appmanifest_1091500.acf"));
    assert!(!is_appmanifest_name("appmanifest_1091500.acf.bak"));
}

#[test]
fn scan_requests_name_a_known_launcher() {
    assert_eq!(scan_provider("gog").unwrap(), ProviderKind::Gog);
    assert_eq!(scan_provider("xbox").unwrap(), ProviderKind::Xbox);
    assert_eq!(scan_provider("origin").unwrap_err(), "Provider desconhecido: origin");
}

#[test]
fn the_first_existing_root_is_reported() {
    let here = "/".to_string();
    let roots = vec!["/no/such/root".to_string(), here.clone(), "/also/missing".to_string()];
    assert_eq!(ludex::host::first_existing(&roots, None), Some(here));
    assert_eq!(ludex::host::first_existing(&vec!["/no/such/root".to_string()], None), None);
    let paths = vec!["a".to_string(), "b".to_string(), "c".to_string()];
    assert_eq!(ludex::host::first_flagged_path(&paths, &vec![false, true, true]).as_deref(), Some("b"));
    assert_eq!(ludex::host::first_flagged_path(&paths, &vec![false, false, false]), None);
    assert!(gog::is_info_file_name("goggame-1207658924.info"));
    assert!(!gog::is_info_file_name("goggame-1207658924.json"));
}
