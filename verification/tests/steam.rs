use ludex::providers::steam::{parse_appmanifest, parse_appmanifest_with, parse_libraryfolders};
use ludex::steam_account::{owned_sync_result, parse_loginusers_most_recent, resolve_game};
use ludex::steam_data::parse_local_playtime;

const LIBRARYFOLDERS: &str = "\"libraryfolders\"\n{\n\t\"0\"\n\t{\n\t\t\"path\"\t\t\"C:\\\\Program Files (x86)\\\\Steam\"\n\t\t\"label\"\t\t\"\"\n\t\t\"contentid\"\t\t\"4213460286534913126\"\n\t\t\"totalsize\"\t\t\"0\"\n\t\t\"apps\"\n\t\t{\n\t\t\t\"228980\"\t\t\"1028952\"\n\t\t}\n\t}\n\t\"1\"\n\t{\n\t\t\"path\"\t\t\"D:\\\\SteamLibrary\"\n\t\t\"label\"\t\t\"\"\n\t\t\"apps\"\n\t\t{\n\t\t\t\"1091500\"\t\t\"74239123456\"\n\t\t}\n\t}\n}\n";

const APPMANIFEST: &str = "\"AppState\"\n{\n\t\"appid\"\t\t\"1091500\"\n\t\"Universe\"\t\t\"1\"\n\t\"name\"\t\t\"Cyberpunk 2077™\"\n\t\"StateFlags\"\t\t\"4\"\n\t\"installdir\"\t\t\"Cyberpunk 2077\"\n\t\"LastUpdated\"\t\t\"1726000000\"\n\t\"SizeOnDisk\"\t\t\"74239123456\"\n\t\"buildid\"\t\t\"15419545\"\n}\n";

#[test]
fn parses_modern_libraryfolders_fixture() {
    let paths = parse_libraryfolders(LIBRARYFOLDERS);
    assert_eq!(paths.len(), 2);
    assert!(paths.iter().any(|path| path.contains("SteamLibrary")));
    assert!(paths.iter().any(|path| path.contains("Program Files (x86)")));
}

#[test]
fn parses_appmanifest_fixture() {
    let game = parse_appmanifest(APPMANIFEST, "C:\\SteamLibrary").unwrap().unwrap();
    assert_eq!(game.external_id, "1091500");
    assert_eq!(game.title, "Cyberpunk 2077™");
    assert_eq!(game.size_bytes, Some(74239123456));
}

#[test]
fn filters_common_redistributables() {
    let content = r#""AppState"
{
    "appid" "228980"
    "name" "Steamworks Common Redistributables"
    "StateFlags" "4"
    "installdir" "Steamworks Shared"
}"#;
    assert!(parse_appmanifest(content, "C:\\SteamLibrary").unwrap().is_none());
}

#[test]
fn libraryfolders_paths_are_unescaped_and_legacy_keys_read() {
    let paths = parse_libraryfolders("\"LibraryFolders\"\n{\n\"1\" \"E:\\\\Games\\\\Steam\"\n\"2\" \"/mnt/steam\"\n\"3\" \"relative\"\n\"PATH\" \"x\"\n}");
    assert_eq!(paths, vec!["E:\\Games\\Steam", "/mnt/steam", "x"]);
}

#[test]
fn appmanifest_install_folder_and_flags() {
    let game = parse_appmanifest_with(APPMANIFEST, "C:\\SteamLibrary", true).unwrap().unwrap();
    assert_eq!(game.install_dir.as_deref(), Some("C:\\SteamLibrary\\steamapps\\common\\Cyberpunk 2077"));
    assert!(game.installed);
    assert_eq!(game.last_updated, Some(1726000000));
    assert_eq!(game.provider, "steam");
    assert_eq!(game.platform, "PC");
    let game = parse_appmanifest_with(APPMANIFEST, "C:\\SteamLibrary", false).unwrap().unwrap();
    assert!(!game.installed);
    let pending = APPMANIFEST.replace("\"StateFlags\"\t\t\"4\"", "\"StateFlags\"\t\t\"1026\"");
    assert!(!parse_appmanifest_with(&pending, "C:/Lib/", true).unwrap().unwrap().installed);
}

#[test]
fn appmanifest_missing_keys_are_errors() {
    assert_eq!(parse_appmanifest_with("\"name\" \"x\"", "C:", true).unwrap_err(), "appid ausente");
    assert_eq!(parse_appmanifest_with("\"appid\" \"1\"", "C:", true).unwrap_err(), "name ausente");
    assert_eq!(
        parse_appmanifest_with("\"appid\" \"1\"\n\"name\" \"x\"", "C:", true).unwrap_err(),
        "installdir ausente"
    );
}

#[test]
fn appmanifest_filters_tools_and_dlc_by_type() {
    let c = "\"appid\" \"1\"\n\"name\" \"Some Game\"\n\"installdir\" \"g\"\n\"AppType\" \"DLC\"";
    assert!(parse_appmanifest_with(c, "C:", true).unwrap().is_none());
    let c = "\"appid\" \"1\"\n\"name\" \"Proton 8.0\"\n\"installdir\" \"g\"";
    assert!(parse_appmanifest_with(c, "C:", true).unwrap().is_none());
}

#[test]
fn finds_most_recent_steam_id() {
    let vdf = r#"
        "users"
        {
          "76561198000000001" { "AccountName" "old" "MostRecent" "0" }
          "76561198000000002" { "AccountName" "current" "MostRecent" "1" }
        }
        "#;
    assert_eq!(parse_loginusers_most_recent(vdf).as_deref(), Some("76561198000000002"));
}

#[test]
fn falls_back_to_first_listed_account() {
    let vdf = r#""users" { "76561198000000007" { "MostRecent" "0" } "76561198000000008" { } }"#;
    assert_eq!(parse_loginusers_most_recent(vdf).as_deref(), Some("76561198000000007"));
    assert_eq!(parse_loginusers_most_recent("\"users\" { \"123\" { } }"), None);
}

#[test]
fn parses_playtime_minutes_from_steam_localconfig() {
    let vdf = r#"
        "UserLocalConfigStore"
        {
          "Software"
          {
            "Valve"
            {
              "Steam"
              {
                "apps"
                {
                  "1091500"
                  {
                    "LastPlayed" "1750000000"
                    "Playtime2wks" "120"
                    "Playtime" "4321"
                  }
                  "431960" { "Playtime" "987" }
                }
              }
            }
          }
        }
        "#;
    let p = parse_local_playtime(vdf);
    assert_eq!(p.get("1091500"), Some(&4321));
    assert_eq!(p.get("431960"), Some(&987));
}

#[test]
fn ignores_non_app_playtime_keys() {
    let vdf = r#""other" { "123" { "Playtime" "999" } }"#;
    assert!(parse_local_playtime(vdf).is_empty());
}

#[test]
fn playtime_keeps_the_largest_value_and_never_goes_negative() {
    let vdf = "// comment\n\"s\" { \"software\" { \"VALVE\" { \"steam\" { \"Apps\" { \"10\" { \"Playtime\" \"-5\" } \"10\" { \"playtime\" \"7\" } \"10\" { \"Playtime\" \"3\" } \"20\" { \"Playtime\" \"-1\" } \"abc\" { \"Playtime\" \"4\" } } } } } }";
    let p = parse_local_playtime(vdf);
    assert_eq!(p.get("10"), Some(&7));
    assert_eq!(p.get("20"), Some(&0));
    assert_eq!(p.get("abc"), None);
    assert_eq!(p.entries().len(), 2);
}

#[test]
fn owned_games_resolve_to_a_linked_or_single_match() {
    let one = vec!["g1".to_string()];
    let two = vec!["g1".to_string(), "g2".to_string()];
    assert_eq!(resolve_game(Some("g9".to_string()), &two).as_deref(), Some("g9"));
    assert_eq!(resolve_game(None, &one).as_deref(), Some("g1"));
    assert_eq!(resolve_game(None, &two), None);
    assert_eq!(resolve_game(None, &vec![]), None);
}

#[test]
fn owned_game_counts_follow_the_outcomes() {
    let r = owned_sync_result("765".to_string(), &vec![true, false, false], &vec![true, true, false]);
    assert_eq!(r.steam_id, "765");
    assert_eq!((r.games_found, r.games_created, r.games_updated, r.playtimes_updated), (3, 1, 2, 2));
}
