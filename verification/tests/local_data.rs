use ludex::metadata::SteamLocalMetadataProvider;
use ludex::secrets::{protect, protected_text, setting_key, unprotect, value_to_store};
use ludex::steam_data::{
    active_localconfig, artwork_data_uri, artwork_mime, cdn_artwork, imported_seconds,
    localconfig_path, LocalConfigCandidate,
};

#[test]
fn finds_only_matching_local_artwork() {
    let root = "C:\\Steam\\appcache\\librarycache";
    let inside = format!("{root}\\1091500\\library_600x900.jpg");
    let other = format!("{root}\\other.jpg");
    assert!(SteamLocalMetadataProvider::is_candidate(&inside, "1091500"));
    assert!(!SteamLocalMetadataProvider::is_candidate(&other, "1091500"));
    assert!(SteamLocalMetadataProvider::is_candidate(&format!("{root}\\1091500_Hero.PNG"), "1091500"));
    assert!(!SteamLocalMetadataProvider::is_candidate(&format!("{root}\\1091500\\notes.txt"), "1091500"));
    assert!(SteamLocalMetadataProvider::enters_folder(Some("1091500"), "1091500", 1));
    assert!(SteamLocalMetadataProvider::enters_folder(Some("42"), "1091500", 2));
    assert!(!SteamLocalMetadataProvider::enters_folder(Some("42"), "1091500", 1));
    assert!(!SteamLocalMetadataProvider::enters_folder(None, "1091500", 3));
    assert_eq!(SteamLocalMetadataProvider::cache_dir("C:\\Steam"), root);
    assert_eq!(SteamLocalMetadataProvider.id(), "steam-local-cache");
}

#[test]
fn artwork_prefers_the_first_cover_and_hero() {
    let files = vec![
        "x\\1_logo.png".to_string(),
        "x\\1_library_600x900.jpg".to_string(),
        "x\\1_portrait.jpg".to_string(),
        "x\\1_header.jpg".to_string(),
        "x\\1_library_hero.jpg".to_string(),
    ];
    let a = SteamLocalMetadataProvider::artwork_for(&files);
    assert_eq!(a.cover.as_deref(), Some("x\\1_library_600x900.jpg"));
    assert_eq!(a.hero.as_deref(), Some("x\\1_header.jpg"));
    let modern = vec!["x\\1\\library_capsule.jpg".to_string(), "x\\1\\page_bg_background.jpg".to_string()];
    let a = SteamLocalMetadataProvider::artwork_for(&modern);
    assert_eq!(a.cover.as_deref(), Some("x\\1\\library_capsule.jpg"));
    assert_eq!(a.hero.as_deref(), Some("x\\1\\page_bg_background.jpg"));
    let none = SteamLocalMetadataProvider::artwork_for(&vec!["x\\1_logo.png".to_string()]);
    assert!(none.cover.is_none() && none.hero.is_none());
}

#[test]
fn secrets_are_keyed_and_trimmed() {
    assert_eq!(setting_key("itad.api_key"), "secret.itad.api_key");
    assert_eq!(value_to_store("  abc  ").as_deref(), Some("abc"));
    assert_eq!(value_to_store("   "), None);
    assert_eq!(protected_text(None), None);
    assert_eq!(protected_text(Some("windows-credential-manager-v1")), None);
    assert_eq!(protected_text(Some("AQAAAN==")), Some("AQAAAN=="));
    let msg = "O armazenamento protegido de credenciais está disponível no Desktop Windows";
    assert_eq!(protect("k").unwrap_err(), msg);
    assert_eq!(unprotect("k").unwrap_err(), msg);
}

#[test]
fn steam_cdn_artwork_needs_a_numeric_id() {
    let (c, h) = cdn_artwork("1091500").unwrap();
    assert_eq!(c, "https://shared.steamstatic.com/store_item_assets/steam/apps/1091500/library_600x900.jpg");
    assert_eq!(h, "https://shared.steamstatic.com/store_item_assets/steam/apps/1091500/library_hero.jpg");
    assert!(cdn_artwork("abc").is_none());
}

#[test]
fn imported_playtime_is_in_seconds() {
    assert_eq!(imported_seconds(4321), 259260);
    assert_eq!(imported_seconds(i64::MAX / 2), i64::MAX);
    assert_eq!(imported_seconds(0), 0);
}

fn candidate(account: &str, is_file: bool, modified: i128) -> LocalConfigCandidate {
    LocalConfigCandidate {
        account: account.to_string(),
        path: localconfig_path(&format!("C:\\Steam\\userdata\\{account}")),
        is_file,
        modified,
    }
}

#[test]
fn the_newest_account_configuration_is_used() {
    let cs = vec![
        candidate("111", true, 50),
        candidate("222", true, 90),
        candidate("ac", true, 500),
        candidate("333", false, 900),
        candidate("444", true, 90),
    ];
    assert_eq!(active_localconfig(&cs).as_deref(), Some("C:\\Steam\\userdata\\444\\config\\localconfig.vdf"));
    assert_eq!(active_localconfig(&vec![candidate("x", true, 1)]), None);
}

#[test]
fn local_artwork_is_checked_and_encoded() {
    assert_eq!(artwork_mime("C:\\a\\cover.JPG", true, 10).unwrap(), "image/jpeg");
    assert_eq!(artwork_mime("C:\\a\\cover.webp", true, 10).unwrap(), "image/webp");
    assert_eq!(artwork_mime("C:\\a\\cover.png", false, 10).unwrap_err(), "Imagem local não encontrada");
    assert_eq!(artwork_mime("C:\\a\\cover.png", true, 20 * 1024 * 1024 + 1).unwrap_err(), "Imagem local excede 20 MB");
    assert_eq!(artwork_mime("C:\\a\\cover.bmp", true, 10).unwrap_err(), "Formato de imagem local não suportado");
    assert_eq!(artwork_mime("C:\\a\\cover", true, 10).unwrap_err(), "Formato de imagem local não suportado");
    assert_eq!(artwork_data_uri("image/png", b"Man"), "data:image/png;base64,TWFu");
    assert_eq!(artwork_data_uri("image/gif", b"Ma"), "data:image/gif;base64,TWE=");
}

#[test]
fn protected_bytes_are_stored_as_base64() {
    assert_eq!(ludex::secrets::protected_bytes_text(b"abc"), "YWJj");
    assert_eq!(ludex::secrets::protected_bytes_text(&[0xff, 0x00]), "/wA=");
    assert_eq!(ludex::secrets::protected_bytes_text(b""), "");
}
