use ludex::updater::{
    clean_version, download_plan, installer_digest_ok, launch_installer, update_info, windows_asset,
    Release, ReleaseAsset,
};

fn asset(name: &str) -> ReleaseAsset {
    ReleaseAsset {
        name: name.to_string(),
        browser_download_url: format!("https://example.invalid/{name}"),
        digest: None,
    }
}

fn release(tag: &str, assets: Vec<ReleaseAsset>) -> Release {
    Release {
        tag_name: tag.to_string(),
        body: Some("notas".to_string()),
        published_at: Some("2025-01-01T00:00:00Z".to_string()),
        assets,
    }
}

#[test]
fn accepts_v_prefixed_release_versions() {
    assert_eq!(clean_version("v0.9.1"), "0.9.1");
    assert_eq!(clean_version("1.0.0"), "1.0.0");
}

#[test]
fn only_one_leading_v_is_removed() {
    assert_eq!(clean_version("vv1.0.0"), "v1.0.0");
    assert_eq!(clean_version("V1.0.0"), "V1.0.0");
    assert_eq!(clean_version(""), "");
}

#[test]
fn the_windows_installer_is_recognised_in_any_case() {
    let r = release(
        "v1.0.0",
        vec![asset("Ludex_1.0.0_x64.msi"), asset("LUDEX_1.0.0_X64-SETUP.EXE"), asset("Ludex_1.0.0_x64-setup.exe")],
    );
    assert_eq!(windows_asset(&r).unwrap().name, "LUDEX_1.0.0_X64-SETUP.EXE");
    let r = release("v1.0.0", vec![asset("Ludex_1.0.0_x86-setup.exe")]);
    assert!(windows_asset(&r).is_none());
}

#[test]
fn an_update_is_available_for_a_newer_release_with_an_installer() {
    let r = release("v0.9.6", vec![asset("Ludex_0.9.6_x64-setup.exe")]);
    let info = update_info("0.9.5", Some(&r)).unwrap();
    assert!(info.available);
    assert_eq!(info.current_version, "0.9.5");
    assert_eq!(info.latest_version.as_deref(), Some("0.9.6"));
    assert_eq!(info.notes.as_deref(), Some("notas"));

    let older = release("v0.9.4", vec![asset("Ludex_0.9.4_x64-setup.exe")]);
    assert!(!update_info("0.9.5", Some(&older)).unwrap().available);
    let no_installer = release("v1.0.0", vec![asset("notes.txt")]);
    assert!(!update_info("0.9.5", Some(&no_installer)).unwrap().available);

    let none = update_info("0.9.5", None).unwrap();
    assert!(!none.available);
    assert_eq!(none.latest_version, None);
}

#[test]
fn malformed_versions_are_errors() {
    let r = release("nightly", vec![asset("Ludex_x64-setup.exe")]);
    assert!(update_info("0.9.5", Some(&r)).unwrap_err().starts_with("Release inválida: "));
    assert!(update_info("not-a-version", None).is_err());
}

#[test]
fn the_download_plan_names_the_installer_file() {
    let r = release("v0.9.6", vec![asset("notes.txt"), asset("Ludex_0.9.6_x64-setup.exe")]);
    let (a, file) = download_plan("0.9.5", &r).unwrap();
    assert_eq!(a.name, "Ludex_0.9.6_x64-setup.exe");
    assert_eq!(file, "Ludex_0.9.6_x64-setup.exe");
    let same = release("v0.9.5", vec![asset("Ludex_0.9.5_x64-setup.exe")]);
    assert_eq!(download_plan("0.9.5", &same).unwrap_err(), "O Ludex já está atualizado");
    let bare = release("v1.0.0", vec![asset("notes.txt")]);
    assert_eq!(
        download_plan("0.9.5", &bare).unwrap_err(),
        "A release mais recente não contém instalador Windows x64"
    );
}

#[test]
fn installer_digests_are_checked() {
    let bytes = b"abc";
    let hex = "ba7816bf8f01cfea414140de5dae2223b00361a396177a9cb410ff61f20015ad";
    assert!(installer_digest_ok(None, bytes));
    assert!(installer_digest_ok(Some(&format!("sha256:{hex}")), bytes));
    assert!(installer_digest_ok(Some(&format!("sha256:{}", hex.to_uppercase())), bytes));
    assert!(!installer_digest_ok(Some(&format!("sha256:{}", &hex[1..])), bytes));
    assert!(!installer_digest_ok(Some("sha256:abc"), bytes));
    assert!(installer_digest_ok(Some("md5:0000"), bytes));
}

#[test]
fn installers_are_not_launched_outside_windows() {
    assert_eq!(
        launch_installer("Ludex_0.9.6_x64-setup.exe").unwrap_err(),
        "Atualização automática está habilitada somente no Desktop Windows nesta versão"
    );
}
