use ludex::product::{
    rom_scan_result, RomOutcome,
    allowed_extension, check_status, sync_summary, diagnostics_items, game_row, installation_row, session_row, metadata_row, SyncGame, SyncInstallation, SyncSession, game_sync_action,
    metadata_import_allowed, record_time, remote_is_newer, restore_check, rom_extension_accepted,
    rom_title, save_backup_path, sync_envelope, SyncAction,
};
use ludex::product_models::SyncSummary;

#[test]
fn statuses_are_a_closed_list() {
    assert!(check_status("Jogando").is_ok());
    assert!(check_status("100%").is_ok());
    assert_eq!(check_status("jogando").unwrap_err(), "Status inválido");
}

#[test]
fn rom_extensions() {
    assert!(allowed_extension("iso"));
    assert!(!allowed_extension("ISO"));
    assert!(rom_extension_accepted(Some("ISO")));
    assert!(rom_extension_accepted(Some("BIN")));
    assert!(!rom_extension_accepted(Some("exe")));
    assert!(!rom_extension_accepted(None));
    assert_eq!(rom_title(Some("Super_Mario.World")), "Super Mario World");
    assert_eq!(rom_title(None), "ROM");
}

#[test]
fn sync_records_follow_timestamps() {
    assert!(remote_is_newer(None, None));
    assert!(!remote_is_newer(Some("2024-01-01".to_string()), None));
    assert!(remote_is_newer(Some("2024-01-01".to_string()), Some("2024-02-01")));
    assert!(!remote_is_newer(Some("2024-02-01".to_string()), Some("2024-01-01")));
    assert_eq!(game_sync_action("", "T", None, None), SyncAction::Skip);
    assert_eq!(game_sync_action("g", "T", None, None), SyncAction::Insert);
    assert_eq!(game_sync_action("g", "T", Some("a".to_string()), Some("b")), SyncAction::Update);
    assert_eq!(game_sync_action("g", "T", Some("b".to_string()), Some("b")), SyncAction::Skip);
    let s = sync_summary(&vec![SyncAction::Insert, SyncAction::Skip, SyncAction::Skip, SyncAction::Update]);
    assert_eq!(s, SyncSummary { inserted: 1, updated: 1, skipped: 2 });
}

#[test]
fn sync_files_need_a_known_envelope() {
    assert_eq!(sync_envelope("ludex-backup", 1), Ok(true));
    assert_eq!(sync_envelope("ludex-mobile-sync", 1), Ok(false));
    assert_eq!(sync_envelope("ludex-backup", 2).unwrap_err(), "Formato/versão de sync não suportado");
    assert!(sync_envelope("other", 1).is_err());
    assert!(metadata_import_allowed(0, 0));
    assert!(!metadata_import_allowed(1, 0));
    assert!(metadata_import_allowed(1, 1));
}

#[test]
fn record_times_fall_back_to_milliseconds() {
    assert_eq!(record_time(Some("x"), Some(0)).as_deref(), Some("x"));
    assert_eq!(record_time(None, Some(0)).as_deref(), Some("1970-01-01T00:00:00+00:00"));
    assert_eq!(record_time(None, None), None);
}

#[test]
fn diagnostics_report_open_sessions() {
    let d = diagnostics_items(7, 2);
    assert_eq!(d[0].message, "Schema version 7; foreign_keys e WAL ativos por conexão.");
    assert_eq!(d[1].level, "info");
    assert_eq!(d[1].message, "2 sessão(ões) ativa(s).");
    assert_eq!(diagnostics_items(7, 0)[1].level, "ok");
}

#[test]
fn save_backups_are_named_and_never_overwrite() {
    assert_eq!(
        save_backup_path("C:\\Backups", "20250101-120000", "C:\\Saves\\Zelda\\"),
        "C:\\Backups\\20250101-120000-Zelda"
    );
    assert_eq!(save_backup_path("C:\\Backups\\", "s", "C:\\"), "C:\\Backups\\s-save");
    assert_eq!(restore_check(false, false).unwrap_err(), "Backup não existe mais");
    assert!(restore_check(true, true).unwrap_err().starts_with("Restauração recusada"));
    assert!(restore_check(true, false).is_ok());
}

#[test]
fn sync_records_get_their_defaults() {
    let g = game_row(&SyncGame {
        id: Some("g".to_string()),
        title: Some("Hades".to_string()),
        platform: None,
        source: None,
        favorite: None,
        status: None,
        updated_at: None,
        updated_at_ms: Some(0),
    });
    assert_eq!((g.platform.as_str(), g.source.as_str(), g.favorite, g.status.as_str()), ("PC", "sync", 0, "Quero jogar"));
    assert_eq!(g.updated_at.as_deref(), Some("1970-01-01T00:00:00+00:00"));
    let i = SyncInstallation { id: Some("i".to_string()), game_id: Some("g".to_string()), source: None, provider: None, installed: None };
    let row = installation_row(&i).unwrap();
    assert_eq!((row.source.as_str(), row.provider.as_str(), row.installed), ("sync", "sync", 0));
    assert!(installation_row(&SyncInstallation { game_id: Some(String::new()), ..i }).is_none());
    let s = SyncSession {
        id: Some("s".to_string()),
        game_id: Some("g".to_string()),
        started_at: Some("2026-01-01T00:00:00Z".to_string()),
        started_at_ms: None,
        ended_at: None,
        ended_at_ms: Some(0),
        duration_seconds: None,
        device: None,
        provider: None,
        recovered: None,
    };
    let row = session_row(&s).unwrap();
    assert_eq!(row.ended_at, "1970-01-01T00:00:00+00:00");
    assert_eq!((row.device.as_str(), row.duration_seconds, row.recovered), ("sync", 0, 0));
    assert!(session_row(&SyncSession { ended_at_ms: None, ..s }).is_none());
    assert_eq!(metadata_row(Some("g"), None, None, 0), Some(("sync".to_string(), 0)));
    assert_eq!(metadata_row(Some("g"), Some("x"), None, 1), None);
    assert_eq!(metadata_row(Some(""), None, Some(1), 0), None);
}

#[test]
fn rom_scans_count_every_file_once() {
    let r = rom_scan_result(&vec![RomOutcome::Imported, RomOutcome::Ignored, RomOutcome::Duplicate, RomOutcome::Imported]);
    assert_eq!((r.scanned_files, r.imported, r.duplicates, r.ignored), (4, 2, 1, 1));
}

#[test]
fn rom_hashes_are_sha256_hex() {
    assert_eq!(ludex::product::rom_hash(b"abc"), "ba7816bf8f01cfea414140de5dae2223b00361a396177a9cb410ff61f20015ad");
    assert_eq!(ludex::product::rom_hash(b""), "e3b0c44298fc1c149afbf4c8996fb92427ae41e4649b934ca495991b7852b855");
}

fn rom(path: &str, ext: Option<&str>, hash: Option<&str>) -> ludex::product::RomFile {
    ludex::product::RomFile {
        path: path.to_string(),
        extension: ext.map(|e| e.to_string()),
        hash: hash.map(|h| h.to_string()),
    }
}

#[test]
fn rom_plan_sees_earlier_imports_of_the_same_scan() {
    let files = vec![
        rom("C:\\roms\\a.snes", Some("snes"), Some("h1")),
        rom("C:\\roms\\copy.SNES", Some("SNES"), Some("h1")),
        rom("C:\\roms\\notes.txt", Some("txt"), None),
        rom("C:\\roms\\b.gba", Some("gba"), Some("h2")),
        rom("C:\\roms\\c.nes", Some("nes"), Some("h3")),
    ];
    let known_hashes = vec!["h2".to_string()];
    let known_paths = vec!["C:\\roms\\c.nes".to_string()];
    let plan = ludex::product::rom_scan_plan(&files, &known_hashes, &known_paths);
    assert_eq!(
        plan,
        vec![RomOutcome::Imported, RomOutcome::Duplicate, RomOutcome::Ignored, RomOutcome::Duplicate, RomOutcome::Duplicate]
    );
    let r = rom_scan_result(&plan);
    assert_eq!((r.scanned_files, r.imported, r.duplicates, r.ignored), (5, 1, 3, 1));
}

#[test]
fn rom_rescan_imports_nothing() {
    let files = vec![
        rom("/roms/a.snes", Some("snes"), Some("h1")),
        rom("/roms/b.gba", Some("gba"), Some("h2")),
        rom("/roms/readme", None, None),
    ];
    let first = ludex::product::rom_scan_plan(&files, &vec![], &vec![]);
    assert_eq!(first, vec![RomOutcome::Imported, RomOutcome::Imported, RomOutcome::Ignored]);
    let hashes = vec!["h1".to_string(), "h2".to_string()];
    let paths = vec!["/roms/a.snes".to_string(), "/roms/b.gba".to_string()];
    let second = ludex::product::rom_scan_plan(&files, &hashes, &paths);
    assert_eq!(second, vec![RomOutcome::Duplicate, RomOutcome::Duplicate, RomOutcome::Ignored]);
    assert_eq!(rom_scan_result(&second).imported, 0);
}

#[test]
fn importing_a_sync_file_twice_changes_no_game() {
    let recs = [
        ("g1", "Hades", Some("2024-05-01T10:00:00Z")),
        ("g1", "Hades (old)", Some("2024-01-01T10:00:00Z")),
        ("g2", "Celeste", None),
        ("g1", "Hades II", Some("2024-06-01T10:00:00Z")),
        ("", "No id", Some("2024-01-01T10:00:00Z")),
    ];
    let mut store: std::collections::HashMap<String, String> = std::collections::HashMap::new();
    let run = |store: &mut std::collections::HashMap<String, String>, now: &str| {
        let mut actions = Vec::new();
        for (id, title, remote) in recs.iter() {
            let a = game_sync_action(id, title, store.get(*id).cloned(), *remote);
            match a {
                SyncAction::Insert => {
                    store.insert(id.to_string(), remote.unwrap_or(now).to_string());
                }
                SyncAction::Update => {
                    let v = remote.map(|r| r.to_string()).unwrap_or_else(|| store[*id].clone());
                    store.insert(id.to_string(), v);
                }
                SyncAction::Skip => {}
            }
            actions.push(a);
        }
        sync_summary(&actions)
    };
    let first = run(&mut store, "2025-01-01T00:00:00Z");
    assert_eq!((first.inserted, first.updated, first.skipped), (2, 1, 2));
    let after_first = store.clone();
    let second = run(&mut store, "2026-01-01T00:00:00Z");
    assert_eq!((second.inserted, second.updated, second.skipped), (0, 0, 5));
    assert_eq!(store, after_first);
}
