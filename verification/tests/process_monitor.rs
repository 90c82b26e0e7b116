use ludex::process_monitor::{is_ignored_executable, path_eq, path_is_inside, ProcessMonitor};

#[test]
fn windows_paths_are_compared_case_insensitively() {
    assert!(path_eq("C:/Games/Test/game.exe", "c:\\games\\test\\GAME.exe"));
}

#[test]
fn process_must_be_inside_install_directory() {
    assert!(path_is_inside("D:/Steam/common/Game/bin/game.exe", "D:/Steam/common/Game"));
    assert!(!path_is_inside("D:/Steam/common/Game2/game.exe", "D:/Steam/common/Game"));
}

#[test]
fn trailing_separators_do_not_matter() {
    assert!(path_eq("C:/Games/Test/", "c:\\games\\test"));
    assert!(path_is_inside("C:/Games/Test", "C:/Games/Test\\"));
}

#[test]
fn steam_helpers_are_ignored() {
    assert!(is_ignored_executable("C:\\Program Files\\Steam\\steamwebhelper.exe"));
    assert!(is_ignored_executable("D:/x/VCREDIST_X64.EXE"));
    assert!(!is_ignored_executable("D:/x/game.exe"));
}

#[test]
fn selects_the_first_new_process_inside_the_folder() {
    let procs = vec![
        (1u32, Some("D:/Games/G/game.exe".to_string())),
        (2u32, None),
        (3u32, Some("D:/Games/G/crashhandler.exe".to_string())),
        (4u32, Some("D:/Other/game.exe".to_string())),
        (5u32, Some("D:/Games/G/bin/game.exe".to_string())),
        (6u32, Some("D:/Games/G/bin/other.exe".to_string())),
    ];
    let found = ProcessMonitor::select_new_process(&procs, "D:\\Games\\G", &[1]).unwrap();
    assert_eq!(found.pid, 5);
    assert_eq!(found.executable, "D:/Games/G/bin/game.exe");
    assert!(ProcessMonitor::select_new_process(&procs, "D:\\Games\\G", &[1, 5, 6]).is_none());
}

#[test]
fn expected_executable_matches() {
    assert!(ProcessMonitor::exe_matches(Some("C:/A/b.EXE"), "c:\\a\\B.exe"));
    assert!(!ProcessMonitor::exe_matches(None, "c:\\a\\B.exe"));
}
