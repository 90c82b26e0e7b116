use ludex::launch::{launch_plan, launch_result, manual_game, LaunchPlan};
use ludex::models::Installation;

fn installation(provider: &str) -> Installation {
    Installation {
        id: "i".to_string(),
        game_id: "g".to_string(),
        provider: provider.to_string(),
        external_id: Some("1091500".to_string()),
        executable: Some("C:\\Games\\game.exe".to_string()),
        install_dir: None,
        working_dir: Some("C:\\Games".to_string()),
        launch_args: Some("-windowed \"--profile=My Name\"".to_string()),
    }
}

#[test]
fn steam_games_open_through_steam() {
    match launch_plan(&installation("steam")).unwrap() {
        LaunchPlan::Steam { uri } => assert_eq!(uri, "steam://rungameid/1091500"),
        other => panic!("unexpected plan {other:?}"),
    }
    let mut i = installation("steam");
    i.external_id = None;
    assert_eq!(launch_plan(&i).unwrap_err(), "Steam AppID ausente");
}

#[test]
fn manual_games_run_their_executable() {
    match launch_plan(&installation("manual")).unwrap() {
        LaunchPlan::Program { executable, working_dir, args } => {
            assert_eq!(executable, "C:\\Games\\game.exe");
            assert_eq!(working_dir.as_deref(), Some("C:\\Games"));
            assert_eq!(args, vec!["-windowed", "--profile=My Name"]);
        }
        other => panic!("unexpected plan {other:?}"),
    }
    let mut i = installation("manual");
    i.launch_args = Some("\"open".to_string());
    assert_eq!(launch_plan(&i).unwrap_err(), "Argumentos de inicialização inválidos");
    i.executable = None;
    assert_eq!(launch_plan(&i).unwrap_err(), "Executável não configurado");
    assert_eq!(
        launch_plan(&installation("epic")).unwrap_err(),
        "O provider 'epic' ainda não possui launcher implementado"
    );
}

#[test]
fn a_tracked_game_is_not_started_twice() {
    let r = launch_result(true);
    assert!(!r.launched && r.already_running);
    let r = launch_result(false);
    assert!(r.launched && !r.already_running);
}

#[test]
fn manual_entries_need_a_title() {
    assert_eq!(manual_game("  ", "PC", None, None, None).unwrap_err(), "O título não pode ser vazio");
    let g = manual_game(" Doom ", " PC ", Some(" "), Some("C:\\Doom"), Some("")).unwrap();
    assert_eq!(g.title, "Doom");
    assert_eq!(g.platform, "PC");
    assert_eq!(g.executable, None);
    assert_eq!(g.working_dir.as_deref(), Some("C:\\Doom"));
    assert_eq!(g.launch_args, None);
}
