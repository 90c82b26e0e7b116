use ludex::emulation::{preset, render_arguments, render_words};

#[test]
fn preserves_rom_paths_with_spaces() {
    let a = render_arguments("-b -e \"{rom}\"", "C:/ROMs/My Game.iso", None).unwrap();
    assert_eq!(a[2], "C:/ROMs/My Game.iso");
}

#[test]
fn core_is_filled_and_empty_arguments_dropped() {
    let a = render_arguments("-L {core} {rom}", "x.nes", None).unwrap();
    assert_eq!(a, vec!["-L", "x.nes"]);
    let a = render_arguments("-L {core} {rom}", "x.nes", Some("cores/nes.dll")).unwrap();
    assert_eq!(a, vec!["-L", "cores/nes.dll", "x.nes"]);
    assert_eq!(render_arguments("\"unbalanced", "x", None).unwrap_err(), "Template de argumentos inválido");
}

#[test]
fn render_words_fills_each_word() {
    let words = vec!["{rom}{rom}".to_string(), "{core}".to_string(), "-x".to_string()];
    assert_eq!(render_words(&words, "r", None), vec!["rr", "-x"]);
}

#[test]
fn presets_are_found_in_any_case() {
    assert_eq!(preset("RetroArch"), Some(("Multi", "-L {core} {rom}", "nes,snes,n64,z64,v64,gba,gbc,nds")));
    assert_eq!(preset("dolphin"), Some(("GameCube/Wii", "-b -e {rom}", "iso,rvz,wbfs")));
    assert_eq!(preset("RPCS3"), Some(("PlayStation 3", "{rom}", "")));
    assert_eq!(preset("unknown"), None);
}
