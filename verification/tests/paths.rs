use ludex::paths::{component_name_of, join, parent_of};

fn chars(s: &str) -> Vec<char> {
    s.chars().collect()
}

fn text(v: Vec<char>) -> String {
    v.into_iter().collect()
}

#[test]
fn parent_keeps_the_root() {
    assert_eq!(parent_of(&chars("C:\\game.exe")).map(text), Some("C:\\".to_string()));
    assert_eq!(parent_of(&chars("C:\\Games\\Hades\\Hades.exe")).map(text), Some("C:\\Games\\Hades".to_string()));
    assert_eq!(parent_of(&chars("\\tools\\x.exe")).map(text), Some("\\tools".to_string()));
    assert_eq!(parent_of(&chars("\\x.exe")).map(text), Some("\\".to_string()));
    assert_eq!(parent_of(&chars("game.exe")).map(text), Some(String::new()));
    assert_eq!(parent_of(&chars("C:\\")).map(text), None);
    assert_eq!(parent_of(&chars("C:")).map(text), None);
    assert_eq!(parent_of(&chars("")).map(text), None);
}

#[test]
fn join_follows_windows_push() {
    assert_eq!(text(join(&chars("C:\\Games"), &chars("bin\\x.exe"))), "C:\\Games\\bin\\x.exe");
    assert_eq!(text(join(&chars("C:\\Games\\"), &chars("x.exe"))), "C:\\Games\\x.exe");
    assert_eq!(text(join(&chars("C:\\Games"), &chars("D:\\x.exe"))), "D:\\x.exe");
    assert_eq!(text(join(&chars("C:\\Games"), &chars("\\x.exe"))), "C:\\x.exe");
    assert_eq!(text(join(&chars("C:"), &chars("x.exe"))), "C:x.exe");
    assert_eq!(text(join(&chars(""), &chars("x.exe"))), "x.exe");
}

#[test]
fn file_names_skip_a_drive() {
    assert_eq!(component_name_of(&chars("C:game.exe")).map(text), Some("game.exe".to_string()));
    assert_eq!(component_name_of(&chars("C:")).map(text), None);
    assert_eq!(component_name_of(&chars("C:\\Games\\..")).map(text), None);
    assert_eq!(component_name_of(&chars("D:\\Games\\Hades\\")).map(text), Some("Hades".to_string()));
}
