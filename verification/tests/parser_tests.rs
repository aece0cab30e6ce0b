use rext_tui::keys::{parse_key_string, parse_modified_key, KeyCode, KeyModifiers};

fn none_mods() -> KeyModifiers {
    KeyModifiers { control: false, shift: false, alt: false }
}

fn control() -> KeyModifiers {
    KeyModifiers { control: true, shift: false, alt: false }
}

fn shift() -> KeyModifiers {
    KeyModifiers { control: false, shift: true, alt: false }
}

fn alt() -> KeyModifiers {
    KeyModifiers { control: false, shift: false, alt: true }
}

#[test]
fn single_characters_parse_case_preserved() {
    assert_eq!(parse_key_string("a"), Some((none_mods(), KeyCode::Char('a'))));
    assert_eq!(parse_key_string("A"), Some((none_mods(), KeyCode::Char('A'))));
    assert_eq!(parse_key_string("q"), Some((none_mods(), KeyCode::Char('q'))));
    assert_eq!(parse_key_string("1"), Some((none_mods(), KeyCode::Char('1'))));
    assert_eq!(parse_key_string("2"), Some((none_mods(), KeyCode::Char('2'))));
}

#[test]
fn whitespace_is_trimmed() {
    assert_eq!(parse_key_string("  q  "), Some((none_mods(), KeyCode::Char('q'))));
    assert_eq!(parse_key_string("\tEsc\n"), Some((none_mods(), KeyCode::Esc)));
}

#[test]
fn symbolic_names_are_case_insensitive() {
    assert_eq!(parse_key_string("ESC"), Some((none_mods(), KeyCode::Esc)));
    assert_eq!(parse_key_string("esc"), Some((none_mods(), KeyCode::Esc)));
    assert_eq!(parse_key_string("Esc"), Some((none_mods(), KeyCode::Esc)));
    assert_eq!(parse_key_string("Escape"), Some((none_mods(), KeyCode::Esc)));
    assert_eq!(parse_key_string("ENTER"), Some((none_mods(), KeyCode::Enter)));
    assert_eq!(parse_key_string("Return"), Some((none_mods(), KeyCode::Enter)));
    assert_eq!(parse_key_string("backspace"), Some((none_mods(), KeyCode::Backspace)));
    assert_eq!(parse_key_string("Back"), Some((none_mods(), KeyCode::Backspace)));
    assert_eq!(parse_key_string("TAB"), Some((none_mods(), KeyCode::Tab)));
    assert_eq!(parse_key_string("Del"), Some((none_mods(), KeyCode::Delete)));
    assert_eq!(parse_key_string("ins"), Some((none_mods(), KeyCode::Insert)));
    assert_eq!(parse_key_string("UpArrow"), Some((none_mods(), KeyCode::Up)));
    assert_eq!(parse_key_string("downarrow"), Some((none_mods(), KeyCode::Down)));
    assert_eq!(parse_key_string("LEFT"), Some((none_mods(), KeyCode::Left)));
    assert_eq!(parse_key_string("RightArrow"), Some((none_mods(), KeyCode::Right)));
    assert_eq!(parse_key_string("home"), Some((none_mods(), KeyCode::Home)));
    assert_eq!(parse_key_string("End"), Some((none_mods(), KeyCode::End)));
    assert_eq!(parse_key_string("PgUp"), Some((none_mods(), KeyCode::PageUp)));
    assert_eq!(parse_key_string("pagedown"), Some((none_mods(), KeyCode::PageDown)));
}

#[test]
fn function_keys_need_the_f_prefix() {
    assert_eq!(parse_key_string("F1"), Some((none_mods(), KeyCode::F(1))));
    assert_eq!(parse_key_string("f7"), Some((none_mods(), KeyCode::F(7))));
    assert_eq!(parse_key_string("F12"), Some((none_mods(), KeyCode::F(12))));
    assert_eq!(parse_key_string("F13"), None);
    // a standalone digit is a character, not a function key
    assert_eq!(parse_key_string("7"), Some((none_mods(), KeyCode::Char('7'))));
}

#[test]
fn modifier_combinations_parse() {
    assert_eq!(parse_key_string("Ctrl+C"), Some((control(), KeyCode::Char('C'))));
    assert_eq!(parse_key_string("Control+A"), Some((control(), KeyCode::Char('A'))));
    assert_eq!(parse_key_string("Shift+Tab"), Some((shift(), KeyCode::Tab)));
    assert_eq!(parse_key_string("Alt+Enter"), Some((alt(), KeyCode::Enter)));
    assert_eq!(parse_key_string("Shift+F1"), Some((shift(), KeyCode::F(1))));
    assert_eq!(parse_key_string("ctrl + c"), Some((control(), KeyCode::Char('c'))));
}

#[test]
fn malformed_specifications_parse_to_none() {
    assert_eq!(parse_key_string("Ctrl+"), None);
    assert_eq!(parse_key_string(""), None);
    assert_eq!(parse_key_string("Meta+A"), None);
    assert_eq!(parse_key_string("Ctrl+Shift+A"), None);
    assert_eq!(parse_key_string("   "), None);
    assert_eq!(parse_key_string("qq"), None);
    assert_eq!(parse_key_string("+"), None);
    assert_eq!(parse_key_string("Shift+qq"), None);
}

#[test]
fn parse_modified_key_wants_exactly_one_pair() {
    assert_eq!(parse_modified_key("Ctrl+C"), Some((control(), KeyCode::Char('C'))));
    assert_eq!(parse_modified_key("Esc"), None);
    assert_eq!(parse_modified_key("Ctrl+Shift+A"), None);
}
