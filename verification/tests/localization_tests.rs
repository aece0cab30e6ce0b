use rext_tui::error::RextTuiError;
use rext_tui::keys::{KeyCode, KeyModifiers};
use rext_tui::localization::{Localization, LocalizedTexts};

fn pairs(entries: &[(&str, &str)]) -> Vec<(String, String)> {
    entries.iter().map(|(k, v)| (k.to_string(), v.to_string())).collect()
}

fn english() -> LocalizedTexts {
    LocalizedTexts {
        ui: pairs(&[("add_api_endpoint", "Add API endpoint"), ("input_cursor", "_")]),
        messages: pairs(&[("quit", "Press q to quit"), ("greeting", "Hello")]),
        keys: pairs(&[
            ("quit", "q"),
            ("quit_combo", "Ctrl+C"),
            ("escape", "Esc"),
            ("enter", "Enter"),
            ("copy", "Ctrl+C"),
            ("edit", "e"),
        ]),
    }
}

fn french() -> LocalizedTexts {
    LocalizedTexts {
        ui: pairs(&[("add_api_endpoint", "Ajouter un point d'API"), ("input_cursor", "_")]),
        messages: pairs(&[("greeting", "Bonjour")]),
        keys: pairs(&[("quit", "q")]),
    }
}

fn none_mods() -> KeyModifiers {
    KeyModifiers { control: false, shift: false, alt: false }
}

fn control() -> KeyModifiers {
    KeyModifiers { control: true, shift: false, alt: false }
}

#[test]
fn missing_fallback_is_the_only_error() {
    let err = Localization::new("en", None, None).err().unwrap();
    assert_eq!(err, RextTuiError::FallbackUnavailable);
    assert!(Localization::new("en", Some(english()), None).is_ok());
}

#[test]
fn get_reads_the_active_bundle() {
    let loc = Localization::new("en", Some(english()), None).unwrap();
    assert_eq!(loc.get("ui", "add_api_endpoint"), "Add API endpoint");
    assert_eq!(loc.ui("input_cursor"), "_");
    assert_eq!(loc.msg("greeting"), "Hello");
    assert_eq!(loc.key("quit"), "q");
}

#[test]
fn missing_keys_fall_back_to_english_then_to_the_sentinel() {
    let loc = Localization::new("fr", Some(english()), Some(french())).unwrap();
    // present in the active bundle
    assert_eq!(loc.msg("greeting"), "Bonjour");
    // missing in french, present in english
    assert_eq!(loc.get("messages", "quit"), "Press q to quit");
    // missing everywhere
    assert_eq!(loc.get("messages", "nowhere"), "Missing text");
    // unknown section
    assert_eq!(loc.get("colors", "primary"), "Unknown section");
}

#[test]
fn failed_language_load_degrades_to_the_fallback() {
    let loc = Localization::new("de", Some(english()), None).unwrap();
    assert_eq!(loc.msg("greeting"), "Hello");
    assert_eq!(loc.ui("add_api_endpoint"), "Add API endpoint");
}

#[test]
fn reload_round_trip_restores_english() {
    let mut loc = Localization::new("en", Some(english()), None).unwrap();
    let before_ui = loc.ui("add_api_endpoint").to_string();
    let before_msg = loc.msg("greeting").to_string();
    loc.reload("fr", Some(french())).unwrap();
    assert_eq!(loc.msg("greeting"), "Bonjour");
    loc.reload("en", None).unwrap();
    assert_eq!(loc.ui("add_api_endpoint"), before_ui);
    assert_eq!(loc.msg("greeting"), before_msg);
}

#[test]
fn reload_keeps_the_fallback_intact() {
    let mut loc = Localization::new("en", Some(english()), None).unwrap();
    loc.reload("fr", Some(french())).unwrap();
    // the fallback still answers for keys french lacks
    assert_eq!(loc.get("messages", "quit"), "Press q to quit");
}

#[test]
fn matches_key_compares_characters_case_insensitively() {
    let loc = Localization::new("en", Some(english()), None).unwrap();
    assert!(loc.matches_key("copy", control(), KeyCode::Char('c')));
    assert!(loc.matches_key("copy", control(), KeyCode::Char('C')));
    assert!(!loc.matches_key("copy", none_mods(), KeyCode::Char('c')));
    assert!(loc.matches_key("edit", none_mods(), KeyCode::Char('e')));
    assert!(loc.matches_key("edit", none_mods(), KeyCode::Char('E')));
    assert!(loc.matches_key("escape", none_mods(), KeyCode::Esc));
    assert!(!loc.matches_key("escape", control(), KeyCode::Esc));
}

#[test]
fn unbound_actions_never_match() {
    let mut texts = english();
    texts.keys.push(("broken".to_string(), "Meta+A".to_string()));
    let loc = Localization::new("en", Some(texts), None).unwrap();
    // invalid specification
    assert!(!loc.matches_key("broken", none_mods(), KeyCode::Char('A')));
    assert!(!loc.matches_key("broken", none_mods(), KeyCode::Esc));
    // absent action: resolves to the sentinel, which does not parse
    assert!(!loc.matches_key("no_such_action", none_mods(), KeyCode::Char('q')));
    assert_eq!(loc.get_key_code("no_such_action"), None);
}

#[test]
fn validate_key_bindings_collects_the_invalid_entries() {
    let mut texts = english();
    texts.keys.push(("broken".to_string(), "Meta+A".to_string()));
    texts.keys.push(("worse".to_string(), "Ctrl+Shift+A".to_string()));
    let loc = Localization::new("en", Some(texts), None).unwrap();
    let invalid = loc.validate_key_bindings();
    assert_eq!(
        invalid,
        vec![
            ("broken".to_string(), "Meta+A".to_string()),
            ("worse".to_string(), "Ctrl+Shift+A".to_string()),
        ]
    );
}

#[test]
fn valid_bundles_validate_cleanly() {
    let loc = Localization::new("en", Some(english()), None).unwrap();
    assert!(loc.validate_key_bindings().is_empty());
}

#[test]
fn supported_key_formats_list_the_documented_shapes() {
    let formats = Localization::get_supported_key_formats();
    assert_eq!(formats.len(), 46);
    assert_eq!(formats[0], "a");
    assert!(formats.contains(&"Esc"));
    assert!(formats.contains(&"F12"));
    assert!(formats.contains(&"Ctrl+C"));
    assert!(formats.contains(&"Shift+F1"));
}
