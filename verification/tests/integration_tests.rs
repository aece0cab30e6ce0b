use rext_tui::config::{
    get_available_languages, get_available_languages_with_display, get_available_themes,
    load_theme_colors, Colors, Config, LocalizationConfig, Rgb,
};
use rext_tui::error::RextTuiError;
use rext_tui::keys::{KeyCode, KeyEvent, KeyModifiers};
use rext_tui::localization::{Localization, LocalizedTexts};
use rext_tui::{App, AppRequest, DialogType};

fn pairs(entries: &[(&str, &str)]) -> Vec<(String, String)> {
    entries.iter().map(|(k, v)| (k.to_string(), v.to_string())).collect()
}

fn english() -> LocalizedTexts {
    LocalizedTexts {
        ui: pairs(&[
            ("new_app_success_message", "Created a new app in {dir_name}!"),
            ("new_app_error_message", "There was a problem creating the app in {dir_name}."),
            ("input_cursor", "_"),
        ]),
        messages: pairs(&[
            ("destroy_app_success", "Destroyed the app in {dir_name}."),
            ("destroy_app_error", "Destroy failed: {error}"),
        ]),
        keys: pairs(&[
            ("quit", "q"),
            ("quit_combo", "Ctrl+C"),
            ("escape", "Esc"),
            ("enter", "Enter"),
            ("backspace", "Backspace"),
            ("up", "Up"),
            ("down", "Down"),
            ("left", "Left"),
            ("right", "Right"),
            ("add_endpoint", "e"),
            ("settings", "s"),
            ("generate_sea_orm_entities_with_open_api_schema", "g"),
        ]),
    }
}

fn colors(r: u8) -> Colors {
    Colors {
        primary: Rgb { r, g: 0, b: 0 },
        text: Rgb { r, g: 1, b: 0 },
        background: Rgb { r, g: 2, b: 0 },
    }
}

fn config() -> Config {
    Config {
        themes: vec![
            ("dracula".to_string(), colors(1)),
            ("rust".to_string(), colors(2)),
            ("solarized".to_string(), colors(3)),
        ],
        localization: vec![
            (
                "en".to_string(),
                LocalizationConfig { language: "en".to_string(), display: "English".to_string() },
            ),
            (
                "fr".to_string(),
                LocalizationConfig { language: "fr".to_string(), display: "Français".to_string() },
            ),
        ],
    }
}

fn make_app() -> App {
    let loc = Localization::new("en", Some(english()), None).unwrap();
    App::new(config(), "rust".to_string(), loc, "mydir".to_string())
}

fn press(code: KeyCode) -> KeyEvent {
    KeyEvent::plain(code)
}

fn ctrl(code: KeyCode) -> KeyEvent {
    KeyEvent::with_modifiers(code, KeyModifiers { control: true, shift: false, alt: false })
}

#[test]
fn handle_key_event() {
    let mut app = make_app();

    let right_event = press(KeyCode::Right);
    app.on_key_event(right_event);

    let left_event = press(KeyCode::Left);
    app.on_key_event(left_event);

    let mut app = make_app();
    let quit_event = press(KeyCode::Char('q'));
    app.on_key_event(quit_event);
}

#[test]
fn endpoint_dialog_round_trip() {
    let mut app = make_app();
    app.running = true;
    assert_eq!(app.current_dialog, DialogType::NoDialog);

    // the bound add_endpoint key opens the dialog with an empty input
    let req = app.on_key_event(press(KeyCode::Char('e')));
    assert_eq!(req, None);
    assert_eq!(app.current_dialog, DialogType::ApiEndpoint);
    assert_eq!(app.api_endpoint_input, "");

    // typing fills the buffer
    for c in ['u', 's', 'e', 'r', 's'] {
        app.on_key_event(press(KeyCode::Char(c)));
    }
    assert_eq!(app.api_endpoint_input, "users");

    // enter submits the name and closes the dialog, clearing the buffer
    let req = app.on_key_event(press(KeyCode::Enter));
    assert_eq!(req, Some(AppRequest::CreateEndpoint("users".to_string())));
    assert_eq!(app.current_dialog, DialogType::NoDialog);
    assert_eq!(app.api_endpoint_input, "");
}

#[test]
fn endpoint_dialog_backspace_and_escape() {
    let mut app = make_app();
    app.on_key_event(press(KeyCode::Char('e')));
    app.on_key_event(press(KeyCode::Char('a')));
    app.on_key_event(press(KeyCode::Char('b')));
    assert_eq!(app.api_endpoint_input, "ab");
    app.on_key_event(press(KeyCode::Backspace));
    assert_eq!(app.api_endpoint_input, "a");
    app.on_key_event(press(KeyCode::Backspace));
    app.on_key_event(press(KeyCode::Backspace));
    assert_eq!(app.api_endpoint_input, "");
    let req = app.on_key_event(press(KeyCode::Esc));
    assert_eq!(req, None);
    assert_eq!(app.current_dialog, DialogType::NoDialog);
}

#[test]
fn quit_keys_stop_the_main_loop() {
    let mut app = make_app();
    app.running = true;
    app.on_key_event(press(KeyCode::Char('q')));
    assert!(!app.running);

    let mut app = make_app();
    app.running = true;
    app.on_key_event(ctrl(KeyCode::Char('c')));
    assert!(!app.running);

    let mut app = make_app();
    app.running = true;
    app.on_key_event(press(KeyCode::Esc));
    assert!(!app.running);
}

#[test]
fn settings_selection_wraps() {
    let mut app = make_app();
    app.on_key_event(press(KeyCode::Char('s')));
    assert_eq!(app.current_dialog, DialogType::Settings);
    assert_eq!(app.settings_selected, 0);

    // at index 0, up wraps to the last option
    app.on_key_event(press(KeyCode::Up));
    assert_eq!(app.settings_selected, 3);

    // at index 3, down wraps back to 0
    app.on_key_event(press(KeyCode::Down));
    assert_eq!(app.settings_selected, 0);

    app.on_key_event(press(KeyCode::Down));
    assert_eq!(app.settings_selected, 1);
}

#[test]
fn settings_enter_cycles_the_theme_and_persists_it() {
    let mut app = make_app();
    app.on_key_event(press(KeyCode::Char('s')));
    let req = app.on_key_event(press(KeyCode::Enter));
    assert_eq!(app.current_theme, "solarized");
    assert_eq!(req, Some(AppRequest::PersistTheme("solarized".to_string())));

    // wraps at the end of the list
    let req = app.on_key_event(press(KeyCode::Enter));
    assert_eq!(app.current_theme, "dracula");
    assert_eq!(req, Some(AppRequest::PersistTheme("dracula".to_string())));
}

#[test]
fn settings_enter_on_destroy_emits_the_request() {
    let mut app = make_app();
    app.on_key_event(press(KeyCode::Char('s')));
    app.on_key_event(press(KeyCode::Down));
    app.on_key_event(press(KeyCode::Down));
    assert_eq!(app.settings_selected, 2);
    let req = app.on_key_event(press(KeyCode::Enter));
    assert_eq!(req, Some(AppRequest::DestroyApp));
    assert_eq!(app.current_dialog, DialogType::Settings);
}

#[test]
fn destroy_outcomes_fill_the_message_templates() {
    let mut app = make_app();
    app.apply_destroy_outcome(None);
    assert_eq!(app.new_app_message, Some("Destroyed the app in mydir.".to_string()));

    app.apply_destroy_outcome(Some("disk on fire".to_string()));
    assert_eq!(app.new_app_message, Some("Destroy failed: disk on fire".to_string()));
}

#[test]
fn settings_close_option_closes_the_dialog() {
    let mut app = make_app();
    app.on_key_event(press(KeyCode::Char('s')));
    app.on_key_event(press(KeyCode::Up));
    assert_eq!(app.settings_selected, 3);
    app.on_key_event(press(KeyCode::Enter));
    assert_eq!(app.current_dialog, DialogType::NoDialog);
    assert_eq!(app.settings_selected, 0);
}

#[test]
fn language_dialog_filters_on_search() {
    let mut app = make_app();
    app.on_key_event(press(KeyCode::Char('s')));
    app.on_key_event(press(KeyCode::Down));
    assert_eq!(app.settings_selected, 1);
    app.on_key_event(press(KeyCode::Enter));
    assert_eq!(app.current_dialog, DialogType::Language);
    assert_eq!(app.language_search, "");
    assert_eq!(
        app.filtered_languages,
        vec![
            ("en".to_string(), "English".to_string()),
            ("fr".to_string(), "Français".to_string()),
        ]
    );

    // searching "fr" keeps only the matching code, selection clamps to 0
    app.on_key_event(press(KeyCode::Char('f')));
    app.on_key_event(press(KeyCode::Char('r')));
    assert_eq!(app.language_search, "fr");
    assert_eq!(app.filtered_languages, vec![("fr".to_string(), "Français".to_string())]);
    assert_eq!(app.language_selected, 0);

    // a search matching a display name, case-insensitively
    app.on_key_event(press(KeyCode::Backspace));
    app.on_key_event(press(KeyCode::Backspace));
    app.on_key_event(press(KeyCode::Char('G')));
    assert_eq!(app.filtered_languages, vec![("en".to_string(), "English".to_string())]);

    // a search matching nothing empties the list
    app.on_key_event(press(KeyCode::Char('z')));
    assert!(app.filtered_languages.is_empty());
    assert_eq!(app.language_selected, 0);
}

#[test]
fn language_selection_wraps_and_selects() {
    let mut app = make_app();
    app.on_key_event(press(KeyCode::Char('s')));
    app.on_key_event(press(KeyCode::Down));
    app.on_key_event(press(KeyCode::Enter));
    assert_eq!(app.filtered_languages.len(), 2);

    app.on_key_event(press(KeyCode::Up));
    assert_eq!(app.language_selected, 1);
    app.on_key_event(press(KeyCode::Down));
    assert_eq!(app.language_selected, 0);
    app.on_key_event(press(KeyCode::Down));
    assert_eq!(app.language_selected, 1);

    let req = app.on_key_event(press(KeyCode::Enter));
    assert_eq!(req, Some(AppRequest::SelectLanguage("fr".to_string())));
    // the dialog stays open until the outcome comes back
    assert_eq!(app.current_dialog, DialogType::Language);
}

#[test]
fn select_language_outcome_reloads_and_closes() {
    let mut app = make_app();
    app.on_key_event(press(KeyCode::Char('s')));
    app.on_key_event(press(KeyCode::Down));
    app.on_key_event(press(KeyCode::Enter));

    // persistence failed: the dialog stays open, nothing changes
    app.select_language("fr".to_string(), false, None);
    assert_eq!(app.current_dialog, DialogType::Language);

    // persistence succeeded but the bundle failed to load: fall back to
    // English content and close
    app.select_language("fr".to_string(), true, None);
    assert_eq!(app.current_dialog, DialogType::NoDialog);
    assert_eq!(app.language_search, "");
    assert!(app.filtered_languages.is_empty());
    assert_eq!(app.localization.msg("destroy_app_error"), "Destroy failed: {error}");
}

#[test]
fn new_app_dialog_buttons_and_outcomes() {
    let mut app = make_app();
    app.running = true;
    app.current_dialog = DialogType::NewApp;

    app.on_key_event(press(KeyCode::Right));
    assert_eq!(app.new_app_button_selected, 1);
    app.on_key_event(press(KeyCode::Left));
    assert_eq!(app.new_app_button_selected, 0);

    // enter on the create button asks for a scaffold
    let req = app.on_key_event(press(KeyCode::Enter));
    assert_eq!(req, Some(AppRequest::ScaffoldApp));
    assert_eq!(app.current_dialog, DialogType::NewApp);

    app.handle_new_app_creation(true);
    assert_eq!(app.new_app_message, Some("Created a new app in mydir!".to_string()));
    app.handle_new_app_creation(false);
    assert_eq!(
        app.new_app_message,
        Some("There was a problem creating the app in mydir.".to_string())
    );

    // enter on the cancel button quits
    app.on_key_event(press(KeyCode::Right));
    app.on_key_event(press(KeyCode::Enter));
    assert!(!app.running);
}

#[test]
fn closing_a_dialog_clears_new_app_state() {
    let mut app = make_app();
    app.current_dialog = DialogType::NewApp;
    app.on_key_event(press(KeyCode::Right));
    app.handle_new_app_creation(false);
    assert_eq!(app.new_app_button_selected, 1);
    assert!(app.new_app_message.is_some());

    // closing destroys all variant-local state: the button selection and
    // the result message included
    app.on_key_event(press(KeyCode::Esc));
    assert_eq!(app.current_dialog, DialogType::NoDialog);
    assert_eq!(app.new_app_button_selected, 0);
    assert_eq!(app.new_app_message, None);
}

#[test]
fn new_app_dialog_can_reopen() {
    let mut app = make_app();
    app.open_new_app_dialog();
    assert_eq!(app.current_dialog, DialogType::NewApp);
}

#[test]
fn language_filter_lowercases_beyond_ascii() {
    let mut app = make_app();
    app.on_key_event(press(KeyCode::Char('s')));
    app.on_key_event(press(KeyCode::Down));
    app.on_key_event(press(KeyCode::Enter));
    assert_eq!(app.current_dialog, DialogType::Language);

    // an upper-case search with a non-ASCII letter still matches the
    // display name "Français"
    for c in "FRANÇAIS".chars() {
        app.on_key_event(press(KeyCode::Char(c)));
    }
    assert_eq!(app.language_search, "FRANÇAIS");
    assert_eq!(app.filtered_languages, vec![("fr".to_string(), "Français".to_string())]);
    assert_eq!(app.language_selected, 0);
}

#[test]
fn new_app_dialog_quit_keys() {
    let mut app = make_app();
    app.running = true;
    app.current_dialog = DialogType::NewApp;
    app.on_key_event(ctrl(KeyCode::Char('c')));
    assert!(!app.running);
}

#[test]
fn generate_entities_flow() {
    let mut app = make_app();
    let req = app.on_key_event(press(KeyCode::Char('g')));
    assert_eq!(req, Some(AppRequest::GenerateEntities));
    app.generate_sea_orm_entities_with_open_api_schema(true);
    assert_eq!(app.new_app_message, Some("Created a new app in mydir!".to_string()));
}

#[test]
fn load_colors_falls_back_to_defaults() {
    let mut app = make_app();
    let c = app.load_colors();
    assert_eq!(c, colors(2));
    app.current_theme = "missing".to_string();
    let c = app.load_colors();
    assert_eq!(c.primary, Rgb { r: 255, g: 107, b: 53 });
    assert_eq!(c.text, Rgb { r: 204, g: 204, b: 204 });
    assert_eq!(c.background, Rgb { r: 26, g: 26, b: 26 });
}

#[test]
fn config_lookups_keep_the_loader_order() {
    let cfg = config();
    assert_eq!(
        get_available_themes(&cfg),
        vec!["dracula".to_string(), "rust".to_string(), "solarized".to_string()]
    );
    assert_eq!(get_available_languages(&cfg), vec!["en".to_string(), "fr".to_string()]);
    assert_eq!(
        get_available_languages_with_display(&cfg),
        vec![
            ("en".to_string(), "English".to_string()),
            ("fr".to_string(), "Français".to_string()),
        ]
    );
    assert_eq!(load_theme_colors(&cfg, "rust").unwrap(), colors(2));
    let err = load_theme_colors(&cfg, "nope").unwrap_err();
    assert_eq!(err, RextTuiError::ThemeNotFound("nope".to_string()));
}

#[test]
fn unbound_actions_drive_nothing() {
    let loc = Localization::new(
        "en",
        Some(LocalizedTexts { ui: pairs(&[]), messages: pairs(&[]), keys: pairs(&[]) }),
        None,
    )
    .unwrap();
    let mut app = App::new(config(), "rust".to_string(), loc, "mydir".to_string());
    app.running = true;
    // with no bindings at all, no key does anything
    let req = app.on_key_event(press(KeyCode::Char('q')));
    assert_eq!(req, None);
    assert!(app.running);
    assert_eq!(app.current_dialog, DialogType::NoDialog);
}
