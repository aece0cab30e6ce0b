//! Terminal dashboard core: a localized key-binding engine.
//!
//! The library holds the logic of the dashboard: the key-specification
//! parser, the localization resolver with its English fallback, the key
//! matcher, and the modal dialog state machine.  Everything that touches
//! the terminal, the file system or the scaffolding backend stays outside
//! and talks to this crate through plain values: the state machine
//! consumes input events and emits requests for the surrounding program
//! to perform, taking the outcomes back as plain results.

pub mod chars;
pub mod config;
pub mod error;
pub mod keys;
pub mod localization;

use crate::chars::{
    chars_to_string, contains_sub, lower_of, lowercase, pop_char, push_char, replace_chars,
    replace_spec, to_chars, vec_contains,
};
use crate::config::{get_available_languages_with_display, get_available_themes, theme_colors_spec,
    theme_names, languages_with_display, Colors, Config, ConfigView, Rgb};
use crate::keys::{KeyCode, KeyEvent};
use crate::localization::{
    entries_view, opt_bundle_view, spec_get, spec_matches, spec_reload_active, LocView,
    Localization, LocalizedTexts,
};
use vstd::prelude::*;

verus! {

/// Dialog types for the application: at most one dialog is open.
#[derive(Debug, Clone, PartialEq, Eq, Structural)]
pub enum DialogType {
    NoDialog,
    ApiEndpoint,
    Settings,
    Language,
    NewApp,
}

/// The options of the settings dialog, in display order.
#[derive(Debug, Clone, PartialEq, Eq, Structural)]
pub enum SettingsOption {
    Theme,
    Language,
    Destroy,
    Close,
}

/// A side-effecting operation the state machine asks the surrounding
/// program to perform.  The machine never performs one itself and never
/// retries one; outcomes come back through the `apply` methods.
#[derive(Debug, Clone, PartialEq, Eq)]
pub enum AppRequest {
    /// Create an API endpoint with the entered name.
    CreateEndpoint(String),
    /// Persist the newly selected theme, best effort.
    PersistTheme(String),
    /// Persist the chosen language, then reload localization for it.
    SelectLanguage(String),
    /// Scaffold a new application in the current directory.
    ScaffoldApp,
    /// Destroy the application in the current directory.
    DestroyApp,
    /// Generate entities from the schema.
    GenerateEntities,
}

/// The mathematical content of a request.
#[verifier::ext_equal]
pub ghost enum ReqView {
    CreateEndpoint(Seq<char>),
    PersistTheme(Seq<char>),
    SelectLanguage(Seq<char>),
    ScaffoldApp,
    DestroyApp,
    GenerateEntities,
}

impl View for AppRequest {
    type V = ReqView;

    open spec fn view(&self) -> ReqView {
        match self {
            AppRequest::CreateEndpoint(s) => ReqView::CreateEndpoint(s@),
            AppRequest::PersistTheme(s) => ReqView::PersistTheme(s@),
            AppRequest::SelectLanguage(s) => ReqView::SelectLanguage(s@),
            AppRequest::ScaffoldApp => ReqView::ScaffoldApp,
            AppRequest::DestroyApp => ReqView::DestroyApp,
            AppRequest::GenerateEntities => ReqView::GenerateEntities,
        }
    }
}

/// The view of an optional request.
pub open spec fn opt_req_view(r: Option<AppRequest>) -> Option<ReqView> {
    match r {
        Some(q) => Some(q@),
        None => None,
    }
}

/// The mathematical state of the application.
#[verifier::ext_equal]
pub ghost struct AppView {
    pub running: bool,
    pub current_dialog: DialogType,
    pub api_endpoint_input: Seq<char>,
    pub current_theme: Seq<char>,
    pub localization: LocView,
    pub settings_selected: int,
    pub language_search: Seq<char>,
    pub language_selected: int,
    pub filtered_languages: Seq<(Seq<char>, Seq<char>)>,
    pub new_app_button_selected: int,
    pub new_app_message: Option<Seq<char>>,
    pub current_dir_name: Seq<char>,
    pub config: ConfigView,
}

/// One step of the state machine: the state after the event and the
/// request emitted, if any.
#[verifier::ext_equal]
pub ghost struct Step {
    pub state: AppView,
    pub request: Option<ReqView>,
}

/// The main application state: the open dialog with its local state,
/// the loaded configuration and localization.
pub struct App {
    /// Is the application running?
    pub running: bool,
    /// Current active dialog
    pub current_dialog: DialogType,
    /// Text input buffer for API endpoint name
    pub api_endpoint_input: String,
    /// Current theme name
    pub current_theme: String,
    /// Localization system
    pub localization: Localization,
    /// Settings dialog selected index
    pub settings_selected: usize,
    /// Language dialog search input
    pub language_search: String,
    /// Language dialog selected index
    pub language_selected: usize,
    /// Filtered languages list
    pub filtered_languages: Vec<(String, String)>,
    /// New app dialog selected button (0 = Create, 1 = Cancel)
    pub new_app_button_selected: usize,
    /// New app dialog result message
    pub new_app_message: Option<String>,
    /// Current directory name for display
    pub current_dir_name: String,
    /// Loaded configuration: themes and available languages
    pub config: Config,
}

impl View for App {
    type V = AppView;

    open spec fn view(&self) -> AppView {
        AppView {
            running: self.running,
            current_dialog: self.current_dialog,
            api_endpoint_input: self.api_endpoint_input@,
            current_theme: self.current_theme@,
            localization: self.localization@,
            settings_selected: self.settings_selected as int,
            language_search: self.language_search@,
            language_selected: self.language_selected as int,
            filtered_languages: entries_view(self.filtered_languages@),
            new_app_button_selected: self.new_app_button_selected as int,
            new_app_message: (match &self.new_app_message {
                Some(s) => Some(s@),
                None => None,
            }),
            current_dir_name: self.current_dir_name@,
            config: self.config@,
        }
    }
}

/// The indices the dialogs keep in range: the four settings options, the
/// two buttons of the new-app dialog, and the selection inside the
/// filtered language list.
pub open spec fn wf(a: AppView) -> bool {
    &&& 0 <= a.settings_selected < 4
    &&& 0 <= a.new_app_button_selected < 2
    &&& (a.filtered_languages.len() == 0 ==> a.language_selected == 0)
    &&& (a.filtered_languages.len() > 0 ==> 0 <= a.language_selected
        < a.filtered_languages.len())
}

/// Whether the event matches the key bound to the named action.
pub open spec fn act(a: AppView, name: Seq<char>, ev: KeyEvent) -> bool {
    spec_matches(a.localization, name, ev.modifiers, ev.code)
}

/// The state after closing a dialog: no dialog, and every piece of
/// dialog-local state cleared — the text buffers, the three selections,
/// the filtered list, and the new-app dialog's button and result
/// message.
pub open spec fn spec_close_dialog(a: AppView) -> AppView {
    AppView {
        current_dialog: DialogType::NoDialog,
        api_endpoint_input: Seq::empty(),
        language_search: Seq::empty(),
        language_selected: 0,
        settings_selected: 0,
        filtered_languages: Seq::empty(),
        new_app_button_selected: 0,
        new_app_message: None,
        ..a
    }
}

/// Whether a language entry matches a search string: case-insensitive
/// substring match against the code or the display name, under Unicode
/// lower-casing.
pub open spec fn lang_matches(p: (Seq<char>, Seq<char>), search: Seq<char>) -> bool {
    contains_sub(lower_of(p.0), lower_of(search)) || contains_sub(
        lower_of(p.1),
        lower_of(search),
    )
}

/// The language entries that match a search string, in list order.
pub open spec fn filtered_langs(langs: Seq<(Seq<char>, Seq<char>)>, search: Seq<char>) -> Seq<
    (Seq<char>, Seq<char>),
>
    decreases langs.len(),
{
    if langs.len() == 0 {
        Seq::empty()
    } else {
        let rest = filtered_langs(langs.skip(1), search);
        if lang_matches(langs[0], search) {
            seq![langs[0]] + rest
        } else {
            rest
        }
    }
}

/// The state after recomputing the filtered language list: the filter
/// runs over the configured languages and the selection resets to the
/// top.
pub open spec fn spec_filter_languages(a: AppView) -> AppView {
    AppView {
        filtered_languages: filtered_langs(languages_with_display(a.config), a.language_search),
        language_selected: 0,
        ..a
    }
}

/// The first index of a name in a list of names.
pub open spec fn first_index(names: Seq<Seq<char>>, x: Seq<char>) -> int
    decreases names.len(),
{
    if names.len() == 0 {
        0
    } else if names[0] == x {
        0
    } else {
        1 + first_index(names.skip(1), x)
    }
}

/// Whether a name occurs in a list of names.
pub open spec fn has_name(names: Seq<Seq<char>>, x: Seq<char>) -> bool {
    exists|i: int| 0 <= i < names.len() && names[i] == x
}

/// Cycling the theme: the next configured theme after the current one,
/// wrapping around, with a request to persist the choice; when the
/// current theme is not configured, nothing happens.
pub open spec fn spec_cycle_theme(a: AppView) -> Step {
    let names = theme_names(a.config);
    if has_name(names, a.current_theme) {
        let i = first_index(names, a.current_theme);
        let next = names[(i + 1) % (names.len() as int)];
        Step {
            state: AppView { current_theme: next, ..a },
            request: Some(ReqView::PersistTheme(next)),
        }
    } else {
        Step { state: a, request: None }
    }
}

/// Opening the language dialog: empty search, selection at the top, and
/// the filter seeded with every configured language.
pub open spec fn spec_open_language_dialog(a: AppView) -> AppView {
    spec_filter_languages(
        AppView {
            current_dialog: DialogType::Language,
            language_search: Seq::empty(),
            language_selected: 0,
            ..a
        },
    )
}

/// One step of the endpoint dialog: enter submits the input and closes,
/// escape discards, backspace edits, and any character key types.
pub open spec fn spec_step_api_endpoint(a: AppView, ev: KeyEvent) -> Step {
    if act(a, "enter"@, ev) {
        Step {
            state: spec_close_dialog(a),
            request: Some(ReqView::CreateEndpoint(a.api_endpoint_input)),
        }
    } else if act(a, "escape"@, ev) {
        Step { state: spec_close_dialog(a), request: None }
    } else if act(a, "backspace"@, ev) {
        Step {
            state: AppView {
                api_endpoint_input: (if a.api_endpoint_input.len() == 0 {
                    a.api_endpoint_input
                } else {
                    a.api_endpoint_input.drop_last()
                }),
                ..a
            },
            request: None,
        }
    } else {
        match ev.code {
            KeyCode::Char(c) => Step {
                state: AppView { api_endpoint_input: a.api_endpoint_input.push(c), ..a },
                request: None,
            },
            _ => Step { state: a, request: None },
        }
    }
}

/// One step of the settings dialog: escape closes, up and down move the
/// selection with wraparound over the four options, and enter activates
/// the selected option.
pub open spec fn spec_step_settings(a: AppView, ev: KeyEvent) -> Step {
    if act(a, "escape"@, ev) {
        Step { state: spec_close_dialog(a), request: None }
    } else if act(a, "up"@, ev) {
        Step {
            state: AppView {
                settings_selected: (if a.settings_selected > 0 {
                    a.settings_selected - 1
                } else {
                    3
                }),
                ..a
            },
            request: None,
        }
    } else if act(a, "down"@, ev) {
        Step {
            state: AppView { settings_selected: (a.settings_selected + 1) % 4, ..a },
            request: None,
        }
    } else if act(a, "enter"@, ev) {
        if a.settings_selected == 0 {
            spec_cycle_theme(a)
        } else if a.settings_selected == 1 {
            Step { state: spec_open_language_dialog(a), request: None }
        } else if a.settings_selected == 2 {
            Step { state: a, request: Some(ReqView::DestroyApp) }
        } else if a.settings_selected == 3 {
            Step { state: spec_close_dialog(a), request: None }
        } else {
            Step { state: a, request: None }
        }
    } else {
        Step { state: a, request: None }
    }
}

/// One step of the language dialog: escape discards, up and down move
/// the selection with wraparound over the filtered list, enter chooses
/// the selected language, and backspace or a character key edit the
/// search and refilter.
pub open spec fn spec_step_language(a: AppView, ev: KeyEvent) -> Step {
    if act(a, "escape"@, ev) {
        Step { state: spec_close_dialog(a), request: None }
    } else if act(a, "up"@, ev) {
        Step {
            state: AppView {
                language_selected: (if a.filtered_languages.len() > 0 && a.language_selected > 0 {
                    a.language_selected - 1
                } else if a.filtered_languages.len() > 0 {
                    a.filtered_languages.len() - 1
                } else {
                    a.language_selected
                }),
                ..a
            },
            request: None,
        }
    } else if act(a, "down"@, ev) {
        Step {
            state: AppView {
                language_selected: (if a.filtered_languages.len() > 0 {
                    (a.language_selected + 1) % (a.filtered_languages.len() as int)
                } else {
                    a.language_selected
                }),
                ..a
            },
            request: None,
        }
    } else if act(a, "enter"@, ev) {
        if a.filtered_languages.len() > 0 {
            Step {
                state: a,
                request: Some(
                    ReqView::SelectLanguage(a.filtered_languages[a.language_selected].0),
                ),
            }
        } else {
            Step { state: a, request: None }
        }
    } else if act(a, "backspace"@, ev) {
        Step {
            state: spec_filter_languages(
                AppView {
                    language_search: (if a.language_search.len() == 0 {
                        a.language_search
                    } else {
                        a.language_search.drop_last()
                    }),
                    ..a
                },
            ),
            request: None,
        }
    } else {
        match ev.code {
            KeyCode::Char(c) => Step {
                state: spec_filter_languages(
                    AppView { language_search: a.language_search.push(c), ..a },
                ),
                request: None,
            },
            _ => Step { state: a, request: None },
        }
    }
}

/// One step of the new-app dialog: left and right pick a button, enter
/// activates it (scaffold, or quit), escape closes, and the quit keys
/// quit.
pub open spec fn spec_step_new_app(a: AppView, ev: KeyEvent) -> Step {
    if act(a, "left"@, ev) {
        Step { state: AppView { new_app_button_selected: 0, ..a }, request: None }
    } else if act(a, "right"@, ev) {
        Step { state: AppView { new_app_button_selected: 1, ..a }, request: None }
    } else if act(a, "enter"@, ev) {
        if a.new_app_button_selected == 0 {
            Step { state: a, request: Some(ReqView::ScaffoldApp) }
        } else {
            Step { state: AppView { running: false, ..a }, request: None }
        }
    } else if act(a, "escape"@, ev) {
        Step { state: spec_close_dialog(a), request: None }
    } else if act(a, "quit"@, ev) || act(a, "quit_combo"@, ev) {
        Step { state: AppView { running: false, ..a }, request: None }
    } else {
        Step { state: a, request: None }
    }
}

/// One step with no dialog open: the quit keys and escape quit,
/// `add_endpoint` opens the endpoint dialog, the generate key asks for
/// entity generation, and `settings` opens the settings dialog.
pub open spec fn spec_step_main(a: AppView, ev: KeyEvent) -> Step {
    if act(a, "quit"@, ev) || act(a, "quit_combo"@, ev) || act(a, "escape"@, ev) {
        Step { state: AppView { running: false, ..a }, request: None }
    } else if act(a, "add_endpoint"@, ev) {
        Step {
            state: AppView {
                current_dialog: DialogType::ApiEndpoint,
                api_endpoint_input: Seq::empty(),
                ..a
            },
            request: None,
        }
    } else if act(a, "generate_sea_orm_entities_with_open_api_schema"@, ev) {
        Step { state: a, request: Some(ReqView::GenerateEntities) }
    } else if act(a, "settings"@, ev) {
        Step {
            state: AppView {
                current_dialog: DialogType::Settings,
                api_endpoint_input: Seq::empty(),
                ..a
            },
            request: None,
        }
    } else {
        Step { state: a, request: None }
    }
}

/// One step of the whole machine, dispatched on the open dialog.
pub open spec fn spec_on_key_event(a: AppView, ev: KeyEvent) -> Step {
    match a.current_dialog {
        DialogType::ApiEndpoint => spec_step_api_endpoint(a, ev),
        DialogType::Settings => spec_step_settings(a, ev),
        DialogType::Language => spec_step_language(a, ev),
        DialogType::NewApp => spec_step_new_app(a, ev),
        DialogType::NoDialog => spec_step_main(a, ev),
    }
}

/// Law: every step of the machine keeps the dialog indices in range.
pub proof fn lemma_step_preserves_wf(a: AppView, ev: KeyEvent)
    requires
        wf(a),
    ensures
        wf(spec_on_key_event(a, ev).state),
{
}

/// The default colors used when the current theme is not configured.
pub open spec fn default_colors() -> Colors {
    Colors {
        primary: Rgb { r: 255, g: 107, b: 53 },
        text: Rgb { r: 204, g: 204, b: 204 },
        background: Rgb { r: 26, g: 26, b: 26 },
    }
}

/// The message shown after an outcome: the template text with the
/// placeholder replaced by the current directory name.
pub open spec fn dir_message(a: AppView, section: Seq<char>, key: Seq<char>) -> Seq<char> {
    replace_spec(spec_get(a.localization, section, key), "{dir_name}"@, a.current_dir_name)
}

/// A scan that saw no match before `i` and a match at `i` found the
/// first index.
proof fn lemma_first_index_at(names: Seq<Seq<char>>, x: Seq<char>, i: int)
    requires
        0 <= i < names.len(),
        names[i] == x,
        forall|j: int| 0 <= j < i ==> names[j] != x,
    ensures
        first_index(names, x) == i,
    decreases i,
{
    if i > 0 {
        lemma_first_index_at(names.skip(1), x, i - 1);
    }
}

impl App {
    /// Construct a new instance of [`App`] from the loaded configuration,
    /// the persisted theme name, the localization resolver and the name
    /// of the current directory.  It starts with no dialog open and every
    /// dialog-local buffer empty.
    pub fn new(
        config: Config,
        current_theme: String,
        localization: Localization,
        current_dir_name: String,
    ) -> (r: App)
        ensures
            r@ == (AppView {
                running: false,
                current_dialog: DialogType::NoDialog,
                api_endpoint_input: Seq::empty(),
                current_theme: current_theme@,
                localization: localization@,
                settings_selected: 0,
                language_search: Seq::empty(),
                language_selected: 0,
                filtered_languages: Seq::empty(),
                new_app_button_selected: 0,
                new_app_message: None,
                current_dir_name: current_dir_name@,
                config: config@,
            }),
            wf(r@),
    {
        let r = App {
            running: false,
            current_dialog: DialogType::NoDialog,
            api_endpoint_input: String::new(),
            current_theme,
            localization,
            settings_selected: 0,
            language_search: String::new(),
            language_selected: 0,
            filtered_languages: Vec::new(),
            new_app_button_selected: 0,
            new_app_message: None,
            current_dir_name,
            config,
        };
        proof {
            assert(entries_view(r.filtered_languages@) =~= Seq::<(Seq<char>, Seq<char>)>::empty());
        }
        r
    }

    /// Set running to false to quit the application.
    fn quit(&mut self)
        ensures
            final(self)@ == (AppView { running: false, ..old(self)@ }),
    {
        self.running = false;
        proof {
            assert(self@ =~= (AppView { running: false, ..old(self)@ }));
        }
    }

    /// Closes the current dialog and clears every piece of dialog-local
    /// state.
    fn close_dialog(&mut self)
        ensures
            final(self)@ == spec_close_dialog(old(self)@),
    {
        self.current_dialog = DialogType::NoDialog;
        self.api_endpoint_input = String::new();
        self.language_search = String::new();
        self.language_selected = 0;
        self.settings_selected = 0;
        self.filtered_languages = Vec::new();
        self.new_app_button_selected = 0;
        self.new_app_message = None;
        proof {
            assert(entries_view(self.filtered_languages@) =~= Seq::<
                (Seq<char>, Seq<char>),
            >::empty());
            assert(self@ =~= spec_close_dialog(old(self)@));
        }
    }

    /// Opens the new-app dialog; the surrounding program calls this when
    /// no application is present in the working directory.  Nothing else
    /// changes: the dialog keeps whatever state it had, as a close
    /// resets it.
    pub fn open_new_app_dialog(&mut self)
        ensures
            final(self)@ == (AppView { current_dialog: DialogType::NewApp, ..old(self)@ }),
    {
        self.current_dialog = DialogType::NewApp;
        proof {
            assert(self@ =~= (AppView { current_dialog: DialogType::NewApp, ..old(self)@ }));
        }
    }

    /// Hands the entered endpoint name on to the caller, which asks the
    /// scaffolding backend to create it.
    pub fn handle_api_endpoint_creation(&self, api_endpoint_name: String) -> (r: String)
        ensures
            r@ == api_endpoint_name@,
    {
        api_endpoint_name
    }

    /// The colors of the current theme, or the built-in defaults when
    /// the theme is not configured.
    pub fn load_colors(&self) -> (r: Colors)
        ensures
            r == (match theme_colors_spec(self@.config.themes, self@.current_theme) {
                Some(c) => c,
                None => default_colors(),
            }),
    {
        match crate::config::load_theme_colors(&self.config, self.current_theme.as_str()) {
            Ok(colors) => colors,
            Err(_) => Colors {
                primary: Rgb { r: 255, g: 107, b: 53 },
                text: Rgb { r: 204, g: 204, b: 204 },
                background: Rgb { r: 26, g: 26, b: 26 },
            },
        }
    }

    /// Cycles to the next available theme, wrapping around, and asks the
    /// caller to persist the choice; does nothing when the current theme
    /// is not configured.
    pub fn cycle_theme(&mut self) -> (r: Option<AppRequest>)
        ensures
            final(self)@ == spec_cycle_theme(old(self)@).state,
            opt_req_view(r) == spec_cycle_theme(old(self)@).request,
    {
        let themes = get_available_themes(&self.config);
        let ghost names = theme_names(old(self)@.config);
        let n = themes.len();
        let mut i: usize = 0;
        while i < n
            invariant
                *self == *old(self),
                n == themes@.len(),
                i <= n,
                themes@.map_values(|s: String| s@) == names,
                names == theme_names(old(self)@.config),
                forall|j: int| 0 <= j < i ==> names[j] != old(self).current_theme@,
            decreases n - i,
        {
            let t = &themes[i];
            proof {
                assert(names[i as int] == themes@[i as int]@);
            }
            if crate::chars::str_eq(t.as_str(), self.current_theme.as_str()) {
                proof {
                    assert(names[i as int] == old(self).current_theme@);
                    lemma_first_index_at(names, old(self).current_theme@, i as int);
                }
                let next_index = (i + 1) % n;
                let t2 = &themes[next_index];
                self.current_theme = t2.clone();
                let req = AppRequest::PersistTheme(self.current_theme.clone());
                proof {
                    assert(names[next_index as int] == themes@[next_index as int]@);
                    assert(self@ =~= spec_cycle_theme(old(self)@).state);
                }
                return Some(req);
            }
            i += 1;
        }
        proof {
            assert(!has_name(names, old(self).current_theme@));
        }
        None
    }

    /// Recomputes the filtered language list from the configured
    /// languages and the current search string, and resets the selection
    /// to the top.
    fn filter_languages(&mut self)
        ensures
            final(self)@ == spec_filter_languages(old(self)@),
    {
        let search_lower = lowercase(self.language_search.as_str());
        let search_l = to_chars(search_lower.as_str());
        let langs = get_available_languages_with_display(&self.config);
        let ghost lv = languages_with_display(old(self)@.config);
        let ghost search = old(self).language_search@;
        let mut filtered: Vec<(String, String)> = Vec::new();
        let n = langs.len();
        let mut i: usize = 0;
        proof {
            assert(lv.skip(0) =~= lv);
            assert(entries_view(filtered@) + filtered_langs(lv, search) =~= filtered_langs(
                lv,
                search,
            ));
        }
        while i < n
            invariant
                *self == *old(self),
                n == langs@.len(),
                i <= n,
                entries_view(langs@) == lv,
                lv == languages_with_display(old(self)@.config),
                search == old(self).language_search@,
                search_l@ == lower_of(search),
                filtered_langs(lv, search) == entries_view(filtered@) + filtered_langs(
                    lv.skip(i as int),
                    search,
                ),
            decreases n - i,
        {
            let ghost rest = lv.skip(i as int);
            let ghost prev = entries_view(filtered@);
            let e = &langs[i];
            proof {
                assert(rest[0] == lv[i as int]);
                assert(lv[i as int] == (e.0@, e.1@));
                assert(rest.skip(1) =~= lv.skip(i as int + 1));
            }
            let code_lower = lowercase(e.0.as_str());
            let code_l = to_chars(code_lower.as_str());
            let disp_lower = lowercase(e.1.as_str());
            let disp_l = to_chars(disp_lower.as_str());
            if vec_contains(&code_l, &search_l) || vec_contains(&disp_l, &search_l) {
                filtered.push((e.0.clone(), e.1.clone()));
                proof {
                    assert(entries_view(filtered@) =~= prev.push((e.0@, e.1@)));
                    assert(entries_view(filtered@) =~= prev + seq![lv[i as int]]);
                    assert((prev + seq![lv[i as int]]) + filtered_langs(
                        lv.skip(i as int + 1),
                        search,
                    ) =~= prev + (seq![lv[i as int]] + filtered_langs(
                        lv.skip(i as int + 1),
                        search,
                    )));
                }
            }
            i += 1;
        }
        proof {
            assert(lv.skip(n as int) =~= Seq::<(Seq<char>, Seq<char>)>::empty());
            assert(entries_view(filtered@) + filtered_langs(lv.skip(n as int), search)
                =~= entries_view(filtered@));
        }
        self.filtered_languages = filtered;
        self.language_selected = 0;
        proof {
            assert(self@ =~= spec_filter_languages(old(self)@));
        }
    }

    /// Opens the language selection dialog with an empty search and the
    /// full language list.
    fn open_language_dialog(&mut self)
        ensures
            final(self)@ == spec_open_language_dialog(old(self)@),
    {
        self.current_dialog = DialogType::Language;
        self.language_search = String::new();
        self.language_selected = 0;
        let ghost mid = self@;
        proof {
            assert(mid =~= (AppView {
                current_dialog: DialogType::Language,
                language_search: Seq::empty(),
                language_selected: 0,
                ..old(self)@
            }));
        }
        self.filter_languages();
    }

    /// Applies the outcome of the language-selection request: when the
    /// choice could not be persisted nothing changes and the dialog stays
    /// open; when it was, localization reloads for the chosen language
    /// (falling back to English content on a failed load) and the dialog
    /// closes.
    pub fn select_language(
        &mut self,
        language_code: String,
        persisted: bool,
        loaded: Option<LocalizedTexts>,
    )
        ensures
            !persisted ==> final(self)@ == old(self)@,
            persisted ==> final(self)@ == spec_close_dialog(
                AppView {
                    localization: (LocView {
                        active: spec_reload_active(
                            old(self)@.localization.fallback,
                            language_code@,
                            opt_bundle_view(loaded),
                        ),
                        fallback: old(self)@.localization.fallback,
                    }),
                    ..old(self)@
                },
            ),
    {
        if !persisted {
            return ;
        }
        let _ = self.localization.reload(language_code.as_str(), loaded);
        let ghost mid = self@;
        proof {
            assert(mid =~= (AppView {
                localization: (LocView {
                    active: spec_reload_active(
                        old(self)@.localization.fallback,
                        language_code@,
                        opt_bundle_view(loaded),
                    ),
                    fallback: old(self)@.localization.fallback,
                }),
                ..old(self)@
            }));
        }
        self.close_dialog();
    }

    /// Applies the outcome of the scaffold request: stores the localized
    /// success or failure message with the directory name filled in.
    pub fn handle_new_app_creation(&mut self, succeeded: bool)
        ensures
            final(self)@ == (AppView {
                new_app_message: Some(
                    dir_message(
                        old(self)@,
                        "ui"@,
                        if succeeded {
                            "new_app_success_message"@
                        } else {
                            "new_app_error_message"@
                        },
                    ),
                ),
                ..old(self)@
            }),
    {
        let template = if succeeded {
            self.localization.ui("new_app_success_message")
        } else {
            self.localization.ui("new_app_error_message")
        };
        let t_chars = to_chars(template);
        let pat = to_chars("{dir_name}");
        proof {
            reveal_strlit("{dir_name}");
        }
        let dir = to_chars(self.current_dir_name.as_str());
        let replaced = replace_chars(&t_chars, &pat, &dir);
        let message = chars_to_string(&replaced);
        self.new_app_message = Some(message);
        proof {
            assert(self@ =~= (AppView {
                new_app_message: Some(
                    dir_message(
                        old(self)@,
                        "ui"@,
                        if succeeded {
                            "new_app_success_message"@
                        } else {
                            "new_app_error_message"@
                        },
                    ),
                ),
                ..old(self)@
            }));
        }
    }

    /// Applies the outcome of the entity-generation request; the
    /// messages are shared with the scaffold request.
    pub fn generate_sea_orm_entities_with_open_api_schema(&mut self, succeeded: bool)
        ensures
            final(self)@ == (AppView {
                new_app_message: Some(
                    dir_message(
                        old(self)@,
                        "ui"@,
                        if succeeded {
                            "new_app_success_message"@
                        } else {
                            "new_app_error_message"@
                        },
                    ),
                ),
                ..old(self)@
            }),
    {
        self.handle_new_app_creation(succeeded);
    }

    /// Applies the outcome of the destroy request: on success the
    /// localized message carries the directory name, on failure the
    /// error text.
    pub fn apply_destroy_outcome(&mut self, error: Option<String>)
        ensures
            ({
                match error {
                    None => final(self)@ == (AppView {
                        new_app_message: Some(
                            dir_message(old(self)@, "messages"@, "destroy_app_success"@),
                        ),
                        ..old(self)@
                    }),
                    Some(e) => final(self)@ == (AppView {
                        new_app_message: Some(
                            replace_spec(
                                spec_get(
                                    old(self)@.localization,
                                    "messages"@,
                                    "destroy_app_error"@,
                                ),
                                "{error}"@,
                                e@,
                            ),
                        ),
                        ..old(self)@
                    }),
                }
            }),
    {
        match error {
            None => {
                let template = self.localization.msg("destroy_app_success");
                let t_chars = to_chars(template);
                let pat = to_chars("{dir_name}");
                proof {
                    reveal_strlit("{dir_name}");
                }
                let dir = to_chars(self.current_dir_name.as_str());
                let replaced = replace_chars(&t_chars, &pat, &dir);
                let message = chars_to_string(&replaced);
                self.new_app_message = Some(message);
                proof {
                    assert(self@ =~= (AppView {
                        new_app_message: Some(
                            dir_message(old(self)@, "messages"@, "destroy_app_success"@),
                        ),
                        ..old(self)@
                    }));
                }
            },
            Some(e) => {
                let template = self.localization.msg("destroy_app_error");
                let t_chars = to_chars(template);
                let pat = to_chars("{error}");
                proof {
                    reveal_strlit("{error}");
                }
                let err_chars = to_chars(e.as_str());
                let replaced = replace_chars(&t_chars, &pat, &err_chars);
                let message = chars_to_string(&replaced);
                self.new_app_message = Some(message);
                proof {
                    assert(self@ =~= (AppView {
                        new_app_message: Some(
                            replace_spec(
                                spec_get(
                                    old(self)@.localization,
                                    "messages"@,
                                    "destroy_app_error"@,
                                ),
                                "{error}"@,
                                e@,
                            ),
                        ),
                        ..old(self)@
                    }));
                }
            },
        }
    }

    /// Opens a dialog, clearing the endpoint input buffer.
    fn open_dialog(&mut self, dialog_type: DialogType)
        ensures
            final(self)@ == (AppView {
                current_dialog: dialog_type,
                api_endpoint_input: Seq::empty(),
                ..old(self)@
            }),
    {
        self.current_dialog = dialog_type;
        self.api_endpoint_input = String::new();
        proof {
            assert(self@ =~= (AppView {
                current_dialog: dialog_type,
                api_endpoint_input: Seq::empty(),
                ..old(self)@
            }));
        }
    }

    /// Handles events for the API endpoint dialog.
    fn handle_api_endpoint_dialog_events(&mut self, key: KeyEvent) -> (r: Option<AppRequest>)
        ensures
            final(self)@ == spec_step_api_endpoint(old(self)@, key).state,
            opt_req_view(r) == spec_step_api_endpoint(old(self)@, key).request,
    {
        if self.localization.matches_key("enter", key.modifiers, key.code) {
            let api_endpoint_name = self.api_endpoint_input.clone();
            self.close_dialog();
            let name = self.handle_api_endpoint_creation(api_endpoint_name);
            Some(AppRequest::CreateEndpoint(name))
        } else if self.localization.matches_key("escape", key.modifiers, key.code) {
            self.close_dialog();
            None
        } else if self.localization.matches_key("backspace", key.modifiers, key.code) {
            let _ = pop_char(&mut self.api_endpoint_input);
            proof {
                assert(self@ =~= spec_step_api_endpoint(old(self)@, key).state);
            }
            None
        } else {
            match key.code {
                KeyCode::Char(c) => {
                    push_char(&mut self.api_endpoint_input, c);
                    proof {
                        assert(self@ =~= spec_step_api_endpoint(old(self)@, key).state);
                    }
                    None
                },
                _ => None,
            }
        }
    }

    /// Handles events for the settings dialog.
    fn handle_settings_dialog_events(&mut self, key: KeyEvent) -> (r: Option<AppRequest>)
        requires
            wf(old(self)@),
        ensures
            final(self)@ == spec_step_settings(old(self)@, key).state,
            opt_req_view(r) == spec_step_settings(old(self)@, key).request,
    {
        if self.localization.matches_key("escape", key.modifiers, key.code) {
            self.close_dialog();
            None
        } else if self.localization.matches_key("up", key.modifiers, key.code) {
            if self.settings_selected > 0 {
                self.settings_selected -= 1;
            } else {
                self.settings_selected = 3;
            }
            proof {
                assert(self@ =~= spec_step_settings(old(self)@, key).state);
            }
            None
        } else if self.localization.matches_key("down", key.modifiers, key.code) {
            self.settings_selected = (self.settings_selected + 1) % 4;
            proof {
                assert(self@ =~= spec_step_settings(old(self)@, key).state);
            }
            None
        } else if self.localization.matches_key("enter", key.modifiers, key.code) {
            if self.settings_selected == 0 {
                self.cycle_theme()
            } else if self.settings_selected == 1 {
                self.open_language_dialog();
                None
            } else if self.settings_selected == 2 {
                Some(AppRequest::DestroyApp)
            } else if self.settings_selected == 3 {
                self.close_dialog();
                None
            } else {
                None
            }
        } else {
            None
        }
    }

    /// Handles events for the language dialog.
    fn handle_language_dialog_events(&mut self, key: KeyEvent) -> (r: Option<AppRequest>)
        requires
            wf(old(self)@),
        ensures
            final(self)@ == spec_step_language(old(self)@, key).state,
            opt_req_view(r) == spec_step_language(old(self)@, key).request,
    {
        if self.localization.matches_key("escape", key.modifiers, key.code) {
            self.close_dialog();
            None
        } else if self.localization.matches_key("up", key.modifiers, key.code) {
            if self.filtered_languages.len() > 0 && self.language_selected > 0 {
                self.language_selected -= 1;
            } else if self.filtered_languages.len() > 0 {
                self.language_selected = self.filtered_languages.len() - 1;
            }
            proof {
                assert(self@ =~= spec_step_language(old(self)@, key).state);
            }
            None
        } else if self.localization.matches_key("down", key.modifiers, key.code) {
            if self.filtered_languages.len() > 0 {
                self.language_selected = (self.language_selected + 1)
                    % self.filtered_languages.len();
            }
            proof {
                assert(self@ =~= spec_step_language(old(self)@, key).state);
            }
            None
        } else if self.localization.matches_key("enter", key.modifiers, key.code) {
            if self.filtered_languages.len() > 0 {
                let e = &self.filtered_languages[self.language_selected];
                Some(AppRequest::SelectLanguage(e.0.clone()))
            } else {
                None
            }
        } else if self.localization.matches_key("backspace", key.modifiers, key.code) {
            let _ = pop_char(&mut self.language_search);
            let ghost mid = self@;
            proof {
                assert(mid =~= (AppView {
                    language_search: (if old(self)@.language_search.len() == 0 {
                        old(self)@.language_search
                    } else {
                        old(self)@.language_search.drop_last()
                    }),
                    ..old(self)@
                }));
            }
            self.filter_languages();
            None
        } else {
            match key.code {
                KeyCode::Char(c) => {
                    push_char(&mut self.language_search, c);
                    let ghost mid = self@;
                    proof {
                        assert(mid =~= (AppView {
                            language_search: old(self)@.language_search.push(c),
                            ..old(self)@
                        }));
                    }
                    self.filter_languages();
                    None
                },
                _ => None,
            }
        }
    }

    /// Handles events for the new app dialog.
    fn handle_new_app_dialog_events(&mut self, key: KeyEvent) -> (r: Option<AppRequest>)
        ensures
            final(self)@ == spec_step_new_app(old(self)@, key).state,
            opt_req_view(r) == spec_step_new_app(old(self)@, key).request,
    {
        if self.localization.matches_key("left", key.modifiers, key.code) {
            self.new_app_button_selected = 0;
            proof {
                assert(self@ =~= spec_step_new_app(old(self)@, key).state);
            }
            None
        } else if self.localization.matches_key("right", key.modifiers, key.code) {
            self.new_app_button_selected = 1;
            proof {
                assert(self@ =~= spec_step_new_app(old(self)@, key).state);
            }
            None
        } else if self.localization.matches_key("enter", key.modifiers, key.code) {
            if self.new_app_button_selected == 0 {
                Some(AppRequest::ScaffoldApp)
            } else {
                self.quit();
                None
            }
        } else if self.localization.matches_key("escape", key.modifiers, key.code) {
            self.close_dialog();
            None
        } else if self.localization.matches_key("quit", key.modifiers, key.code)
            || self.localization.matches_key("quit_combo", key.modifiers, key.code) {
            self.quit();
            None
        } else {
            None
        }
    }

    /// Handles events when no dialog is open.
    fn handle_main_app_events(&mut self, key: KeyEvent) -> (r: Option<AppRequest>)
        ensures
            final(self)@ == spec_step_main(old(self)@, key).state,
            opt_req_view(r) == spec_step_main(old(self)@, key).request,
    {
        if self.localization.matches_key("quit", key.modifiers, key.code)
            || self.localization.matches_key("quit_combo", key.modifiers, key.code)
            || self.localization.matches_key("escape", key.modifiers, key.code) {
            self.quit();
            None
        } else if self.localization.matches_key("add_endpoint", key.modifiers, key.code) {
            self.open_dialog(DialogType::ApiEndpoint);
            None
        } else if self.localization.matches_key(
            "generate_sea_orm_entities_with_open_api_schema",
            key.modifiers,
            key.code,
        ) {
            Some(AppRequest::GenerateEntities)
        } else if self.localization.matches_key("settings", key.modifiers, key.code) {
            self.open_dialog(DialogType::Settings);
            None
        } else {
            None
        }
    }

    /// Handles one key event: updates the state as the transition table
    /// prescribes and returns the request to perform, if the step emits
    /// one.
    pub fn on_key_event(&mut self, key: KeyEvent) -> (r: Option<AppRequest>)
        requires
            wf(old(self)@),
        ensures
            final(self)@ == spec_on_key_event(old(self)@, key).state,
            opt_req_view(r) == spec_on_key_event(old(self)@, key).request,
            wf(final(self)@),
    {
        proof {
            lemma_step_preserves_wf(old(self)@, key);
        }
        match &self.current_dialog {
            DialogType::ApiEndpoint => self.handle_api_endpoint_dialog_events(key),
            DialogType::Settings => self.handle_settings_dialog_events(key),
            DialogType::Language => self.handle_language_dialog_events(key),
            DialogType::NewApp => self.handle_new_app_dialog_events(key),
            DialogType::NoDialog => self.handle_main_app_events(key),
        }
    }
}

} // verus!
