//! Configuration data for the dashboard: theme definitions and the set
//! of available languages.
//!
//! The value is loaded from configuration files by the surrounding
//! program and handed in whole; the loader keeps the theme list sorted
//! by name and the language list sorted by display name.  This module
//! holds the lookups the core performs on it.

use crate::error::RextTuiError;
use crate::localization::entries_view;
use vstd::prelude::*;

verus! {

/// RGB color value for theme configuration; each component is one byte.
#[derive(Clone, Copy, Debug, PartialEq, Eq, Structural)]
pub struct Rgb {
    pub r: u8,
    pub g: u8,
    pub b: u8,
}

/// Color scheme of one theme: accent, regular text and background.
#[derive(Clone, Copy, Debug, PartialEq, Eq, Structural)]
pub struct Colors {
    pub primary: Rgb,
    pub text: Rgb,
    pub background: Rgb,
}

/// Language code and display name of one available localization.
pub struct LocalizationConfig {
    pub language: String,
    pub display: String,
}

/// The loaded configuration: theme definitions and available
/// localizations, as (name, value) lists in the loader's order.
pub struct Config {
    pub themes: Vec<(String, Colors)>,
    pub localization: Vec<(String, LocalizationConfig)>,
}

/// The mathematical content of a configuration.
#[verifier::ext_equal]
pub ghost struct ConfigView {
    pub themes: Seq<(Seq<char>, Colors)>,
    pub localization: Seq<(Seq<char>, (Seq<char>, Seq<char>))>,
}

impl View for Config {
    type V = ConfigView;

    open spec fn view(&self) -> ConfigView {
        ConfigView {
            themes: self.themes@.map_values(|p: (String, Colors)| (p.0@, p.1)),
            localization: self.localization@.map_values(
                |p: (String, LocalizationConfig)| (p.0@, (p.1.language@, p.1.display@)),
            ),
        }
    }
}

/// First-match lookup of a theme's colors.
pub open spec fn theme_colors_spec(themes: Seq<(Seq<char>, Colors)>, name: Seq<char>) -> Option<
    Colors,
>
    decreases themes.len(),
{
    if themes.len() == 0 {
        None
    } else if themes[0].0 == name {
        Some(themes[0].1)
    } else {
        theme_colors_spec(themes.skip(1), name)
    }
}

/// The theme names of a configuration, in configuration order.
pub open spec fn theme_names(c: ConfigView) -> Seq<Seq<char>> {
    c.themes.map_values(|p: (Seq<char>, Colors)| p.0)
}

/// The language codes of a configuration, in configuration order.
pub open spec fn language_codes(c: ConfigView) -> Seq<Seq<char>> {
    c.localization.map_values(|p: (Seq<char>, (Seq<char>, Seq<char>))| p.0)
}

/// The (code, display name) pairs of a configuration, in configuration
/// order.
pub open spec fn languages_with_display(c: ConfigView) -> Seq<(Seq<char>, Seq<char>)> {
    c.localization.map_values(|p: (Seq<char>, (Seq<char>, Seq<char>))| (p.0, p.1.1))
}

/// The colors of the named theme.
///
/// Returns exactly the colors stored under the first entry of that name,
/// and an error naming the theme when no entry carries it.
pub fn load_theme_colors(config: &Config, theme_name: &str) -> (r: Result<Colors, RextTuiError>)
    ensures
        ({
            match r {
                Ok(c) => theme_colors_spec(config@.themes, theme_name@) == Some(c),
                Err(e) => theme_colors_spec(config@.themes, theme_name@) is None && (match e {
                    RextTuiError::ThemeNotFound(n) => n@ == theme_name@,
                    _ => false,
                }),
            }
        }),
{
    let ghost all = config@.themes;
    let n = config.themes.len();
    let mut i: usize = 0;
    proof {
        assert(all.skip(0) =~= all);
    }
    while i < n
        invariant
            n == config.themes@.len(),
            i <= n,
            all == config@.themes,
            theme_colors_spec(all, theme_name@) == theme_colors_spec(
                all.skip(i as int),
                theme_name@,
            ),
        decreases n - i,
    {
        let e = &config.themes[i];
        proof {
            assert(all.skip(i as int)[0] == all[i as int]);
            assert(all.skip(i as int).skip(1) =~= all.skip(i as int + 1));
        }
        if crate::chars::str_eq(e.0.as_str(), theme_name) {
            return Ok(e.1);
        }
        i += 1;
    }
    proof {
        assert(all.skip(n as int) =~= Seq::<(Seq<char>, Colors)>::empty());
    }
    Err(RextTuiError::ThemeNotFound(theme_name.to_owned()))
}

/// The available theme names, in the loader's order (sorted by name by
/// the loader).
pub fn get_available_themes(config: &Config) -> (r: Vec<String>)
    ensures
        r@.map_values(|s: String| s@) == theme_names(config@),
{
    let mut r: Vec<String> = Vec::new();
    let n = config.themes.len();
    let mut i: usize = 0;
    while i < n
        invariant
            n == config.themes@.len(),
            i <= n,
            r@.len() == i,
            forall|j: int| 0 <= j < i ==> #[trigger] r@[j]@ == config.themes@[j].0@,
        decreases n - i,
    {
        let e = &config.themes[i];
        r.push(e.0.clone());
        i += 1;
    }
    assert(r@.map_values(|s: String| s@) =~= theme_names(config@));
    r
}

/// The available language codes, in the loader's order.
pub fn get_available_languages(config: &Config) -> (r: Vec<String>)
    ensures
        r@.map_values(|s: String| s@) == language_codes(config@),
{
    let mut r: Vec<String> = Vec::new();
    let n = config.localization.len();
    let mut i: usize = 0;
    while i < n
        invariant
            n == config.localization@.len(),
            i <= n,
            r@.len() == i,
            forall|j: int| 0 <= j < i ==> #[trigger] r@[j]@ == config.localization@[j].0@,
        decreases n - i,
    {
        let e = &config.localization[i];
        r.push(e.0.clone());
        i += 1;
    }
    assert(r@.map_values(|s: String| s@) =~= language_codes(config@));
    r
}

/// The available languages as (code, display name) pairs, in the
/// loader's order (sorted by display name by the loader).
pub fn get_available_languages_with_display(config: &Config) -> (r: Vec<(String, String)>)
    ensures
        entries_view(r@) == languages_with_display(config@),
{
    let mut r: Vec<(String, String)> = Vec::new();
    let n = config.localization.len();
    let mut i: usize = 0;
    while i < n
        invariant
            n == config.localization@.len(),
            i <= n,
            r@.len() == i,
            forall|j: int|
                0 <= j < i ==> #[trigger] r@[j].0@ == config.localization@[j].0@ && r@[j].1@
                    == config.localization@[j].1.display@,
        decreases n - i,
    {
        let e = &config.localization[i];
        r.push((e.0.clone(), e.1.display.clone()));
        i += 1;
    }
    assert(entries_view(r@) =~= languages_with_display(config@));
    r
}

} // verus!
