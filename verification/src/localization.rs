//! The localization resolver.
//!
//! Each language has a bundle of three string-keyed sections: `ui`
//! (display strings), `messages` (prompts) and `keys` (action name to
//! key specification).  A resolver holds the active bundle and the
//! English fallback; a lookup falls back key by key, and a missing key
//! resolves to a fixed sentinel, never to a failure.  Key bindings are
//! resolved through the parser of [`crate::keys`] and matched against
//! observed input events.

use crate::chars::str_eq;
use crate::error::RextTuiError;
use crate::keys::{
    code_matches, parse_key_string, spec_code_matches, spec_parse, KeyCode, KeyModifiers,
};
use vstd::prelude::*;
use vstd::seq_lib::*;

verus! {

/// Stores the localized texts: three sections of key/value pairs, looked
/// up by first match.  Invalid key specifications in `keys` are tolerated;
/// they resolve to "no binding".
pub struct LocalizedTexts {
    pub ui: Vec<(String, String)>,
    pub messages: Vec<(String, String)>,
    pub keys: Vec<(String, String)>,
}

/// The characters of every pair of a section, in order.
pub open spec fn entries_view(s: Seq<(String, String)>) -> Seq<(Seq<char>, Seq<char>)> {
    s.map_values(|p: (String, String)| (p.0@, p.1@))
}

/// First-match lookup in one section.
pub open spec fn lookup_spec(s: Seq<(Seq<char>, Seq<char>)>, k: Seq<char>) -> Option<Seq<char>>
    decreases s.len(),
{
    if s.len() == 0 {
        None
    } else if s[0].0 == k {
        Some(s[0].1)
    } else {
        lookup_spec(s.skip(1), k)
    }
}

/// The mathematical content of one bundle.
#[verifier::ext_equal]
pub ghost struct BundleView {
    pub ui: Seq<(Seq<char>, Seq<char>)>,
    pub messages: Seq<(Seq<char>, Seq<char>)>,
    pub keys: Seq<(Seq<char>, Seq<char>)>,
}

impl View for LocalizedTexts {
    type V = BundleView;

    open spec fn view(&self) -> BundleView {
        BundleView {
            ui: entries_view(self.ui@),
            messages: entries_view(self.messages@),
            keys: entries_view(self.keys@),
        }
    }
}

/// The mathematical content of a resolver: the active bundle and the
/// English fallback.
#[verifier::ext_equal]
pub ghost struct LocView {
    pub active: BundleView,
    pub fallback: BundleView,
}

/// The localization resolver.  The fallback is always fully present;
/// when loading the active language fails, the active bundle equals the
/// fallback.
pub struct Localization {
    texts: LocalizedTexts,
    fallback_texts: LocalizedTexts,
}

impl View for Localization {
    type V = LocView;

    closed spec fn view(&self) -> LocView {
        LocView { active: self.texts@, fallback: self.fallback_texts@ }
    }
}

/// The section of a bundle named by `section`, if the name is known.
pub open spec fn bundle_section(b: BundleView, section: Seq<char>) -> Option<
    Seq<(Seq<char>, Seq<char>)>,
> {
    if section == "ui"@ {
        Some(b.ui)
    } else if section == "messages"@ {
        Some(b.messages)
    } else if section == "keys"@ {
        Some(b.keys)
    } else {
        None
    }
}

/// What a lookup returns: the active value, else the fallback value,
/// else the missing-text sentinel; an unknown section name resolves to
/// its own sentinel.
pub open spec fn spec_get(l: LocView, section: Seq<char>, key: Seq<char>) -> Seq<char> {
    match bundle_section(l.active, section) {
        None => "Unknown section"@,
        Some(act) => match lookup_spec(act, key) {
            Some(v) => v,
            None => match bundle_section(l.fallback, section) {
                Some(fb) => match lookup_spec(fb, key) {
                    Some(v) => v,
                    None => "Missing text"@,
                },
                None => "Missing text"@,
            },
        },
    }
}

/// The key binding an action resolves to, if its specification parses.
pub open spec fn spec_bound(l: LocView, action: Seq<char>) -> Option<(KeyModifiers, KeyCode)> {
    spec_parse(spec_get(l, "keys"@, action))
}

/// Whether an observed event matches the binding of an action: an
/// unbound action matches nothing; a bound one asks for equal modifier
/// sets and a matching symbol.
pub open spec fn spec_matches(
    l: LocView,
    action: Seq<char>,
    modifiers: KeyModifiers,
    code: KeyCode,
) -> bool {
    match spec_bound(l, action) {
        None => false,
        Some(b) => b.0 == modifiers && spec_code_matches(b.1, code),
    }
}

/// The entries of a keys section whose specification fails to parse, in
/// section order.
pub open spec fn invalid_bindings(ks: Seq<(Seq<char>, Seq<char>)>) -> Seq<(Seq<char>, Seq<char>)>
    decreases ks.len(),
{
    if ks.len() == 0 {
        Seq::empty()
    } else {
        let rest = invalid_bindings(ks.skip(1));
        if spec_parse(ks[0].1) is None {
            seq![ks[0]] + rest
        } else {
            rest
        }
    }
}

/// The active bundle after a reload: English or a failed load fall back
/// to the fallback bundle; any other loaded bundle replaces the active
/// one.
pub open spec fn spec_reload_active(
    fallback: BundleView,
    lang: Seq<char>,
    loaded: Option<BundleView>,
) -> BundleView {
    if lang == "en"@ || loaded is None {
        fallback
    } else {
        loaded.unwrap()
    }
}

/// One example of each key string format the parser understands: plain
/// characters, symbolic names with their synonyms, function keys, and
/// single-modifier combinations.
pub open spec fn supported_key_formats() -> Seq<Seq<char>> {
    seq![
        "a"@,
        "q"@,
        "1"@,
        "2"@,
        "Esc"@,
        "Escape"@,
        "Enter"@,
        "Return"@,
        "Backspace"@,
        "Back"@,
        "Tab"@,
        "Delete"@,
        "Del"@,
        "Insert"@,
        "Ins"@,
        "Up"@,
        "Down"@,
        "Left"@,
        "Right"@,
        "UpArrow"@,
        "DownArrow"@,
        "LeftArrow"@,
        "RightArrow"@,
        "Home"@,
        "End"@,
        "PageUp"@,
        "PgUp"@,
        "PageDown"@,
        "PgDn"@,
        "F1"@,
        "F2"@,
        "F3"@,
        "F4"@,
        "F5"@,
        "F6"@,
        "F7"@,
        "F8"@,
        "F9"@,
        "F10"@,
        "F11"@,
        "F12"@,
        "Ctrl+C"@,
        "Shift+Tab"@,
        "Alt+Enter"@,
        "Control+A"@,
        "Shift+F1"@,
    ]
}

/// The view of an optionally loaded bundle.
pub open spec fn opt_bundle_view(o: Option<LocalizedTexts>) -> Option<BundleView> {
    match o {
        Some(b) => Some(b@),
        None => None,
    }
}

/// An element-wise copy of one section.
fn clone_entries(v: &Vec<(String, String)>) -> (r: Vec<(String, String)>)
    ensures
        entries_view(r@) == entries_view(v@),
{
    let mut r: Vec<(String, String)> = Vec::new();
    let mut i: usize = 0;
    while i < v.len()
        invariant
            i <= v@.len(),
            r@.len() == i,
            forall|j: int| 0 <= j < i ==> #[trigger] r@[j].0@ == v@[j].0@ && r@[j].1@ == v@[j].1@,
        decreases v@.len() - i,
    {
        let e = &v[i];
        r.push((e.0.clone(), e.1.clone()));
        i += 1;
    }
    assert(entries_view(r@) =~= entries_view(v@));
    r
}

impl Clone for LocalizedTexts {
    /// A copy with the same content.
    fn clone(&self) -> (r: Self)
        ensures
            r@ == self@,
    {
        let r = LocalizedTexts {
            ui: clone_entries(&self.ui),
            messages: clone_entries(&self.messages),
            keys: clone_entries(&self.keys),
        };
        proof {
            assert(r@ =~= self@);
        }
        r
    }
}

/// First-match lookup in one section.
fn lookup<'a>(entries: &'a Vec<(String, String)>, key: &str) -> (r: Option<&'a String>)
    ensures
        match r {
            Some(s) => lookup_spec(entries_view(entries@), key@) == Some(s@),
            None => lookup_spec(entries_view(entries@), key@) is None,
        },
{
    let ghost all = entries_view(entries@);
    let n = entries.len();
    let mut i: usize = 0;
    proof {
        assert(all.skip(0) =~= all);
    }
    while i < n
        invariant
            n == entries@.len(),
            i <= n,
            all == entries_view(entries@),
            lookup_spec(all, key@) == lookup_spec(all.skip(i as int), key@),
        decreases n - i,
    {
        let e = &entries[i];
        proof {
            assert(all.skip(i as int)[0] == all[i as int]);
            assert(all.skip(i as int).skip(1) =~= all.skip(i as int + 1));
        }
        if str_eq(e.0.as_str(), key) {
            return Some(&e.1);
        }
        i += 1;
    }
    proof {
        assert(all.skip(n as int) =~= Seq::<(Seq<char>, Seq<char>)>::empty());
    }
    None
}

impl Localization {
    /// Creates a resolver from the fallback (English) bundle and the
    /// bundle loaded for the requested language, if any.  Only a missing
    /// fallback is an error; a missing or failed language bundle, and
    /// the language `en` itself, leave the fallback active.
    pub fn new(lang: &str, fallback: Option<LocalizedTexts>, loaded: Option<LocalizedTexts>) -> (r:
        Result<Localization, RextTuiError>)
        ensures
            r is Err <==> fallback is None,
            r matches Err(e) ==> e == RextTuiError::FallbackUnavailable,
            ({
                match (r, fallback) {
                    (Ok(loc), Some(f)) => loc@.fallback == f@ && loc@.active == spec_reload_active(
                        f@,
                        lang@,
                        opt_bundle_view(loaded),
                    ),
                    _ => true,
                }
            }),
    {
        match fallback {
            None => Err(RextTuiError::FallbackUnavailable),
            Some(f) => {
                let texts = if str_eq(lang, "en") {
                    f.clone()
                } else {
                    match loaded {
                        Some(b) => b,
                        None => f.clone(),
                    }
                };
                Ok(Localization { texts, fallback_texts: f })
            },
        }
    }

    /// Replaces the active bundle for a newly selected language; the
    /// fallback bundle is never touched.  `en`, or a load that failed,
    /// reinstates the fallback.
    pub fn reload(&mut self, lang: &str, loaded: Option<LocalizedTexts>) -> (r: Result<
        (),
        RextTuiError,
    >)
        ensures
            r is Ok,
            final(self)@.fallback == old(self)@.fallback,
            final(self)@.active == spec_reload_active(
                old(self)@.fallback,
                lang@,
                opt_bundle_view(loaded),
            ),
    {
        let texts = if str_eq(lang, "en") {
            self.fallback_texts.clone()
        } else {
            match loaded {
                Some(b) => b,
                None => self.fallback_texts.clone(),
            }
        };
        self.texts = texts;
        Ok(())
    }

    /// Collects the key bindings of the active bundle whose
    /// specification does not parse, as (action, specification) pairs in
    /// section order.  The caller reports them; they are never fatal.
    pub fn validate_key_bindings(&self) -> (r: Vec<(String, String)>)
        ensures
            entries_view(r@) == invalid_bindings(self@.active.keys),
    {
        let ghost ks = self@.active.keys;
        let mut r: Vec<(String, String)> = Vec::new();
        let n = self.texts.keys.len();
        let mut i: usize = 0;
        proof {
            assert(ks.skip(0) =~= ks);
            assert(entries_view(r@) + invalid_bindings(ks) =~= invalid_bindings(ks));
        }
        while i < n
            invariant
                n == self.texts.keys@.len(),
                i <= n,
                ks == self@.active.keys,
                invalid_bindings(ks) == entries_view(r@) + invalid_bindings(ks.skip(i as int)),
            decreases n - i,
        {
            let ghost prev = entries_view(r@);
            let ghost rest = ks.skip(i as int);
            let e = &self.texts.keys[i];
            let parsed = parse_key_string(e.1.as_str());
            proof {
                assert(rest[0] == ks[i as int]);
                assert(ks[i as int] == (e.0@, e.1@));
                assert(rest.skip(1) =~= ks.skip(i as int + 1));
            }
            if parsed.is_none() {
                r.push((e.0.clone(), e.1.clone()));
                proof {
                    assert(entries_view(r@) =~= prev.push((e.0@, e.1@)));
                    assert(entries_view(r@) =~= prev + seq![ks[i as int]]);
                    assert((prev + seq![ks[i as int]]) + invalid_bindings(ks.skip(i as int + 1))
                        =~= prev + (seq![ks[i as int]] + invalid_bindings(ks.skip(i as int + 1))));
                }
            }
            i += 1;
        }
        proof {
            assert(ks.skip(n as int) =~= Seq::<(Seq<char>, Seq<char>)>::empty());
            assert(entries_view(r@) + invalid_bindings(ks.skip(n as int)) =~= entries_view(r@));
        }
        r
    }

    /// The localized text for a section and key: the active value, else
    /// the English value, else the missing-text sentinel.  An unknown
    /// section name yields its own sentinel; nothing here can fail.
    pub fn get<'a>(&'a self, section: &str, key: &str) -> (r: &'a str)
        ensures
            r@ == spec_get(self@, section@, key@),
    {
        let active_section: &Vec<(String, String)>;
        let fallback_section: &Vec<(String, String)>;
        if str_eq(section, "ui") {
            active_section = &self.texts.ui;
            fallback_section = &self.fallback_texts.ui;
        } else if str_eq(section, "messages") {
            active_section = &self.texts.messages;
            fallback_section = &self.fallback_texts.messages;
        } else if str_eq(section, "keys") {
            active_section = &self.texts.keys;
            fallback_section = &self.fallback_texts.keys;
        } else {
            return "Unknown section";
        }
        match lookup(active_section, key) {
            Some(v) => v.as_str(),
            None => match lookup(fallback_section, key) {
                Some(v) => v.as_str(),
                None => "Missing text",
            },
        }
    }

    /// Convenience lookup in the `ui` section.
    pub fn ui<'a>(&'a self, key: &str) -> (r: &'a str)
        ensures
            r@ == spec_get(self@, "ui"@, key@),
    {
        self.get("ui", key)
    }

    /// Convenience lookup in the `messages` section.
    pub fn msg<'a>(&'a self, key: &str) -> (r: &'a str)
        ensures
            r@ == spec_get(self@, "messages"@, key@),
    {
        self.get("messages", key)
    }

    /// Convenience lookup in the `keys` section.
    pub fn key<'a>(&'a self, key: &str) -> (r: &'a str)
        ensures
            r@ == spec_get(self@, "keys"@, key@),
    {
        self.get("keys", key)
    }

    /// The key string formats the parser understands, one example each,
    /// for documentation.
    pub fn get_supported_key_formats() -> (r: Vec<&'static str>)
        ensures
            r.deep_view() == supported_key_formats(),
    {
        let r: Vec<&'static str> = vec![
            "a",
            "q",
            "1",
            "2",
            "Esc",
            "Escape",
            "Enter",
            "Return",
            "Backspace",
            "Back",
            "Tab",
            "Delete",
            "Del",
            "Insert",
            "Ins",
            "Up",
            "Down",
            "Left",
            "Right",
            "UpArrow",
            "DownArrow",
            "LeftArrow",
            "RightArrow",
            "Home",
            "End",
            "PageUp",
            "PgUp",
            "PageDown",
            "PgDn",
            "F1",
            "F2",
            "F3",
            "F4",
            "F5",
            "F6",
            "F7",
            "F8",
            "F9",
            "F10",
            "F11",
            "F12",
            "Ctrl+C",
            "Shift+Tab",
            "Alt+Enter",
            "Control+A",
            "Shift+F1",
        ];
        assert(r.deep_view() =~= supported_key_formats());
        r
    }

    /// The key binding for an action, if the resolved specification
    /// parses.
    pub fn get_key_code(&self, action: &str) -> (r: Option<(KeyModifiers, KeyCode)>)
        ensures
            r == spec_bound(self@, action@),
    {
        let key_str = self.key(action);
        parse_key_string(key_str)
    }

    /// Whether an observed input event matches the key bound to an
    /// action.  Character symbols compare case-insensitively under equal
    /// modifier sets; every other symbol compares exactly; an unbound or
    /// invalid action matches nothing.
    pub fn matches_key(&self, action: &str, modifiers: KeyModifiers, code: KeyCode) -> (r: bool)
        ensures
            r == spec_matches(self@, action@, modifiers, code),
    {
        match self.get_key_code(action) {
            Some(b) => b.0 == modifiers && code_matches(b.1, code),
            None => false,
        }
    }
}

/// Law: an action whose resolved key specification does not parse
/// matches no observed event, whatever the modifiers and symbol.
pub proof fn lemma_unbound_never_matches(
    l: LocView,
    action: Seq<char>,
    modifiers: KeyModifiers,
    code: KeyCode,
)
    requires
        spec_bound(l, action) is None,
    ensures
        !spec_matches(l, action, modifiers, code),
{
}

/// Law: reloading any language and then reloading English restores the
/// initial English state exactly: the fallback is never changed, and the
/// active bundle equals the fallback again.
pub proof fn lemma_reload_round_trip(
    initial: LocView,
    lang1: Seq<char>,
    loaded1: Option<BundleView>,
    loaded2: Option<BundleView>,
)
    requires
        initial.active == initial.fallback,
    ensures
        ({
            let mid = LocView {
                active: spec_reload_active(initial.fallback, lang1, loaded1),
                fallback: initial.fallback,
            };
            let last = LocView {
                active: spec_reload_active(mid.fallback, "en"@, loaded2),
                fallback: mid.fallback,
            };
            last == initial
        }),
{
    assert(LocView {
        active: spec_reload_active(initial.fallback, "en"@, loaded2),
        fallback: initial.fallback,
    } =~= initial);
}

} // verus!
