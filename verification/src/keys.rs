//! The key-specification parser.
//!
//! A key specification is a human-readable string such as `"q"`, `"Esc"` or
//! `"Ctrl+C"` taken from user-editable configuration.  Parsing turns it into
//! a `(KeyModifiers, KeyCode)` pair; anything malformed parses to `None` and
//! never aborts.  Symbolic names and modifier names are matched
//! case-insensitively; a single-character specification keeps its case.

use crate::chars::{
    eq_str, is_space, lower_char, lower_char_exec, lower_seq, lower_vec, sub_vec, to_chars,
    trim_end_spec, trim_spec, trim_start_spec, trim_vec,
};
use vstd::prelude::*;

verus! {

/// The modifier keys a binding may require: a set over control, shift
/// and alt.  The empty set is a valid value (no modifier).
#[derive(Clone, Copy, Debug, PartialEq, Eq, Structural)]
pub struct KeyModifiers {
    pub control: bool,
    pub shift: bool,
    pub alt: bool,
}

/// The empty modifier set.
pub open spec fn no_mods() -> KeyModifiers {
    KeyModifiers { control: false, shift: false, alt: false }
}

impl KeyModifiers {
    /// The empty modifier set.
    pub fn none() -> (r: KeyModifiers)
        ensures
            r == no_mods(),
    {
        KeyModifiers { control: false, shift: false, alt: false }
    }

    /// The set holding exactly control.
    pub fn control() -> (r: KeyModifiers)
        ensures
            r == (KeyModifiers { control: true, shift: false, alt: false }),
    {
        KeyModifiers { control: true, shift: false, alt: false }
    }

    /// The set holding exactly shift.
    pub fn shift() -> (r: KeyModifiers)
        ensures
            r == (KeyModifiers { control: false, shift: true, alt: false }),
    {
        KeyModifiers { control: false, shift: true, alt: false }
    }

    /// The set holding exactly alt.
    pub fn alt() -> (r: KeyModifiers)
        ensures
            r == (KeyModifiers { control: false, shift: false, alt: true }),
    {
        KeyModifiers { control: false, shift: false, alt: true }
    }
}

/// The key symbols a terminal input backend can deliver and a
/// specification can name.  `F(n)` is only ever produced with
/// `1 <= n <= 12`.
#[derive(Clone, Copy, Debug, PartialEq, Eq, Structural)]
pub enum KeyCode {
    Char(char),
    Esc,
    Enter,
    Backspace,
    Tab,
    Delete,
    Insert,
    Up,
    Down,
    Left,
    Right,
    Home,
    End,
    PageUp,
    PageDown,
    F(u8),
}

/// One key press, as the input backend hands it over.
#[derive(Clone, Copy, Debug, PartialEq, Eq, Structural)]
pub struct KeyEvent {
    pub code: KeyCode,
    pub modifiers: KeyModifiers,
}

impl KeyEvent {
    /// An event for a bare symbol, with no modifier held.
    pub fn plain(code: KeyCode) -> (r: KeyEvent)
        ensures
            r == (KeyEvent { code, modifiers: no_mods() }),
    {
        KeyEvent { code, modifiers: KeyModifiers::none() }
    }

    /// An event for a symbol with a modifier set.
    pub fn with_modifiers(code: KeyCode, modifiers: KeyModifiers) -> (r: KeyEvent)
        ensures
            r == (KeyEvent { code, modifiers }),
    {
        KeyEvent { code, modifiers }
    }
}

/// The symbol named by an already lower-cased token, if any.
pub open spec fn spec_symbol(l: Seq<char>) -> Option<KeyCode> {
    if l == "esc"@ || l == "escape"@ {
        Some(KeyCode::Esc)
    } else if l == "enter"@ || l == "return"@ {
        Some(KeyCode::Enter)
    } else if l == "backspace"@ || l == "back"@ {
        Some(KeyCode::Backspace)
    } else if l == "tab"@ {
        Some(KeyCode::Tab)
    } else if l == "delete"@ || l == "del"@ {
        Some(KeyCode::Delete)
    } else if l == "insert"@ || l == "ins"@ {
        Some(KeyCode::Insert)
    } else if l == "up"@ || l == "uparrow"@ {
        Some(KeyCode::Up)
    } else if l == "down"@ || l == "downarrow"@ {
        Some(KeyCode::Down)
    } else if l == "left"@ || l == "leftarrow"@ {
        Some(KeyCode::Left)
    } else if l == "right"@ || l == "rightarrow"@ {
        Some(KeyCode::Right)
    } else if l == "home"@ {
        Some(KeyCode::Home)
    } else if l == "end"@ {
        Some(KeyCode::End)
    } else if l == "pageup"@ || l == "pgup"@ {
        Some(KeyCode::PageUp)
    } else if l == "pagedown"@ || l == "pgdn"@ {
        Some(KeyCode::PageDown)
    } else if l == "f1"@ {
        Some(KeyCode::F(1))
    } else if l == "f2"@ {
        Some(KeyCode::F(2))
    } else if l == "f3"@ {
        Some(KeyCode::F(3))
    } else if l == "f4"@ {
        Some(KeyCode::F(4))
    } else if l == "f5"@ {
        Some(KeyCode::F(5))
    } else if l == "f6"@ {
        Some(KeyCode::F(6))
    } else if l == "f7"@ {
        Some(KeyCode::F(7))
    } else if l == "f8"@ {
        Some(KeyCode::F(8))
    } else if l == "f9"@ {
        Some(KeyCode::F(9))
    } else if l == "f10"@ {
        Some(KeyCode::F(10))
    } else if l == "f11"@ {
        Some(KeyCode::F(11))
    } else if l == "f12"@ {
        Some(KeyCode::F(12))
    } else {
        None
    }
}

/// The sequence holds a `+` somewhere.
pub open spec fn has_plus(s: Seq<char>) -> bool {
    exists|i: int| 0 <= i < s.len() && #[trigger] s[i] == '+'
}

/// The index of the first `+`.
pub open spec fn first_plus(s: Seq<char>) -> int
    decreases s.len(),
{
    if s.len() == 0 {
        0
    } else if s[0] == '+' {
        0
    } else {
        1 + first_plus(s.skip(1))
    }
}

/// What parsing an already trimmed token without `+` yields: a symbolic
/// name matched case-insensitively, else a single character kept as it is.
pub open spec fn spec_parse_single(t: Seq<char>) -> Option<(KeyModifiers, KeyCode)> {
    match spec_symbol(lower_seq(t)) {
        Some(code) => Some((no_mods(), code)),
        None => if t.len() == 1 {
            Some((no_mods(), KeyCode::Char(t[0])))
        } else {
            None
        },
    }
}

/// What parsing a `Modifier+Key` combination yields.  Only a single
/// modifier is supported: a second `+` makes the specification invalid.
pub open spec fn spec_parse_modified(t: Seq<char>) -> Option<(KeyModifiers, KeyCode)> {
    if !has_plus(t) {
        None
    } else {
        let i = first_plus(t);
        if has_plus(t.skip(i + 1)) {
            None
        } else {
            let m = lower_seq(trim_spec(t.subrange(0, i)));
            let kp = trim_spec(t.skip(i + 1));
            let mods: Option<KeyModifiers> = if m == "ctrl"@ || m == "control"@ {
                Some(KeyModifiers { control: true, shift: false, alt: false })
            } else if m == "shift"@ {
                Some(KeyModifiers { control: false, shift: true, alt: false })
            } else if m == "alt"@ {
                Some(KeyModifiers { control: false, shift: false, alt: true })
            } else {
                None
            };
            match mods {
                None => None,
                Some(ms) => match spec_parse_single(kp) {
                    Some(p) => Some((ms, p.1)),
                    None => None,
                },
            }
        }
    }
}

/// What parsing a whole key specification yields.
pub open spec fn spec_parse(s: Seq<char>) -> Option<(KeyModifiers, KeyCode)> {
    let t = trim_spec(s);
    if has_plus(t) {
        spec_parse_modified(t)
    } else {
        spec_parse_single(t)
    }
}

/// A scan that saw no `+` before `i` and a `+` at `i` found the first one.
proof fn lemma_first_plus_at(s: Seq<char>, i: int)
    requires
        0 <= i < s.len(),
        s[i] == '+',
        forall|j: int| 0 <= j < i ==> s[j] != '+',
    ensures
        first_plus(s) == i,
    decreases i,
{
    if i > 0 {
        lemma_first_plus_at(s.skip(1), i - 1);
    }
}

/// Exec match of a lower-cased token against the symbol table.
fn parse_symbol(l: &Vec<char>) -> (r: Option<KeyCode>)
    ensures
        r == spec_symbol(l@),
{
    if eq_str(l, "esc") || eq_str(l, "escape") {
        Some(KeyCode::Esc)
    } else if eq_str(l, "enter") || eq_str(l, "return") {
        Some(KeyCode::Enter)
    } else if eq_str(l, "backspace") || eq_str(l, "back") {
        Some(KeyCode::Backspace)
    } else if eq_str(l, "tab") {
        Some(KeyCode::Tab)
    } else if eq_str(l, "delete") || eq_str(l, "del") {
        Some(KeyCode::Delete)
    } else if eq_str(l, "insert") || eq_str(l, "ins") {
        Some(KeyCode::Insert)
    } else if eq_str(l, "up") || eq_str(l, "uparrow") {
        Some(KeyCode::Up)
    } else if eq_str(l, "down") || eq_str(l, "downarrow") {
        Some(KeyCode::Down)
    } else if eq_str(l, "left") || eq_str(l, "leftarrow") {
        Some(KeyCode::Left)
    } else if eq_str(l, "right") || eq_str(l, "rightarrow") {
        Some(KeyCode::Right)
    } else if eq_str(l, "home") {
        Some(KeyCode::Home)
    } else if eq_str(l, "end") {
        Some(KeyCode::End)
    } else if eq_str(l, "pageup") || eq_str(l, "pgup") {
        Some(KeyCode::PageUp)
    } else if eq_str(l, "pagedown") || eq_str(l, "pgdn") {
        Some(KeyCode::PageDown)
    } else if eq_str(l, "f1") {
        Some(KeyCode::F(1))
    } else if eq_str(l, "f2") {
        Some(KeyCode::F(2))
    } else if eq_str(l, "f3") {
        Some(KeyCode::F(3))
    } else if eq_str(l, "f4") {
        Some(KeyCode::F(4))
    } else if eq_str(l, "f5") {
        Some(KeyCode::F(5))
    } else if eq_str(l, "f6") {
        Some(KeyCode::F(6))
    } else if eq_str(l, "f7") {
        Some(KeyCode::F(7))
    } else if eq_str(l, "f8") {
        Some(KeyCode::F(8))
    } else if eq_str(l, "f9") {
        Some(KeyCode::F(9))
    } else if eq_str(l, "f10") {
        Some(KeyCode::F(10))
    } else if eq_str(l, "f11") {
        Some(KeyCode::F(11))
    } else if eq_str(l, "f12") {
        Some(KeyCode::F(12))
    } else {
        None
    }
}

/// Exec parsing of an already trimmed token without `+`.
fn parse_single_vec(t: &Vec<char>) -> (r: Option<(KeyModifiers, KeyCode)>)
    ensures
        r == spec_parse_single(t@),
{
    let l = lower_vec(t);
    match parse_symbol(&l) {
        Some(code) => Some((KeyModifiers::none(), code)),
        None => {
            if t.len() == 1 {
                Some((KeyModifiers::none(), KeyCode::Char(t[0])))
            } else {
                None
            }
        },
    }
}

/// Exec parsing of a trimmed specification that holds a `+`.
fn parse_modified_vec(t: &Vec<char>) -> (r: Option<(KeyModifiers, KeyCode)>)
    ensures
        r == spec_parse_modified(t@),
{
    let mut i: usize = 0;
    while i < t.len() && t[i] != '+'
        invariant
            i <= t@.len(),
            forall|j: int| 0 <= j < i ==> t@[j] != '+',
        decreases t@.len() - i,
    {
        i += 1;
    }
    if i == t.len() {
        assert(!has_plus(t@));
        return None;
    }
    proof {
        lemma_first_plus_at(t@, i as int);
    }
    let mut j: usize = i + 1;
    while j < t.len() && t[j] != '+'
        invariant
            i < j <= t@.len(),
            forall|k: int| i < k < j ==> t@[k] != '+',
        decreases t@.len() - j,
    {
        j += 1;
    }
    if j < t.len() {
        assert(t@.skip(i as int + 1)[j as int - i as int - 1] == '+');
        assert(has_plus(t@.skip(i as int + 1)));
        return None;
    }
    assert(!has_plus(t@.skip(i as int + 1))) by {
        assert forall|k: int| 0 <= k < t@.skip(i as int + 1).len() implies #[trigger] t@.skip(
            i as int + 1,
        )[k] != '+' by {
            assert(t@.skip(i as int + 1)[k] == t@[i + 1 + k]);
        }
    }
    let head = sub_vec(t, 0, i);
    let head_trimmed = trim_vec(&head);
    let m = lower_vec(&head_trimmed);
    let mods: Option<KeyModifiers> = if eq_str(&m, "ctrl") || eq_str(&m, "control") {
        Some(KeyModifiers::control())
    } else if eq_str(&m, "shift") {
        Some(KeyModifiers::shift())
    } else if eq_str(&m, "alt") {
        Some(KeyModifiers::alt())
    } else {
        None
    };
    match mods {
        None => None,
        Some(ms) => {
            let tail = sub_vec(t, i + 1, t.len());
            assert(tail@ =~= t@.skip(i as int + 1));
            let kp = trim_vec(&tail);
            match parse_single_vec(&kp) {
                Some(p) => Some((ms, p.1)),
                None => None,
            }
        },
    }
}

/// Parses a key specification into a modifier set and a key symbol.
///
/// Whitespace around the specification is ignored.  Symbolic names such
/// as `Esc`, `Enter` or `F7` and the modifier names `Ctrl`, `Control`,
/// `Shift` and `Alt` are matched case-insensitively; a specification of
/// exactly one character stands for that character, case preserved.
/// Anything else — an empty string, an unknown name, a missing key after
/// the modifier, or more than one `+` — yields `None`.
pub fn parse_key_string(key_str: &str) -> (r: Option<(KeyModifiers, KeyCode)>)
    ensures
        r == spec_parse(key_str@),
{
    let cs = to_chars(key_str);
    let t = trim_vec(&cs);
    let mut has: bool = false;
    let mut i: usize = 0;
    while i < t.len()
        invariant
            i <= t@.len(),
            has == exists|j: int| 0 <= j < i && #[trigger] t@[j] == '+',
        decreases t@.len() - i,
    {
        if t[i] == '+' {
            has = true;
        }
        i += 1;
    }
    assert(has == has_plus(t@));
    if has {
        parse_modified_vec(&t)
    } else {
        parse_single_vec(&t)
    }
}

/// Parses a `Modifier+Key` combination such as `"Ctrl+C"`.
///
/// The two segments are trimmed and matched as in [`parse_key_string`];
/// a specification without `+`, or with more than one, yields `None`.
pub fn parse_modified_key(key_str: &str) -> (r: Option<(KeyModifiers, KeyCode)>)
    ensures
        r == spec_parse_modified(key_str@),
{
    let cs = to_chars(key_str);
    parse_modified_vec(&cs)
}

/// Whether an observed key symbol matches a bound one: characters are
/// compared case-insensitively, every other symbol by equality.
pub open spec fn spec_code_matches(bound: KeyCode, observed: KeyCode) -> bool {
    match (bound, observed) {
        (KeyCode::Char(b), KeyCode::Char(o)) => b == o || lower_char(b) == lower_char(o),
        _ => bound == observed,
    }
}

/// Lower-casing does not change whether a character is whitespace or `+`.
proof fn lemma_lower_char_kind(c: char)
    ensures
        is_space(lower_char(c)) == is_space(c),
        (lower_char(c) == '+') == (c == '+'),
{
}

/// Lower-casing commutes with removing leading whitespace.
proof fn lemma_trim_start_lower(s: Seq<char>)
    ensures
        trim_start_spec(lower_seq(s)) == lower_seq(trim_start_spec(s)),
    decreases s.len(),
{
    if s.len() > 0 && is_space(s[0]) {
        lemma_lower_char_kind(s[0]);
        assert(lower_seq(s)[0] == lower_char(s[0]));
        assert(lower_seq(s).skip(1) =~= lower_seq(s.skip(1)));
        lemma_trim_start_lower(s.skip(1));
    } else if s.len() > 0 {
        lemma_lower_char_kind(s[0]);
        assert(lower_seq(s)[0] == lower_char(s[0]));
    }
}

/// Lower-casing commutes with removing trailing whitespace.
proof fn lemma_trim_end_lower(s: Seq<char>)
    ensures
        trim_end_spec(lower_seq(s)) == lower_seq(trim_end_spec(s)),
    decreases s.len(),
{
    if s.len() > 0 && is_space(s[s.len() - 1]) {
        lemma_lower_char_kind(s[s.len() - 1]);
        assert(lower_seq(s)[s.len() - 1] == lower_char(s[s.len() - 1]));
        assert(lower_seq(s).drop_last() =~= lower_seq(s.drop_last()));
        lemma_trim_end_lower(s.drop_last());
    } else if s.len() > 0 {
        lemma_lower_char_kind(s[s.len() - 1]);
        assert(lower_seq(s)[s.len() - 1] == lower_char(s[s.len() - 1]));
    }
}

/// Lower-casing commutes with trimming.
proof fn lemma_trim_lower(s: Seq<char>)
    ensures
        trim_spec(lower_seq(s)) == lower_seq(trim_spec(s)),
{
    lemma_trim_start_lower(s);
    lemma_trim_end_lower(trim_start_spec(s));
}

/// Two sequences with `+` at the same places have the same first `+`.
proof fn lemma_first_plus_congruent(x: Seq<char>, y: Seq<char>)
    requires
        x.len() == y.len(),
        forall|i: int| 0 <= i < x.len() ==> ((#[trigger] x[i] == '+') == (#[trigger] y[i] == '+')),
    ensures
        has_plus(x) == has_plus(y),
        first_plus(x) == first_plus(y),
    decreases x.len(),
{
    assert(has_plus(x) == has_plus(y)) by {
        if has_plus(x) {
            let i = choose|i: int| 0 <= i < x.len() && x[i] == '+';
            assert(y[i] == '+');
        }
        if has_plus(y) {
            let i = choose|i: int| 0 <= i < y.len() && y[i] == '+';
            assert(x[i] == '+');
        }
    }
    if x.len() > 0 && x[0] != '+' {
        assert forall|i: int| 0 <= i < x.skip(1).len() implies ((#[trigger] x.skip(1)[i] == '+') == (
        #[trigger] y.skip(1)[i] == '+')) by {
            assert(x.skip(1)[i] == x[i + 1]);
            assert(y.skip(1)[i] == y[i + 1]);
        }
        lemma_first_plus_congruent(x.skip(1), y.skip(1));
    }
}

/// The `+` places of a sequence and of its lower-casing agree.
proof fn lemma_plus_places_lower(x: Seq<char>)
    ensures
        forall|i: int|
            0 <= i < x.len() ==> ((#[trigger] x[i] == '+') == (#[trigger] lower_seq(x)[i] == '+')),
        lower_seq(x).len() == x.len(),
{
    assert forall|i: int| 0 <= i < x.len() implies ((#[trigger] x[i] == '+') == (
    #[trigger] lower_seq(x)[i] == '+')) by {
        lemma_lower_char_kind(x[i]);
    }
}

/// Law: a specification of exactly one character that is neither
/// whitespace nor `+` parses to that character, case preserved, with the
/// empty modifier set.
pub proof fn lemma_parse_single_char(s: Seq<char>)
    requires
        s.len() == 1,
        !is_space(s[0]),
        s[0] != '+',
    ensures
        spec_parse(s) == Some((no_mods(), KeyCode::Char(s[0]))),
{
    assert(trim_start_spec(s) == s);
    assert(trim_end_spec(s) == s);
    assert(trim_spec(s) == s);
    assert(!has_plus(s));
    reveal_strlit("esc");
    reveal_strlit("escape");
    reveal_strlit("enter");
    reveal_strlit("return");
    reveal_strlit("backspace");
    reveal_strlit("back");
    reveal_strlit("tab");
    reveal_strlit("delete");
    reveal_strlit("del");
    reveal_strlit("insert");
    reveal_strlit("ins");
    reveal_strlit("up");
    reveal_strlit("uparrow");
    reveal_strlit("down");
    reveal_strlit("downarrow");
    reveal_strlit("left");
    reveal_strlit("leftarrow");
    reveal_strlit("right");
    reveal_strlit("rightarrow");
    reveal_strlit("home");
    reveal_strlit("end");
    reveal_strlit("pageup");
    reveal_strlit("pgup");
    reveal_strlit("pagedown");
    reveal_strlit("pgdn");
    reveal_strlit("f1");
    reveal_strlit("f2");
    reveal_strlit("f3");
    reveal_strlit("f4");
    reveal_strlit("f5");
    reveal_strlit("f6");
    reveal_strlit("f7");
    reveal_strlit("f8");
    reveal_strlit("f9");
    reveal_strlit("f10");
    reveal_strlit("f11");
    reveal_strlit("f12");
    assert(lower_seq(s).len() == 1);
    assert(spec_symbol(lower_seq(s)) is None);
}

/// Law: the result of parsing, other than the preserved case of a plain
/// character, depends only on the lower-cased specification.  Two
/// specifications equal up to ASCII case parse to the same modifier set
/// and, when the symbol is not a character, to the same symbol.
pub proof fn lemma_parse_case_insensitive(
    s: Seq<char>,
    t: Seq<char>,
    m: KeyModifiers,
    code: KeyCode,
)
    requires
        lower_seq(s) == lower_seq(t),
        spec_parse(s) == Some((m, code)),
        !(code is Char),
    ensures
        spec_parse(t) == Some((m, code)),
{
    lemma_trim_lower(s);
    lemma_trim_lower(t);
    let ts = trim_spec(s);
    let tt = trim_spec(t);
    assert(lower_seq(ts) == lower_seq(tt));
    assert(lower_seq(ts).len() == ts.len());
    assert(lower_seq(tt).len() == tt.len());
    lemma_plus_places_lower(ts);
    lemma_plus_places_lower(tt);
    assert forall|i: int| 0 <= i < ts.len() implies ((#[trigger] ts[i] == '+') == (#[trigger] tt[i]
        == '+')) by {
        assert(lower_seq(ts)[i] == lower_seq(tt)[i]);
    }
    lemma_first_plus_congruent(ts, tt);
    if !has_plus(ts) {
        assert(spec_parse_single(ts) == Some((m, code)));
        assert(spec_symbol(lower_seq(ts)) is Some) by {
            if spec_symbol(lower_seq(ts)) is None {
                assert(ts.len() == 1 && code == KeyCode::Char(ts[0]));
            }
        }
        assert(spec_parse_single(tt) == Some((m, code)));
    } else {
        let i = first_plus(ts);
        assert(i == first_plus(tt));
        assert(0 <= i < ts.len()) by {
            lemma_first_plus_in_range(ts);
        }
        assert forall|k: int| 0 <= k < ts.skip(i + 1).len() implies ((#[trigger] ts.skip(i + 1)[k]
            == '+') == (#[trigger] tt.skip(i + 1)[k] == '+')) by {
            assert(ts.skip(i + 1)[k] == ts[i + 1 + k]);
            assert(tt.skip(i + 1)[k] == tt[i + 1 + k]);
        }
        lemma_first_plus_congruent(ts.skip(i + 1), tt.skip(i + 1));
        if !has_plus(ts.skip(i + 1)) {
            assert(lower_seq(ts.subrange(0, i)) =~= lower_seq(ts).subrange(0, i));
            assert(lower_seq(tt.subrange(0, i)) =~= lower_seq(tt).subrange(0, i));
            lemma_trim_lower(ts.subrange(0, i));
            lemma_trim_lower(tt.subrange(0, i));
            assert(lower_seq(trim_spec(ts.subrange(0, i))) == lower_seq(
                trim_spec(tt.subrange(0, i)),
            ));
            assert(lower_seq(ts.skip(i + 1)) =~= lower_seq(ts).skip(i + 1));
            assert(lower_seq(tt.skip(i + 1)) =~= lower_seq(tt).skip(i + 1));
            lemma_trim_lower(ts.skip(i + 1));
            lemma_trim_lower(tt.skip(i + 1));
            let kps = trim_spec(ts.skip(i + 1));
            let kpt = trim_spec(tt.skip(i + 1));
            assert(lower_seq(kps) == lower_seq(kpt));
            assert(spec_symbol(lower_seq(kps)) is Some) by {
                if spec_symbol(lower_seq(kps)) is None {
                    assert(kps.len() == 1 && code == KeyCode::Char(kps[0]));
                }
            }
        }
    }
}

/// When a sequence holds a `+`, the first one lies inside it.
proof fn lemma_first_plus_in_range(s: Seq<char>)
    requires
        has_plus(s),
    ensures
        0 <= first_plus(s) < s.len(),
        s[first_plus(s)] == '+',
    decreases s.len(),
{
    if s.len() > 0 && s[0] != '+' {
        assert(has_plus(s.skip(1))) by {
            let i = choose|i: int| 0 <= i < s.len() && s[i] == '+';
            assert(s.skip(1)[i - 1] == '+');
        }
        lemma_first_plus_in_range(s.skip(1));
        assert(s[first_plus(s)] == s.skip(1)[first_plus(s.skip(1))]);
    }
}

/// Exec check of `spec_code_matches`.
pub fn code_matches(bound: KeyCode, observed: KeyCode) -> (r: bool)
    ensures
        r == spec_code_matches(bound, observed),
{
    match (bound, observed) {
        (KeyCode::Char(b), KeyCode::Char(o)) => {
            b == o || lower_char_exec(b) == lower_char_exec(o)
        },
        _ => bound == observed,
    }
}

} // verus!
