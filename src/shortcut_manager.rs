//! Global hotkey strings such as "Alt+V" or "Ctrl+Shift+C": their grammar,
//! and the modifier set and key that a valid one names.

use vstd::prelude::*;
use crate::text::{chars_of, lower_of, lowercase, string_of};

verus! {

/// What `str::trim` yields: the string without leading and trailing white
/// space, a function of its characters alone.
pub uninterp spec fn trimmed_of(s: Seq<char>) -> Seq<char>;

/// Relies on `str::trim`: the string without leading and trailing white space.
#[verifier::external_body]
fn trim(s: &str) -> (r: String)
    ensures
        r@ == trimmed_of(s@),
{
    s.trim().to_string()
}

/// The modifier keys of a hotkey.
#[derive(Debug, Clone, Copy, PartialEq, Eq, Structural)]
pub struct HotkeyModifiers {
    pub alt: bool,
    pub ctrl: bool,
    pub shift: bool,
    pub meta: bool,
}

/// The main key of a hotkey.
#[derive(Debug, Clone, Copy, PartialEq, Eq, Structural)]
pub enum KeyCode {
    KeyA,
    KeyB,
    KeyC,
    KeyD,
    KeyE,
    KeyF,
    KeyG,
    KeyH,
    KeyI,
    KeyJ,
    KeyK,
    KeyL,
    KeyM,
    KeyN,
    KeyO,
    KeyP,
    KeyQ,
    KeyR,
    KeyS,
    KeyT,
    KeyU,
    KeyV,
    KeyW,
    KeyX,
    KeyY,
    KeyZ,
    Digit0,
    Digit1,
    Digit2,
    Digit3,
    Digit4,
    Digit5,
    Digit6,
    Digit7,
    Digit8,
    Digit9,
    F1,
    F2,
    F3,
    F4,
    F5,
    F6,
    F7,
    F8,
    F9,
    F10,
    F11,
    F12,
    Space,
    Enter,
    Escape,
    Tab,
    Backspace,
    Delete,
    Insert,
    Home,
    End,
    PageUp,
    PageDown,
    ArrowUp,
    ArrowDown,
    ArrowLeft,
    ArrowRight,
}

/// The key that a (lowercase) key name denotes.
pub open spec fn key_code_of(s: Seq<char>) -> Option<KeyCode> {
    if s == "a"@ {
        Some(KeyCode::KeyA)
    } else
    if s == "b"@ {
        Some(KeyCode::KeyB)
    } else
    if s == "c"@ {
        Some(KeyCode::KeyC)
    } else
    if s == "d"@ {
        Some(KeyCode::KeyD)
    } else
    if s == "e"@ {
        Some(KeyCode::KeyE)
    } else
    if s == "f"@ {
        Some(KeyCode::KeyF)
    } else
    if s == "g"@ {
        Some(KeyCode::KeyG)
    } else
    if s == "h"@ {
        Some(KeyCode::KeyH)
    } else
    if s == "i"@ {
        Some(KeyCode::KeyI)
    } else
    if s == "j"@ {
        Some(KeyCode::KeyJ)
    } else
    if s == "k"@ {
        Some(KeyCode::KeyK)
    } else
    if s == "l"@ {
        Some(KeyCode::KeyL)
    } else
    if s == "m"@ {
        Some(KeyCode::KeyM)
    } else
    if s == "n"@ {
        Some(KeyCode::KeyN)
    } else
    if s == "o"@ {
        Some(KeyCode::KeyO)
    } else
    if s == "p"@ {
        Some(KeyCode::KeyP)
    } else
    if s == "q"@ {
        Some(KeyCode::KeyQ)
    } else
    if s == "r"@ {
        Some(KeyCode::KeyR)
    } else
    if s == "s"@ {
        Some(KeyCode::KeyS)
    } else
    if s == "t"@ {
        Some(KeyCode::KeyT)
    } else
    if s == "u"@ {
        Some(KeyCode::KeyU)
    } else
    if s == "v"@ {
        Some(KeyCode::KeyV)
    } else
    if s == "w"@ {
        Some(KeyCode::KeyW)
    } else
    if s == "x"@ {
        Some(KeyCode::KeyX)
    } else
    if s == "y"@ {
        Some(KeyCode::KeyY)
    } else
    if s == "z"@ {
        Some(KeyCode::KeyZ)
    } else
    if s == "0"@ {
        Some(KeyCode::Digit0)
    } else
    if s == "1"@ {
        Some(KeyCode::Digit1)
    } else
    if s == "2"@ {
        Some(KeyCode::Digit2)
    } else
    if s == "3"@ {
        Some(KeyCode::Digit3)
    } else
    if s == "4"@ {
        Some(KeyCode::Digit4)
    } else
    if s == "5"@ {
        Some(KeyCode::Digit5)
    } else
    if s == "6"@ {
        Some(KeyCode::Digit6)
    } else
    if s == "7"@ {
        Some(KeyCode::Digit7)
    } else
    if s == "8"@ {
        Some(KeyCode::Digit8)
    } else
    if s == "9"@ {
        Some(KeyCode::Digit9)
    } else
    if s == "f1"@ {
        Some(KeyCode::F1)
    } else
    if s == "f2"@ {
        Some(KeyCode::F2)
    } else
    if s == "f3"@ {
        Some(KeyCode::F3)
    } else
    if s == "f4"@ {
        Some(KeyCode::F4)
    } else
    if s == "f5"@ {
        Some(KeyCode::F5)
    } else
    if s == "f6"@ {
        Some(KeyCode::F6)
    } else
    if s == "f7"@ {
        Some(KeyCode::F7)
    } else
    if s == "f8"@ {
        Some(KeyCode::F8)
    } else
    if s == "f9"@ {
        Some(KeyCode::F9)
    } else
    if s == "f10"@ {
        Some(KeyCode::F10)
    } else
    if s == "f11"@ {
        Some(KeyCode::F11)
    } else
    if s == "f12"@ {
        Some(KeyCode::F12)
    } else
    if s == "space"@ || s == " "@ {
        Some(KeyCode::Space)
    } else
    if s == "enter"@ || s == "return"@ {
        Some(KeyCode::Enter)
    } else
    if s == "esc"@ || s == "escape"@ {
        Some(KeyCode::Escape)
    } else
    if s == "tab"@ {
        Some(KeyCode::Tab)
    } else
    if s == "backspace"@ {
        Some(KeyCode::Backspace)
    } else
    if s == "delete"@ || s == "del"@ {
        Some(KeyCode::Delete)
    } else
    if s == "insert"@ || s == "ins"@ {
        Some(KeyCode::Insert)
    } else
    if s == "home"@ {
        Some(KeyCode::Home)
    } else
    if s == "end"@ {
        Some(KeyCode::End)
    } else
    if s == "pageup"@ || s == "page_up"@ {
        Some(KeyCode::PageUp)
    } else
    if s == "pagedown"@ || s == "page_down"@ {
        Some(KeyCode::PageDown)
    } else
    if s == "up"@ {
        Some(KeyCode::ArrowUp)
    } else
    if s == "down"@ {
        Some(KeyCode::ArrowDown)
    } else
    if s == "left"@ {
        Some(KeyCode::ArrowLeft)
    } else
    if s == "right"@ {
        Some(KeyCode::ArrowRight)
    } else {
        None
    }
}

/// Whether `k` spells the word `w`.
fn is_word(k: &Vec<char>, w: &str) -> (r: bool)
    ensures
        r == (k@ == w@),
{
    let wc = chars_of(w);
    if wc.len() != k.len() {
        return false;
    }
    let mut i: usize = 0;
    while i < k.len()
        invariant
            i <= k@.len() == wc@.len(),
            wc@ == w@,
            forall|j: int| 0 <= j < i ==> k@[j] == wc@[j],
        decreases k@.len() - i,
    {
        if k[i] != wc[i] {
            return false;
        }
        i = i + 1;
    }
    assert(k@ =~= wc@);
    true
}

fn key_code_of_chars(k: &Vec<char>) -> (r: Option<KeyCode>)
    ensures
        r == key_code_of(k@),
{
    if is_word(k, "a") {
        return Some(KeyCode::KeyA);
    }
    if is_word(k, "b") {
        return Some(KeyCode::KeyB);
    }
    if is_word(k, "c") {
        return Some(KeyCode::KeyC);
    }
    if is_word(k, "d") {
        return Some(KeyCode::KeyD);
    }
    if is_word(k, "e") {
        return Some(KeyCode::KeyE);
    }
    if is_word(k, "f") {
        return Some(KeyCode::KeyF);
    }
    if is_word(k, "g") {
        return Some(KeyCode::KeyG);
    }
    if is_word(k, "h") {
        return Some(KeyCode::KeyH);
    }
    if is_word(k, "i") {
        return Some(KeyCode::KeyI);
    }
    if is_word(k, "j") {
        return Some(KeyCode::KeyJ);
    }
    if is_word(k, "k") {
        return Some(KeyCode::KeyK);
    }
    if is_word(k, "l") {
        return Some(KeyCode::KeyL);
    }
    if is_word(k, "m") {
        return Some(KeyCode::KeyM);
    }
    if is_word(k, "n") {
        return Some(KeyCode::KeyN);
    }
    if is_word(k, "o") {
        return Some(KeyCode::KeyO);
    }
    if is_word(k, "p") {
        return Some(KeyCode::KeyP);
    }
    if is_word(k, "q") {
        return Some(KeyCode::KeyQ);
    }
    if is_word(k, "r") {
        return Some(KeyCode::KeyR);
    }
    if is_word(k, "s") {
        return Some(KeyCode::KeyS);
    }
    if is_word(k, "t") {
        return Some(KeyCode::KeyT);
    }
    if is_word(k, "u") {
        return Some(KeyCode::KeyU);
    }
    if is_word(k, "v") {
        return Some(KeyCode::KeyV);
    }
    if is_word(k, "w") {
        return Some(KeyCode::KeyW);
    }
    if is_word(k, "x") {
        return Some(KeyCode::KeyX);
    }
    if is_word(k, "y") {
        return Some(KeyCode::KeyY);
    }
    if is_word(k, "z") {
        return Some(KeyCode::KeyZ);
    }
    if is_word(k, "0") {
        return Some(KeyCode::Digit0);
    }
    if is_word(k, "1") {
        return Some(KeyCode::Digit1);
    }
    if is_word(k, "2") {
        return Some(KeyCode::Digit2);
    }
    if is_word(k, "3") {
        return Some(KeyCode::Digit3);
    }
    if is_word(k, "4") {
        return Some(KeyCode::Digit4);
    }
    if is_word(k, "5") {
        return Some(KeyCode::Digit5);
    }
    if is_word(k, "6") {
        return Some(KeyCode::Digit6);
    }
    if is_word(k, "7") {
        return Some(KeyCode::Digit7);
    }
    if is_word(k, "8") {
        return Some(KeyCode::Digit8);
    }
    if is_word(k, "9") {
        return Some(KeyCode::Digit9);
    }
    if is_word(k, "f1") {
        return Some(KeyCode::F1);
    }
    if is_word(k, "f2") {
        return Some(KeyCode::F2);
    }
    if is_word(k, "f3") {
        return Some(KeyCode::F3);
    }
    if is_word(k, "f4") {
        return Some(KeyCode::F4);
    }
    if is_word(k, "f5") {
        return Some(KeyCode::F5);
    }
    if is_word(k, "f6") {
        return Some(KeyCode::F6);
    }
    if is_word(k, "f7") {
        return Some(KeyCode::F7);
    }
    if is_word(k, "f8") {
        return Some(KeyCode::F8);
    }
    if is_word(k, "f9") {
        return Some(KeyCode::F9);
    }
    if is_word(k, "f10") {
        return Some(KeyCode::F10);
    }
    if is_word(k, "f11") {
        return Some(KeyCode::F11);
    }
    if is_word(k, "f12") {
        return Some(KeyCode::F12);
    }
    if is_word(k, "space") || is_word(k, " ") {
        return Some(KeyCode::Space);
    }
    if is_word(k, "enter") || is_word(k, "return") {
        return Some(KeyCode::Enter);
    }
    if is_word(k, "esc") || is_word(k, "escape") {
        return Some(KeyCode::Escape);
    }
    if is_word(k, "tab") {
        return Some(KeyCode::Tab);
    }
    if is_word(k, "backspace") {
        return Some(KeyCode::Backspace);
    }
    if is_word(k, "delete") || is_word(k, "del") {
        return Some(KeyCode::Delete);
    }
    if is_word(k, "insert") || is_word(k, "ins") {
        return Some(KeyCode::Insert);
    }
    if is_word(k, "home") {
        return Some(KeyCode::Home);
    }
    if is_word(k, "end") {
        return Some(KeyCode::End);
    }
    if is_word(k, "pageup") || is_word(k, "page_up") {
        return Some(KeyCode::PageUp);
    }
    if is_word(k, "pagedown") || is_word(k, "page_down") {
        return Some(KeyCode::PageDown);
    }
    if is_word(k, "up") {
        return Some(KeyCode::ArrowUp);
    }
    if is_word(k, "down") {
        return Some(KeyCode::ArrowDown);
    }
    if is_word(k, "left") {
        return Some(KeyCode::ArrowLeft);
    }
    if is_word(k, "right") {
        return Some(KeyCode::ArrowRight);
    }
    None
}

/// The key named by `key`, compared without regard to case.
pub fn parse_key_code(key: &str) -> (r: Result<KeyCode, String>)
    ensures
        match key_code_of(lower_of(key@)) {
            Some(c) => r == Ok::<KeyCode, String>(c),
            None => r is Err,
        },
{
    let lower = lowercase(key);
    let k = chars_of(lower.as_str());
    match key_code_of_chars(&k) {
        Some(c) => Ok(c),
        None => {
            let mut msg = String::from_str("Unknown key code: ");
            msg.append(key);
            Err(msg)
        },
    }
}

/// The parts of `s` between the `+` signs, in order.
pub open spec fn plus_parts(s: Seq<char>) -> Seq<Seq<char>>
    decreases s.len(),
{
    if s.len() == 0 {
        seq![Seq::empty()]
    } else {
        let front = plus_parts(s.drop_last());
        if s.last() == '+' {
            front.push(Seq::empty())
        } else {
            front.update(front.len() - 1, front.last().push(s.last()))
        }
    }
}

proof fn lemma_plus_parts_nonempty(s: Seq<char>)
    ensures
        plus_parts(s).len() >= 1,
    decreases s.len(),
{
    if s.len() > 0 {
        lemma_plus_parts_nonempty(s.drop_last());
    }
}

/// What one (trimmed, lowercase) part adds to the modifiers and key read so
/// far; `None` when the part is neither a modifier nor a key name.
pub open spec fn shortcut_step(acc: (HotkeyModifiers, Option<KeyCode>), part: Seq<char>, raw: Seq<char>) -> Option<(HotkeyModifiers, Option<KeyCode>)> {
    let (m, k) = acc;
    if part == "alt"@ {
        Some((HotkeyModifiers { alt: true, ..m }, k))
    } else if part == "ctrl"@ || part == "control"@ {
        Some((HotkeyModifiers { ctrl: true, ..m }, k))
    } else if part == "shift"@ {
        Some((HotkeyModifiers { shift: true, ..m }, k))
    } else if part == "cmd"@ || part == "command"@ || part == "meta"@ || part == "super"@ || part == "win"@ || part == "windows"@ {
        Some((HotkeyModifiers { meta: true, ..m }, k))
    } else {
        match key_code_of(lower_of(raw)) {
            Some(c) => Some((m, Some(c))),
            None => None,
        }
    }
}

/// The normalised form of a part: trimmed, then lowercase.
pub open spec fn normal_part(p: Seq<char>) -> Seq<char> {
    lower_of(trimmed_of(p))
}

/// Reads the parts in order; a later key replaces an earlier one.
pub open spec fn read_parts(parts: Seq<Seq<char>>) -> Option<(HotkeyModifiers, Option<KeyCode>)>
    decreases parts.len(),
{
    if parts.len() == 0 {
        Some((HotkeyModifiers { alt: false, ctrl: false, shift: false, meta: false }, None))
    } else {
        match read_parts(parts.drop_last()) {
            Some(acc) => shortcut_step(acc, normal_part(parts.last()), normal_part(parts.last())),
            None => None,
        }
    }
}

/// The modifiers and key that a hotkey string names, if it is valid: every
/// part is a modifier or a key name, and some part is a key.
pub open spec fn shortcut_of(s: Seq<char>) -> Option<(HotkeyModifiers, KeyCode)> {
    match read_parts(plus_parts(s)) {
        Some((m, Some(k))) => Some((m, k)),
        _ => None,
    }
}

proof fn lemma_read_parts_stays_none(ps: Seq<Seq<char>>, i: int, j: int)
    requires
        0 <= i <= j <= ps.len(),
        read_parts(ps.subrange(0, i)) is None,
    ensures
        read_parts(ps.subrange(0, j)) is None,
    decreases j - i,
{
    if j > i {
        lemma_read_parts_stays_none(ps, i, j - 1);
        assert(ps.subrange(0, j).drop_last() =~= ps.subrange(0, j - 1));
    }
}

fn split_plus(s: &Vec<char>) -> (r: Vec<Vec<char>>)
    ensures
        r@.len() == plus_parts(s@).len(),
        forall|i: int| 0 <= i < r@.len() ==> #[trigger] r@[i]@ == plus_parts(s@)[i],
{
    let mut out: Vec<Vec<char>> = Vec::new();
    let mut cur: Vec<char> = Vec::new();
    let mut i: usize = 0;
    while i < s.len()
        invariant
            i <= s@.len(),
            out@.len() + 1 == plus_parts(s@.subrange(0, i as int)).len(),
            forall|j: int| 0 <= j < out@.len() ==> #[trigger] out@[j]@ == plus_parts(s@.subrange(0, i as int))[j],
            cur@ == plus_parts(s@.subrange(0, i as int)).last(),
        decreases s@.len() - i,
    {
        proof { lemma_plus_parts_nonempty(s@.subrange(0, i as int)); }
        assert(s@.subrange(0, i + 1).drop_last() =~= s@.subrange(0, i as int));
        if s[i] == '+' {
            let mut fresh: Vec<char> = Vec::new();
            std::mem::swap(&mut fresh, &mut cur);
            out.push(fresh);
        } else {
            cur.push(s[i]);
        }
        i = i + 1;
    }
    assert(s@.subrange(0, s@.len() as int) =~= s@);
    proof { lemma_plus_parts_nonempty(s@); }
    let ghost before = out@;
    out.push(cur);
    assert forall|j: int| 0 <= j < out@.len() implies #[trigger] out@[j]@ == plus_parts(s@)[j] by {
        if j < before.len() {
            assert(out@[j] == before[j]);
        }
    }
    out
}

/// Parses a hotkey such as "Alt+V" or "Ctrl+Shift+C": parts separated by
/// `+`, each trimmed and compared without regard to case; modifiers are
/// alt, ctrl (or control), shift, and cmd, command, meta, super, win or
/// windows; any other part must name a key, and one must.
pub fn parse_shortcut(hotkey: &str) -> (r: Result<(HotkeyModifiers, KeyCode), String>)
    ensures
        match shortcut_of(hotkey@) {
            Some(v) => r == Ok::<(HotkeyModifiers, KeyCode), String>(v),
            None => r is Err,
        },
{
    let chars = chars_of(hotkey);
    let parts = split_plus(&chars);
    let ghost ps = plus_parts(hotkey@);
    let mut mods = HotkeyModifiers { alt: false, ctrl: false, shift: false, meta: false };
    let mut key: Option<KeyCode> = None;
    let mut i: usize = 0;
    while i < parts.len()
        invariant
            i <= parts@.len() == ps.len(),
            ps == plus_parts(hotkey@),
            forall|j: int| 0 <= j < parts@.len() ==> #[trigger] parts@[j]@ == ps[j],
            read_parts(ps.subrange(0, i as int)) == Some((mods, key)),
        decreases parts@.len() - i,
    {
        assert(ps.subrange(0, i + 1).drop_last() =~= ps.subrange(0, i as int));
        assert(ps.subrange(0, i + 1).last() == parts@[i as int]@);
        let raw = string_of(&parts[i]);
        let trimmed = trim(raw.as_str());
        let lower = lowercase(trimmed.as_str());
        let p = chars_of(lower.as_str());
        if is_word(&p, "alt") {
            mods.alt = true;
        } else if is_word(&p, "ctrl") || is_word(&p, "control") {
            mods.ctrl = true;
        } else if is_word(&p, "shift") {
            mods.shift = true;
        } else if is_word(&p, "cmd") || is_word(&p, "command") || is_word(&p, "meta")
            || is_word(&p, "super") || is_word(&p, "win") || is_word(&p, "windows") {
            mods.meta = true;
        } else {
            match parse_key_code(lower.as_str()) {
                Ok(c) => {
                    key = Some(c);
                },
                Err(e) => {
                    proof {
                        assert(read_parts(ps.subrange(0, i + 1)) is None);
                        lemma_read_parts_stays_none(ps, i + 1, ps.len() as int);
                        assert(ps.subrange(0, ps.len() as int) =~= ps);
                    }
                    return Err(e);
                },
            }
        }
        i = i + 1;
    }
    assert(ps.subrange(0, ps.len() as int) =~= ps);
    match key {
        Some(c) => Ok((mods, c)),
        None => Err(String::from_str("No key code found in shortcut")),
    }
}

/// Whether `hotkey` is a valid hotkey string (see `parse_shortcut`).
pub fn validate_hotkey(hotkey: &str) -> (r: Result<(), String>)
    ensures
        r is Ok <==> shortcut_of(hotkey@) is Some,
{
    match parse_shortcut(hotkey) {
        Ok(_) => Ok(()),
        Err(e) => Err(e),
    }
}

} // verus!
