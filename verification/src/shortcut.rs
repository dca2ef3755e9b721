//! Keyboard shortcuts: the keys and modifiers they are made of, how they
//! are read from text such as `alt+g` or `shift+ctrl+KeyX`, and the registry
//! of shortcuts by id, which refuses a shortcut that another id already uses.
use vstd::prelude::*;
use crate::error::AppError;
use crate::text::{
    ascii_upper, is_ascii_chars, lemma_split_ascii, lemma_trim_ascii, chars_equal, chars_of, split_chars, split_on, starts_with_chars, starts_with_seq,
    string_from_chars, text_equals, trim, trim_chars,
};

verus! {

/// The keys a shortcut can end with.
#[derive(Debug, Clone, Copy, PartialEq, Eq, Hash, Structural)]
pub enum KeyCode {
    KeyA,
    KeyB,
    KeyC,
    KeyD,
    KeyE,
    KeyF,
    KeyG,
    KeyH,
    KeyI,
    KeyJ,
    KeyK,
    KeyL,
    KeyM,
    KeyN,
    KeyO,
    KeyP,
    KeyQ,
    KeyR,
    KeyS,
    KeyT,
    KeyU,
    KeyV,
    KeyW,
    KeyX,
    KeyY,
    KeyZ,
    Digit0,
    Digit1,
    Digit2,
    Digit3,
    Digit4,
    Digit5,
    Digit6,
    Digit7,
    Digit8,
    Digit9,
    F1,
    F2,
    F3,
    F4,
    F5,
    F6,
    F7,
    F8,
    F9,
    F10,
    F11,
    F12,
    Space,
    Enter,
    Escape,
    Tab,
    Backspace,
    Delete,
    ArrowUp,
    ArrowDown,
    ArrowLeft,
    ArrowRight,
}

/// The key a letter names.
pub open spec fn letter_key(c: char) -> Option<KeyCode> {
    if c == 'A' {
        Some(KeyCode::KeyA)
    } else if c == 'B' {
        Some(KeyCode::KeyB)
    } else if c == 'C' {
        Some(KeyCode::KeyC)
    } else if c == 'D' {
        Some(KeyCode::KeyD)
    } else if c == 'E' {
        Some(KeyCode::KeyE)
    } else if c == 'F' {
        Some(KeyCode::KeyF)
    } else if c == 'G' {
        Some(KeyCode::KeyG)
    } else if c == 'H' {
        Some(KeyCode::KeyH)
    } else if c == 'I' {
        Some(KeyCode::KeyI)
    } else if c == 'J' {
        Some(KeyCode::KeyJ)
    } else if c == 'K' {
        Some(KeyCode::KeyK)
    } else if c == 'L' {
        Some(KeyCode::KeyL)
    } else if c == 'M' {
        Some(KeyCode::KeyM)
    } else if c == 'N' {
        Some(KeyCode::KeyN)
    } else if c == 'O' {
        Some(KeyCode::KeyO)
    } else if c == 'P' {
        Some(KeyCode::KeyP)
    } else if c == 'Q' {
        Some(KeyCode::KeyQ)
    } else if c == 'R' {
        Some(KeyCode::KeyR)
    } else if c == 'S' {
        Some(KeyCode::KeyS)
    } else if c == 'T' {
        Some(KeyCode::KeyT)
    } else if c == 'U' {
        Some(KeyCode::KeyU)
    } else if c == 'V' {
        Some(KeyCode::KeyV)
    } else if c == 'W' {
        Some(KeyCode::KeyW)
    } else if c == 'X' {
        Some(KeyCode::KeyX)
    } else if c == 'Y' {
        Some(KeyCode::KeyY)
    } else if c == 'Z' {
        Some(KeyCode::KeyZ)
    } else {
        None
    }
}

/// The key a decimal digit names.
pub open spec fn digit_key(c: char) -> Option<KeyCode> {
    if c == '0' {
        Some(KeyCode::Digit0)
    } else if c == '1' {
        Some(KeyCode::Digit1)
    } else if c == '2' {
        Some(KeyCode::Digit2)
    } else if c == '3' {
        Some(KeyCode::Digit3)
    } else if c == '4' {
        Some(KeyCode::Digit4)
    } else if c == '5' {
        Some(KeyCode::Digit5)
    } else if c == '6' {
        Some(KeyCode::Digit6)
    } else if c == '7' {
        Some(KeyCode::Digit7)
    } else if c == '8' {
        Some(KeyCode::Digit8)
    } else if c == '9' {
        Some(KeyCode::Digit9)
    } else {
        None
    }
}

/// The key a function-key or named-key token names.
pub open spec fn word_key(s: Seq<char>) -> Option<KeyCode> {
    if s == "F1"@ {
        Some(KeyCode::F1)
    } else if s == "F2"@ {
        Some(KeyCode::F2)
    } else if s == "F3"@ {
        Some(KeyCode::F3)
    } else if s == "F4"@ {
        Some(KeyCode::F4)
    } else if s == "F5"@ {
        Some(KeyCode::F5)
    } else if s == "F6"@ {
        Some(KeyCode::F6)
    } else if s == "F7"@ {
        Some(KeyCode::F7)
    } else if s == "F8"@ {
        Some(KeyCode::F8)
    } else if s == "F9"@ {
        Some(KeyCode::F9)
    } else if s == "F10"@ {
        Some(KeyCode::F10)
    } else if s == "F11"@ {
        Some(KeyCode::F11)
    } else if s == "F12"@ {
        Some(KeyCode::F12)
    } else if s == "SPACE"@ {
        Some(KeyCode::Space)
    } else if s == "ENTER"@ {
        Some(KeyCode::Enter)
    } else if s == "ESCAPE"@ {
        Some(KeyCode::Escape)
    } else if s == "ESC"@ {
        Some(KeyCode::Escape)
    } else if s == "TAB"@ {
        Some(KeyCode::Tab)
    } else if s == "BACKSPACE"@ {
        Some(KeyCode::Backspace)
    } else if s == "DELETE"@ {
        Some(KeyCode::Delete)
    } else if s == "UP"@ {
        Some(KeyCode::ArrowUp)
    } else if s == "ARROWUP"@ {
        Some(KeyCode::ArrowUp)
    } else if s == "DOWN"@ {
        Some(KeyCode::ArrowDown)
    } else if s == "ARROWDOWN"@ {
        Some(KeyCode::ArrowDown)
    } else if s == "LEFT"@ {
        Some(KeyCode::ArrowLeft)
    } else if s == "ARROWLEFT"@ {
        Some(KeyCode::ArrowLeft)
    } else if s == "RIGHT"@ {
        Some(KeyCode::ArrowRight)
    } else if s == "ARROWRIGHT"@ {
        Some(KeyCode::ArrowRight)
    } else {
        None
    }
}

fn letter_key_of(c: char) -> (r: Option<KeyCode>)
    ensures
        r == letter_key(c),
{
    if c == 'A' {
        Some(KeyCode::KeyA)
    } else if c == 'B' {
        Some(KeyCode::KeyB)
    } else if c == 'C' {
        Some(KeyCode::KeyC)
    } else if c == 'D' {
        Some(KeyCode::KeyD)
    } else if c == 'E' {
        Some(KeyCode::KeyE)
    } else if c == 'F' {
        Some(KeyCode::KeyF)
    } else if c == 'G' {
        Some(KeyCode::KeyG)
    } else if c == 'H' {
        Some(KeyCode::KeyH)
    } else if c == 'I' {
        Some(KeyCode::KeyI)
    } else if c == 'J' {
        Some(KeyCode::KeyJ)
    } else if c == 'K' {
        Some(KeyCode::KeyK)
    } else if c == 'L' {
        Some(KeyCode::KeyL)
    } else if c == 'M' {
        Some(KeyCode::KeyM)
    } else if c == 'N' {
        Some(KeyCode::KeyN)
    } else if c == 'O' {
        Some(KeyCode::KeyO)
    } else if c == 'P' {
        Some(KeyCode::KeyP)
    } else if c == 'Q' {
        Some(KeyCode::KeyQ)
    } else if c == 'R' {
        Some(KeyCode::KeyR)
    } else if c == 'S' {
        Some(KeyCode::KeyS)
    } else if c == 'T' {
        Some(KeyCode::KeyT)
    } else if c == 'U' {
        Some(KeyCode::KeyU)
    } else if c == 'V' {
        Some(KeyCode::KeyV)
    } else if c == 'W' {
        Some(KeyCode::KeyW)
    } else if c == 'X' {
        Some(KeyCode::KeyX)
    } else if c == 'Y' {
        Some(KeyCode::KeyY)
    } else if c == 'Z' {
        Some(KeyCode::KeyZ)
    } else {
        None
    }
}

fn digit_key_of(c: char) -> (r: Option<KeyCode>)
    ensures
        r == digit_key(c),
{
    if c == '0' {
        Some(KeyCode::Digit0)
    } else if c == '1' {
        Some(KeyCode::Digit1)
    } else if c == '2' {
        Some(KeyCode::Digit2)
    } else if c == '3' {
        Some(KeyCode::Digit3)
    } else if c == '4' {
        Some(KeyCode::Digit4)
    } else if c == '5' {
        Some(KeyCode::Digit5)
    } else if c == '6' {
        Some(KeyCode::Digit6)
    } else if c == '7' {
        Some(KeyCode::Digit7)
    } else if c == '8' {
        Some(KeyCode::Digit8)
    } else if c == '9' {
        Some(KeyCode::Digit9)
    } else {
        None
    }
}

fn word_key_of(v: &[char]) -> (r: Option<KeyCode>)
    ensures
        r == word_key(v@),
{
    let w0 = chars_of("F1");
    let w1 = chars_of("F2");
    let w2 = chars_of("F3");
    let w3 = chars_of("F4");
    let w4 = chars_of("F5");
    let w5 = chars_of("F6");
    let w6 = chars_of("F7");
    let w7 = chars_of("F8");
    let w8 = chars_of("F9");
    let w9 = chars_of("F10");
    let w10 = chars_of("F11");
    let w11 = chars_of("F12");
    let w12 = chars_of("SPACE");
    let w13 = chars_of("ENTER");
    let w14 = chars_of("ESCAPE");
    let w15 = chars_of("ESC");
    let w16 = chars_of("TAB");
    let w17 = chars_of("BACKSPACE");
    let w18 = chars_of("DELETE");
    let w19 = chars_of("UP");
    let w20 = chars_of("ARROWUP");
    let w21 = chars_of("DOWN");
    let w22 = chars_of("ARROWDOWN");
    let w23 = chars_of("LEFT");
    let w24 = chars_of("ARROWLEFT");
    let w25 = chars_of("RIGHT");
    let w26 = chars_of("ARROWRIGHT");
    if chars_equal(v, w0.as_slice()) {
        Some(KeyCode::F1)
    } else if chars_equal(v, w1.as_slice()) {
        Some(KeyCode::F2)
    } else if chars_equal(v, w2.as_slice()) {
        Some(KeyCode::F3)
    } else if chars_equal(v, w3.as_slice()) {
        Some(KeyCode::F4)
    } else if chars_equal(v, w4.as_slice()) {
        Some(KeyCode::F5)
    } else if chars_equal(v, w5.as_slice()) {
        Some(KeyCode::F6)
    } else if chars_equal(v, w6.as_slice()) {
        Some(KeyCode::F7)
    } else if chars_equal(v, w7.as_slice()) {
        Some(KeyCode::F8)
    } else if chars_equal(v, w8.as_slice()) {
        Some(KeyCode::F9)
    } else if chars_equal(v, w9.as_slice()) {
        Some(KeyCode::F10)
    } else if chars_equal(v, w10.as_slice()) {
        Some(KeyCode::F11)
    } else if chars_equal(v, w11.as_slice()) {
        Some(KeyCode::F12)
    } else if chars_equal(v, w12.as_slice()) {
        Some(KeyCode::Space)
    } else if chars_equal(v, w13.as_slice()) {
        Some(KeyCode::Enter)
    } else if chars_equal(v, w14.as_slice()) {
        Some(KeyCode::Escape)
    } else if chars_equal(v, w15.as_slice()) {
        Some(KeyCode::Escape)
    } else if chars_equal(v, w16.as_slice()) {
        Some(KeyCode::Tab)
    } else if chars_equal(v, w17.as_slice()) {
        Some(KeyCode::Backspace)
    } else if chars_equal(v, w18.as_slice()) {
        Some(KeyCode::Delete)
    } else if chars_equal(v, w19.as_slice()) {
        Some(KeyCode::ArrowUp)
    } else if chars_equal(v, w20.as_slice()) {
        Some(KeyCode::ArrowUp)
    } else if chars_equal(v, w21.as_slice()) {
        Some(KeyCode::ArrowDown)
    } else if chars_equal(v, w22.as_slice()) {
        Some(KeyCode::ArrowDown)
    } else if chars_equal(v, w23.as_slice()) {
        Some(KeyCode::ArrowLeft)
    } else if chars_equal(v, w24.as_slice()) {
        Some(KeyCode::ArrowLeft)
    } else if chars_equal(v, w25.as_slice()) {
        Some(KeyCode::ArrowRight)
    } else if chars_equal(v, w26.as_slice()) {
        Some(KeyCode::ArrowRight)
    } else {
        None
    }
}

/// The key a token names, as an upper-case token is read: a letter alone or
/// after `KEY`, a digit alone or after `DIGIT`, `F1` to `F12`, or one of the
/// named keys.
pub open spec fn key_named(s: Seq<char>) -> Option<KeyCode> {
    if s.len() == 1 && letter_key(s[0]) is Some {
        letter_key(s[0])
    } else if s.len() == 4 && starts_with_seq(s, "KEY"@) && letter_key(s[3]) is Some {
        letter_key(s[3])
    } else if s.len() == 1 && digit_key(s[0]) is Some {
        digit_key(s[0])
    } else if s.len() == 6 && starts_with_seq(s, "DIGIT"@) && digit_key(s[5]) is Some {
        digit_key(s[5])
    } else {
        word_key(s)
    }
}

fn key_named_chars(v: &[char]) -> (r: Option<KeyCode>)
    ensures
        r == key_named(v@),
{
    let key = chars_of("KEY");
    let digit = chars_of("DIGIT");
    if v.len() == 1 {
        let l = letter_key_of(v[0]);
        if l.is_some() {
            return l;
        }
    }
    if v.len() == 4 && starts_with_chars(v, key.as_slice()) {
        let l = letter_key_of(v[3]);
        if l.is_some() {
            return l;
        }
    }
    if v.len() == 1 {
        let d = digit_key_of(v[0]);
        if d.is_some() {
            return d;
        }
    }
    if v.len() == 6 && starts_with_chars(v, digit.as_slice()) {
        let d = digit_key_of(v[5]);
        if d.is_some() {
            return d;
        }
    }
    word_key_of(v)
}

/// Reads a key from an upper-case token; any other token is refused with a
/// message that quotes it.
pub fn parse_key_code(key: &str) -> (r: Result<KeyCode, AppError>)
    ensures
        match r {
            Ok(k) => key_named(key@) == Some(k),
            Err(e) => key_named(key@) is None && (e matches AppError::ValidationError(m) && m@
                == "不支持的按键: "@ + key@),
        },
{
    let v = chars_of(key);
    match key_named_chars(v.as_slice()) {
        Some(k) => Ok(k),
        None => Err(AppError::ValidationError(String::from_str("不支持的按键: ").concat(key))),
    }
}

/// The modifier keys held with a shortcut's key.
#[derive(Debug, Clone, Copy, PartialEq, Eq, Hash, Structural)]
pub struct Modifiers {
    pub alt: bool,
    pub control: bool,
    pub shift: bool,
    pub super_key: bool,
}

impl Modifiers {
    /// No modifier.
    pub fn empty() -> (r: Modifiers)
        ensures
            r == no_modifiers(),
    {
        Modifiers { alt: false, control: false, shift: false, super_key: false }
    }

    /// No modifier is held.
    pub fn is_empty(&self) -> (r: bool)
        ensures
            r == (*self == no_modifiers()),
    {
        !self.alt && !self.control && !self.shift && !self.super_key
    }
}

pub open spec fn no_modifiers() -> Modifiers {
    Modifiers { alt: false, control: false, shift: false, super_key: false }
}

/// One modifier key.
#[derive(Debug, Clone, Copy, PartialEq, Eq, Structural)]
pub enum ModifierKey {
    Alt,
    Control,
    Shift,
    Super,
}

/// The modifier an upper-case token names.
pub open spec fn modifier_named(t: Seq<char>) -> Option<ModifierKey> {
    if t == "ALT"@ || t == "OPTION"@ {
        Some(ModifierKey::Alt)
    } else if t == "CTRL"@ || t == "CONTROL"@ {
        Some(ModifierKey::Control)
    } else if t == "SHIFT"@ {
        Some(ModifierKey::Shift)
    } else if t == "SUPER"@ || t == "CMD"@ || t == "COMMAND"@ {
        Some(ModifierKey::Super)
    } else {
        None
    }
}

pub open spec fn with_modifier(m: Modifiers, k: ModifierKey) -> Modifiers {
    match k {
        ModifierKey::Alt => Modifiers { alt: true, ..m },
        ModifierKey::Control => Modifiers { control: true, ..m },
        ModifierKey::Shift => Modifiers { shift: true, ..m },
        ModifierKey::Super => Modifiers { super_key: true, ..m },
    }
}

fn modifier_named_chars(t: &[char]) -> (r: Option<ModifierKey>)
    ensures
        r == modifier_named(t@),
{
    let alt = chars_of("ALT");
    let option = chars_of("OPTION");
    let ctrl = chars_of("CTRL");
    let control = chars_of("CONTROL");
    let shift = chars_of("SHIFT");
    let sup = chars_of("SUPER");
    let cmd = chars_of("CMD");
    let command = chars_of("COMMAND");
    if chars_equal(t, alt.as_slice()) || chars_equal(t, option.as_slice()) {
        Some(ModifierKey::Alt)
    } else if chars_equal(t, ctrl.as_slice()) || chars_equal(t, control.as_slice()) {
        Some(ModifierKey::Control)
    } else if chars_equal(t, shift.as_slice()) {
        Some(ModifierKey::Shift)
    } else if chars_equal(t, sup.as_slice()) || chars_equal(t, cmd.as_slice()) || chars_equal(
        t,
        command.as_slice(),
    ) {
        Some(ModifierKey::Super)
    } else {
        None
    }
}

fn add_modifier(m: Modifiers, k: ModifierKey) -> (r: Modifiers)
    ensures
        r == with_modifier(m, k),
{
    match k {
        ModifierKey::Alt => Modifiers { alt: true, ..m },
        ModifierKey::Control => Modifiers { control: true, ..m },
        ModifierKey::Shift => Modifiers { shift: true, ..m },
        ModifierKey::Super => Modifiers { super_key: true, ..m },
    }
}

/// A key with the modifiers held with it.
#[derive(Debug, Clone, Copy, PartialEq, Eq, Hash, Structural)]
pub struct Shortcut {
    pub mods: Modifiers,
    pub key: KeyCode,
}

impl Shortcut {
    /// A shortcut; no modifiers when none are given.
    pub fn new(mods: Option<Modifiers>, key: KeyCode) -> (r: Shortcut)
        ensures
            r.key == key,
            r.mods == (match mods {
                Some(m) => m,
                None => no_modifiers(),
            }),
    {
        let m = match mods {
            Some(m) => m,
            None => Modifiers::empty(),
        };
        Shortcut { mods: m, key }
    }
}

/// `str::to_uppercase`: the Unicode upper-case mapping of a text.
pub uninterp spec fn unicode_uppercase(s: Seq<char>) -> Seq<char>;

/// `str::to_uppercase` from std; its result is named by `unicode_uppercase`.
/// An ASCII text is upper-cased as `str::to_ascii_uppercase` does: the
/// Unicode upper-case mapping of an ASCII character is its ASCII upper case.
#[verifier::external_body]
fn to_uppercase(s: &str) -> (r: String)
    ensures
        r@ == unicode_uppercase(s@),
        is_ascii_chars(s@) ==> r@ == ascii_upper(s@),
{
    s.to_uppercase()
}

/// Where reading the tokens of a shortcut has got to.
pub struct Scan {
    /// No token was refused.
    pub ok: bool,
    pub mods: Modifiers,
    /// The last key read.
    pub key: Option<KeyCode>,
    /// The first refused token, upper-cased.
    pub bad: Seq<char>,
}

/// A token as it is compared: trimmed, then upper-cased.
pub open spec fn normalized(t: Seq<char>) -> Seq<char> {
    unicode_uppercase(trim(t))
}

/// Upper-cased words read from left to right: a modifier is added, a key
/// replaces the previous key, and the first other word stops the reading.
pub open spec fn scan_words(words: Seq<Seq<char>>) -> Scan
    decreases words.len(),
{
    if words.len() == 0 {
        Scan { ok: true, mods: no_modifiers(), key: None, bad: Seq::empty() }
    } else {
        let prev = scan_words(words.drop_last());
        if !prev.ok {
            prev
        } else {
            let t = words.last();
            match modifier_named(t) {
                Some(m) => Scan { mods: with_modifier(prev.mods, m), ..prev },
                None => match key_named(t) {
                    Some(k) => Scan { key: Some(k), ..prev },
                    None => Scan { ok: false, bad: t, ..prev },
                },
            }
        }
    }
}

/// Each token as it is compared.
pub open spec fn normalized_all(toks: Seq<Seq<char>>) -> Seq<Seq<char>> {
    Seq::new(toks.len(), |i: int| normalized(toks[i]))
}

/// The reading of a whole shortcut text, split at `+`.
pub open spec fn scan_shortcut(s: Seq<char>) -> Scan {
    scan_words(normalized_all(split_on(s, '+')))
}

/// The tokens of an ASCII text as they are compared: trimmed, then
/// upper-cased in ASCII.
pub open spec fn ascii_words(toks: Seq<Seq<char>>) -> Seq<Seq<char>> {
    Seq::new(toks.len(), |i: int| ascii_upper(trim(toks[i])))
}

/// The texts of a list of strings.
pub open spec fn texts(v: Seq<String>) -> Seq<Seq<char>> {
    Seq::new(v.len(), |i: int| v[i]@)
}

/// What a reading of words gives: the shortcut, or the error that refuses it.
pub open spec fn scan_result(sc: Scan, description: Seq<char>, r: Result<ShortcutConfig, AppError>) -> bool {
    match r {
        Ok(c) => sc.ok && sc.key == Some(c.shortcut.key) && c.shortcut.mods == sc.mods && c.description@
            == description,
        Err(e) => if !sc.ok {
            e matches AppError::ValidationError(m) && m@ == "无法识别的按键: "@ + sc.bad
        } else {
            sc.key is None && (e matches AppError::ValidationError(m) && m@
                == "快捷键格式无效，必须包含一个有效的按键"@)
        },
    }
}

/// A shortcut and what it is for.
#[derive(Debug, Clone)]
pub struct ShortcutConfig {
    pub shortcut: Shortcut,
    pub description: String,
}

impl ShortcutConfig {
    pub fn new(modifiers: Option<Modifiers>, code: KeyCode, description: &str) -> (r: ShortcutConfig)
        ensures
            r.shortcut.key == code,
            r.shortcut.mods == (match modifiers {
                Some(m) => m,
                None => no_modifiers(),
            }),
            r.description@ == description@,
    {
        ShortcutConfig {
            shortcut: Shortcut::new(modifiers, code),
            description: String::from_str(description),
        }
    }

    /// Reads a shortcut from words already trimmed and upper-cased:
    /// modifiers (`ALT`/`OPTION`, `CTRL`/`CONTROL`, `SHIFT`,
    /// `SUPER`/`CMD`/`COMMAND`) and keys, the last key counting. A word that
    /// is neither is refused, and so are words without a key.
    pub fn from_words(words: &[String], description: &str) -> (r: Result<ShortcutConfig, AppError>)
        ensures
            scan_result(scan_words(texts(words@)), description@, r),
    {
        let ghost ws = texts(words@);
        let mut mods = Modifiers::empty();
        let mut code: Option<KeyCode> = None;
        let mut i: usize = 0;
        while i < words.len()
            invariant
                ws == texts(words@),
                i <= words@.len(),
                scan_words(ws.subrange(0, i as int)).ok,
                scan_words(ws.subrange(0, i as int)).mods == mods,
                scan_words(ws.subrange(0, i as int)).key == code,
            decreases words@.len() - i,
        {
            let ghost pre = ws.subrange(0, i as int);
            let ghost cur = ws.subrange(0, i + 1);
            assert(cur.drop_last() =~= pre);
            assert(cur.last() == words@[i as int]@);
            let token = chars_of(words[i].as_str());
            match modifier_named_chars(token.as_slice()) {
                Some(m) => {
                    mods = add_modifier(mods, m);
                },
                None => match key_named_chars(token.as_slice()) {
                    Some(k) => {
                        code = Some(k);
                    },
                    None => {
                        proof {
                            lemma_scan_stops(ws, i as int + 1);
                        }
                        let msg = String::from_str("无法识别的按键: ").concat(words[i].as_str());
                        return Err(AppError::ValidationError(msg));
                    },
                },
            }
            i = i + 1;
        }
        assert(ws.subrange(0, ws.len() as int) =~= ws);
        match code {
            Some(k) => {
                let m = if mods.is_empty() {
                    None
                } else {
                    Some(mods)
                };
                Ok(ShortcutConfig::new(m, k, description))
            },
            None => Err(
                AppError::ValidationError(
                    String::from_str("快捷键格式无效，必须包含一个有效的按键"),
                ),
            ),
        }
    }

    /// Reads a shortcut such as `alt+g`, `shift+ctrl+KeyX` or `option+v`:
    /// the tokens between `+` signs, trimmed and upper-cased, are read as
    /// words by `from_words`.
    pub fn from_string(shortcut_str: &str, description: &str) -> (r: Result<ShortcutConfig, AppError>)
        ensures
            scan_result(scan_shortcut(shortcut_str@), description@, r),
            is_ascii_chars(shortcut_str@) ==> scan_result(
                scan_words(ascii_words(split_on(shortcut_str@, '+'))),
                description@,
                r,
            ),
    {
        let v = chars_of(shortcut_str);
        let pieces = split_chars(v.as_slice(), '+');
        let ghost toks = split_on(v@, '+');
        proof {
            if is_ascii_chars(v@) {
                lemma_split_ascii(v@, '+');
            }
        }
        let mut words: Vec<String> = Vec::new();
        let mut i: usize = 0;
        while i < pieces.len()
            invariant
                toks == split_on(v@, '+'),
                pieces@.len() == toks.len(),
                forall|j: int| 0 <= j < pieces@.len() ==> #[trigger] pieces@[j]@ == toks[j],
                i <= pieces@.len(),
                words@.len() == i,
                forall|j: int| 0 <= j < i ==> #[trigger] words@[j]@ == normalized(toks[j]),
                is_ascii_chars(v@) ==> forall|j: int| 0 <= j < i ==> #[trigger] words@[j]@ == ascii_upper(
                    trim(toks[j]),
                ),
                is_ascii_chars(v@) ==> forall|j: int| 0 <= j < toks.len() ==> is_ascii_chars(#[trigger] toks[j]),
            decreases pieces@.len() - i,
        {
            proof {
                if is_ascii_chars(v@) {
                    assert(is_ascii_chars(toks[i as int]));
                    lemma_trim_ascii(toks[i as int]);
                }
            }
            let trimmed = trim_chars(pieces[i].as_slice());
            let text = string_from_chars(trimmed.as_slice());
            let upper = to_uppercase(text.as_str());
            words.push(upper);
            i = i + 1;
        }
        assert(texts(words@) =~= normalized_all(toks));
        proof {
            if is_ascii_chars(v@) {
                assert(texts(words@) =~= ascii_words(toks));
            }
        }
        Self::from_words(words.as_slice(), description)
    }
}

/// Once a token is refused, later tokens change nothing.
pub proof fn lemma_scan_stops(toks: Seq<Seq<char>>, k: int)
    requires
        0 <= k <= toks.len(),
        !scan_words(toks.subrange(0, k)).ok,
    ensures
        scan_words(toks) == scan_words(toks.subrange(0, k)),
    decreases toks.len() - k,
{
    if k == toks.len() {
        assert(toks.subrange(0, k) =~= toks);
    } else {
        let next = toks.subrange(0, k + 1);
        assert(next.drop_last() =~= toks.subrange(0, k));
        lemma_scan_stops(toks, k + 1);
    }
}

/// The registry's entries: id, shortcut, description.
pub open spec fn entry_view(e: (String, ShortcutConfig)) -> (Seq<char>, Shortcut, Seq<char>) {
    (e.0@, e.1.shortcut, e.1.description@)
}

pub open spec fn ids_unique(s: Seq<(Seq<char>, Shortcut, Seq<char>)>) -> bool {
    forall|i: int, j: int| 0 <= i < s.len() && 0 <= j < s.len() && i != j ==> #[trigger] s[i].0 != #[trigger] s[j].0
}

/// No two entries share a shortcut.
pub open spec fn shortcuts_distinct(s: Seq<(Seq<char>, Shortcut, Seq<char>)>) -> bool {
    forall|i: int, j: int| 0 <= i < s.len() && 0 <= j < s.len() && i != j ==> #[trigger] s[i].1 != #[trigger] s[j].1
}

/// Entry `i` holds `sc` under another id than `id`.
pub open spec fn conflicts_at(s: Seq<(Seq<char>, Shortcut, Seq<char>)>, i: int, sc: Shortcut, id: Seq<char>) -> bool {
    0 <= i < s.len() && s[i].1 == sc && s[i].0 != id
}

pub open spec fn has_id(s: Seq<(Seq<char>, Shortcut, Seq<char>)>, id: Seq<char>) -> bool {
    exists|i: int| 0 <= i < s.len() && #[trigger] s[i].0 == id
}

pub open spec fn id_index(s: Seq<(Seq<char>, Shortcut, Seq<char>)>, id: Seq<char>) -> int {
    choose|i: int| 0 <= i < s.len() && #[trigger] s[i].0 == id
}

/// The entries once `id` holds `sc` with `desc`: its entry is replaced, or
/// a new one is added at the end.
pub open spec fn committed(s: Seq<(Seq<char>, Shortcut, Seq<char>)>, id: Seq<char>, sc: Shortcut, desc: Seq<char>) -> Seq<(Seq<char>, Shortcut, Seq<char>)> {
    if has_id(s, id) {
        s.update(id_index(s, id), (id, sc, desc))
    } else {
        s.push((id, sc, desc))
    }
}

/// What the caller does with the system's shortcut registration before the
/// registry records a shortcut.
#[derive(Debug, Clone, Copy, PartialEq, Eq, Structural)]
pub struct RegisterStep {
    /// The id held this other shortcut, to be released first.
    pub unregister: Option<Shortcut>,
    /// The shortcut is to be registered with the system.
    pub register: bool,
}

/// The shortcuts by id.
pub struct ShortcutManager {
    shortcuts: Vec<(String, ShortcutConfig)>,
}

impl View for ShortcutManager {
    type V = Seq<(Seq<char>, Shortcut, Seq<char>)>;

    closed spec fn view(&self) -> Seq<(Seq<char>, Shortcut, Seq<char>)> {
        Seq::new(self.shortcuts@.len(), |i: int| entry_view(self.shortcuts@[i]))
    }
}

impl ShortcutManager {
    pub closed spec fn wf(&self) -> bool {
        ids_unique(self@)
    }

    /// A well-formed registry holds no id twice.
    pub proof fn lemma_wf_ids_unique(&self)
        requires
            self.wf(),
        ensures
            ids_unique(self@),
    {
    }

    pub fn new() -> (r: ShortcutManager)
        ensures
            r.wf(),
            r@.len() == 0,
    {
        let r = ShortcutManager { shortcuts: Vec::new() };
        assert(r@.len() == 0);
        r
    }

    /// How many shortcuts are recorded.
    pub fn len(&self) -> (r: usize)
        ensures
            r == self@.len(),
    {
        self.shortcuts.len()
    }

    fn index_of_id(&self, id: &str) -> (r: Option<usize>)
        requires
            self.wf(),
        ensures
            match r {
                Some(i) => i < self@.len() && self@[i as int].0 == id@ && has_id(self@, id@) && id_index(self@, id@) == i,
                None => !has_id(self@, id@),
            },
    {
        let mut i: usize = 0;
        while i < self.shortcuts.len()
            invariant
                i <= self@.len(),
                self.wf(),
                forall|j: int| 0 <= j < i ==> self@[j].0 != id@,
            decreases self@.len() - i,
        {
            assert(self@[i as int] == entry_view(self.shortcuts@[i as int]));
            if text_equals(self.shortcuts[i].0.as_str(), id) {
                proof {
                    assert(self@[i as int].0 == id@);
                    assert(has_id(self@, id@));
                    let k = id_index(self@, id@);
                    assert(self@[k].0 == id@);
                }
                return Some(i);
            }
            i = i + 1;
        }
        None
    }

    /// The first entry, in registry order, that holds `shortcut` under an id
    /// other than `current_id`: its id and description.
    pub fn check_conflict(&self, shortcut: &Shortcut, current_id: &str) -> (r: Option<(String, String)>)
        ensures
            match r {
                None => forall|i: int| !conflicts_at(self@, i, *shortcut, current_id@),
                Some(c) => exists|i: int|
                    conflicts_at(self@, i, *shortcut, current_id@) && self@[i].0 == c.0@
                        && self@[i].2 == c.1@ && forall|j: int|
                        0 <= j < i ==> !conflicts_at(self@, j, *shortcut, current_id@),
            },
    {
        let mut i: usize = 0;
        while i < self.shortcuts.len()
            invariant
                i <= self@.len(),
                forall|j: int| 0 <= j < i ==> !conflicts_at(self@, j, *shortcut, current_id@),
            decreases self@.len() - i,
        {
            assert(self@[i as int] == entry_view(self.shortcuts@[i as int]));
            let e = &self.shortcuts[i];
            if e.1.shortcut == *shortcut && !text_equals(e.0.as_str(), current_id) {
                assert(conflicts_at(self@, i as int, *shortcut, current_id@));
                let r = (e.0.clone(), e.1.description.clone());
                assert(self@[i as int].0 == r.0@ && self@[i as int].2 == r.1@);
                return Some(r);
            }
            i = i + 1;
        }
        assert forall|j: int| !conflicts_at(self@, j, *shortcut, current_id@) by {
            if 0 <= j < self@.len() {
            }
        }
        None
    }

    /// Decides what recording `shortcut` under `id` asks of the system: a
    /// shortcut held by another id is refused; an id that held another
    /// shortcut releases it and registers the new one; an id that held the
    /// same shortcut registers it again only when its description changes;
    /// a new id registers it.
    pub fn plan_registration(&self, id: &str, shortcut: &Shortcut, description: &str) -> (r: Result<RegisterStep, AppError>)
        requires
            self.wf(),
        ensures
            (exists|i: int| conflicts_at(self@, i, *shortcut, id@)) <==> r is Err,
            r matches Err(e) ==> exists|i: int|
                conflicts_at(self@, i, *shortcut, id@) && (forall|j: int|
                    0 <= j < i ==> !conflicts_at(self@, j, *shortcut, id@)) && (e matches AppError::ValidationError(m)
                    && m@ == "快捷键冲突: 当前设置的快捷键与 '"@ + self@[i].2 + "("@ + self@[i].0
                    + ")' 冲突"@),
            r matches Ok(step) ==> if has_id(self@, id@) {
                let old = self@[id_index(self@, id@)];
                if old.1 != *shortcut {
                    step == RegisterStep { unregister: Some(old.1), register: true }
                } else {
                    step == RegisterStep { unregister: None, register: old.2 != description@ }
                }
            } else {
                step == RegisterStep { unregister: None, register: true }
            },
    {
        match self.check_conflict(shortcut, id) {
            Some((cid, cdesc)) => {
                let msg = String::from_str("快捷键冲突: 当前设置的快捷键与 '");
                let msg = msg.concat(cdesc.as_str());
                let msg = msg.concat("(");
                let msg = msg.concat(cid.as_str());
                let msg = msg.concat(")' 冲突");
                return Err(AppError::ValidationError(msg));
            },
            None => {},
        }
        match self.index_of_id(id) {
            Some(i) => {
                assert(self@[i as int] == entry_view(self.shortcuts@[i as int]));
                let old = &self.shortcuts[i].1;
                if old.shortcut != *shortcut {
                    Ok(RegisterStep { unregister: Some(old.shortcut), register: true })
                } else {
                    let same = text_equals(old.description.as_str(), description);
                    Ok(RegisterStep { unregister: None, register: !same })
                }
            },
            None => Ok(RegisterStep { unregister: None, register: true }),
        }
    }

    /// Records `config` under `id`, replacing what the id held.
    pub fn commit(&mut self, id: &str, config: ShortcutConfig)
        requires
            old(self).wf(),
        ensures
            final(self).wf(),
            final(self)@ == committed(old(self)@, id@, config.shortcut, config.description@),
    {
        let ghost s = self@;
        let ghost e = (id@, config.shortcut, config.description@);
        match self.index_of_id(id) {
            Some(i) => {
                self.shortcuts.set(i, (String::from_str(id), config));
                assert(self@ =~= s.update(i as int, e));
                assert(ids_unique(self@)) by {
                    assert forall|a: int, b: int|
                        0 <= a < self@.len() && 0 <= b < self@.len() && a != b implies #[trigger] self@[a].0
                        != #[trigger] self@[b].0 by {
                        assert(self@[a].0 == s[a].0);
                        assert(self@[b].0 == s[b].0);
                    }
                }
            },
            None => {
                self.shortcuts.push((String::from_str(id), config));
                assert(self@ =~= s.push(e));
                assert(ids_unique(self@)) by {
                    assert forall|a: int, b: int|
                        0 <= a < self@.len() && 0 <= b < self@.len() && a != b implies #[trigger] self@[a].0
                        != #[trigger] self@[b].0 by {
                        if a < s.len() && b < s.len() {
                            assert(self@[a].0 == s[a].0);
                            assert(self@[b].0 == s[b].0);
                        } else if a == s.len() {
                            assert(s[b].0 != id@);
                        } else {
                            assert(s[a].0 != id@);
                        }
                    }
                }
            },
        }
    }

    /// Forgets the shortcut of `id` and returns it, so that the caller can
    /// release it.
    pub fn remove_shortcut(&mut self, id: &str) -> (r: Option<ShortcutConfig>)
        requires
            old(self).wf(),
        ensures
            final(self).wf(),
            has_id(old(self)@, id@) == r is Some,
            match r {
                Some(c) => {
                    let i = id_index(old(self)@, id@);
                    &&& old(self)@[i].1 == c.shortcut && old(self)@[i].2 == c.description@
                    &&& final(self)@ == old(self)@.remove(i)
                },
                None => final(self)@ == old(self)@,
            },
    {
        let ghost s = self@;
        match self.index_of_id(id) {
            Some(i) => {
                assert(s[i as int] == entry_view(self.shortcuts@[i as int]));
                let (_, c) = self.shortcuts.remove(i);
                assert(self@ =~= s.remove(i as int));
                assert(ids_unique(self@)) by {
                    assert forall|a: int, b: int|
                        0 <= a < self@.len() && 0 <= b < self@.len() && a != b implies #[trigger] self@[a].0
                        != #[trigger] self@[b].0 by {
                        let a2 = if a < i { a } else { a + 1 };
                        let b2 = if b < i { b } else { b + 1 };
                        assert(self@[a] == s[a2]);
                        assert(self@[b] == s[b2]);
                    }
                }
                Some(c)
            },
            None => None,
        }
    }

    /// The id whose handler a pressed shortcut runs: the first entry holding it.
    pub fn handle_shortcut(&self, shortcut: &Shortcut) -> (r: Option<String>)
        ensures
            match r {
                None => forall|i: int| 0 <= i < self@.len() ==> #[trigger] self@[i].1 != *shortcut,
                Some(id) => exists|i: int|
                    0 <= i < self@.len() && #[trigger] self@[i].1 == *shortcut && self@[i].0 == id@
                        && forall|j: int| 0 <= j < i ==> self@[j].1 != *shortcut,
            },
    {
        let mut i: usize = 0;
        while i < self.shortcuts.len()
            invariant
                i <= self@.len(),
                forall|j: int| 0 <= j < i ==> self@[j].1 != *shortcut,
            decreases self@.len() - i,
        {
            assert(self@[i as int] == entry_view(self.shortcuts@[i as int]));
            if self.shortcuts[i].1.shortcut == *shortcut {
                return Some(self.shortcuts[i].0.clone());
            }
            i = i + 1;
        }
        None
    }

    /// All entries: id, shortcut and description.
    pub fn get_all_shortcuts(&self) -> (r: Vec<(String, Shortcut, String)>)
        ensures
            r@.len() == self@.len(),
            forall|i: int| 0 <= i < r@.len() ==> (#[trigger] r@[i].0@, r@[i].1, r@[i].2@) == self@[i],
    {
        let mut r: Vec<(String, Shortcut, String)> = Vec::new();
        let mut i: usize = 0;
        while i < self.shortcuts.len()
            invariant
                i <= self@.len(),
                r@.len() == i,
                forall|j: int| 0 <= j < i ==> (#[trigger] r@[j].0@, r@[j].1, r@[j].2@) == self@[j],
            decreases self@.len() - i,
        {
            assert(self@[i as int] == entry_view(self.shortcuts@[i as int]));
            let e = &self.shortcuts[i];
            r.push((e.0.clone(), e.1.shortcut, e.1.description.clone()));
            i = i + 1;
        }
        r
    }
}

/// Alt+C, the shortcut that shows or hides the control window.
pub fn open_control_window_shortcut() -> (r: Shortcut)
    ensures
        r == (Shortcut { mods: Modifiers { alt: true, ..no_modifiers() }, key: KeyCode::KeyC }),
{
    Shortcut { mods: Modifiers { alt: true, control: false, shift: false, super_key: false }, key: KeyCode::KeyC }
}

/// Whether a shortcut event toggles the control window: Alt+C, on release.
pub fn toggles_control_window(shortcut: &Shortcut, released: bool) -> (r: bool)
    ensures
        r == (*shortcut == open_control_window_shortcut_spec() && released),
{
    let open = open_control_window_shortcut();
    *shortcut == open && released
}

pub open spec fn open_control_window_shortcut_spec() -> Shortcut {
    Shortcut { mods: Modifiers { alt: true, ..no_modifiers() }, key: KeyCode::KeyC }
}

/// A registered shortcut is run only when it is pressed.
pub fn runs_on(pressed: bool) -> (r: bool)
    ensures
        r == pressed,
{
    pressed
}

} // verus!
