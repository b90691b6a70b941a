//! Keys, and what they do on each screen.

pub mod command;
pub mod edit;
pub mod fieldedit;
pub mod fieldview;
pub mod index;
pub mod login;
pub mod settings;

use vstd::prelude::*;

use crate::text::{chars_of, string_of_range, wipe, wipe_chars};

verus! {

/// A key as the screens see it.
#[derive(Clone, Copy, PartialEq, Eq, Debug, Structural)]
pub enum KeyCode {
    Esc,
    Enter,
    Char(char),
    Backspace,
    Delete,
    Left,
    Right,
    Up,
    Down,
    Home,
    End,
    PageUp,
    PageDown,
    Tab,
    Other,
}

/// The modifier keys held with a key; only Control changes what a key does.
#[allow(non_camel_case_types)]
#[derive(Clone, Copy, PartialEq, Eq, Debug, Structural)]
pub enum KeyModifiers {
    NONE,
    CONTROL,
}

impl KeyModifiers {
    pub fn contains_control(&self) -> (r: bool)
        ensures
            r == (*self == KeyModifiers::CONTROL),
    {
        match self {
            KeyModifiers::CONTROL => true,
            KeyModifiers::NONE => false,
        }
    }

    /// Whether the modifiers held include `other`; every set includes the
    /// empty one.
    pub fn contains(&self, other: KeyModifiers) -> (r: bool)
        ensures
            r == (other == KeyModifiers::NONE || *self == other),
    {
        match other {
            KeyModifiers::NONE => true,
            KeyModifiers::CONTROL => self.contains_control(),
        }
    }
}

/// A key press: the key and the modifiers held with it.
#[derive(Clone, Copy, PartialEq, Eq, Debug, Structural)]
pub struct KeyEvent {
    pub code: KeyCode,
    pub modifiers: KeyModifiers,
}

impl KeyEvent {
    pub fn new(code: KeyCode, modifiers: KeyModifiers) -> (k: KeyEvent)
        ensures
            k.code == code,
            k.modifiers == modifiers,
    {
        KeyEvent { code, modifiers }
    }
}

impl From<KeyCode> for KeyEvent {
    fn from(code: KeyCode) -> (k: KeyEvent) {
        KeyEvent { code, modifiers: KeyModifiers::NONE }
    }
}

impl vstd::std_specs::convert::FromSpecImpl<KeyCode> for KeyEvent {
    open spec fn obeys_from_spec() -> bool {
        true
    }

    open spec fn from_spec(code: KeyCode) -> KeyEvent {
        KeyEvent { code, modifiers: KeyModifiers::NONE }
    }
}

/// The ASCII lowercase of `c`; every other character is left as it is.
pub open spec fn ascii_lower(c: char) -> char {
    if 'A' <= c && c <= 'Z' {
        ((c as u32) + 32) as char
    } else {
        c
    }
}

pub fn to_ascii_lowercase(c: char) -> (r: char)
    ensures
        r == ascii_lower(c),
{
    if 'A' <= c && c <= 'Z' {
        ((c as u8) + 32) as char
    } else {
        c
    }
}


/// The key a shortcut is looked up by: letters are matched without regard
/// to ASCII case.
pub open spec fn shortcut_of(key: KeyCode) -> KeyCode {
    match key {
        KeyCode::Char(c) => KeyCode::Char(ascii_lower(c)),
        other => other,
    }
}

pub fn normalize_shortcut(key: KeyCode) -> (r: KeyCode)
    ensures
        r == shortcut_of(key),
{
    match key {
        KeyCode::Char(c) => KeyCode::Char(to_ascii_lowercase(c)),
        other => other,
    }
}

/// Removes the last character of a secret, wiping the buffer that held it.
pub fn secret_pop(secret: &mut String)
    ensures
        final(secret)@ == if old(secret)@.len() > 0 {
            old(secret)@.drop_last()
        } else {
            old(secret)@
        },
{
    let mut chars = chars_of(secret.as_str());
    let n = chars.len();
    if n == 0 {
        return;
    }
    let mut kept = string_of_range(&chars, 0, n - 1);
    wipe_chars(&mut chars);
    std::mem::swap(secret, &mut kept);
    wipe(&mut kept);
}

} // verus!
