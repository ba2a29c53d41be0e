//! What comes from the keyboard.
use crate::text::{
    chars_of, find, is_ascii_char, lemma_place_is, lower_char, place, to_lower_char,
};
use vstd::prelude::*;
use vstd::string::*;

verus! {

/// A key.
#[derive(Debug, Clone, Copy, PartialEq, Eq, Structural)]
pub enum KeyCode {
    Char(char),
    F(u8),
    Enter,
    Esc,
    Tab,
    BackTab,
    Backspace,
    Delete,
    Left,
    Right,
    Up,
    Down,
    Home,
    End,
    PageUp,
    PageDown,
    Other,
}

/// A key with what was held down along with it.
#[derive(Debug, Clone, Copy, PartialEq, Eq, Structural)]
pub struct KeyEvent {
    pub code: KeyCode,
    pub ctrl: bool,
    /// Pressed, and not let go.
    pub press: bool,
}

/// The Latin letter on the same key of the keyboard as a Russian one, if there is
/// one.
pub open spec fn same_key(c: char) -> Option<char> {
    let at = place("йцукенгшщзфывапролдячсмить"@, c);
    if at < "qwertyuiopasdfghjklzxcvbnm"@.len() {
        Some("qwertyuiopasdfghjklzxcvbnm"@[at])
    } else {
        None
    }
}

/// A key with another letter, where there is one.
pub open spec fn relettered(key: KeyEvent, letter: Option<char>) -> KeyEvent {
    match letter {
        Some(c) => KeyEvent { code: KeyCode::Char(c), ..key },
        None => key,
    }
}

/// A shortcut in its Latin form.
pub open spec fn normalized(key: KeyEvent) -> KeyEvent {
    match key.code {
        KeyCode::Char(ch) => if key.ctrl {
            relettered(key, same_key(lower_char(ch)))
        } else {
            key
        },
        _ => key,
    }
}

/// No ASCII character shares its key with a Latin letter.
pub proof fn lemma_latin_stays(c: char)
    requires
        is_ascii_char(c),
    ensures
        same_key(c) is None,
{
    let russian = "йцукенгшщзфывапролдячсмить"@;
    reveal_strlit("йцукенгшщзфывапролдячсмить");
    reveal_strlit("qwertyuiopasdfghjklzxcvbnm");
    assert forall|i: int| 0 <= i < russian.len() implies russian[i] != c by {}
    lemma_place_is(russian, c, russian.len() as int);
}

/// The letters that stand for others are small ones of ASCII.
proof fn lemma_latin_letter(at: int)
    requires
        0 <= at < "qwertyuiopasdfghjklzxcvbnm"@.len(),
    ensures
        'a' <= "qwertyuiopasdfghjklzxcvbnm"@[at] <= 'z',
{
    reveal_strlit("qwertyuiopasdfghjklzxcvbnm");
}

/// Turns Ctrl with a Russian letter into the Latin shortcut on the same key.
///
/// Otherwise all shortcuts would fail exactly when they are used: while somebody
/// writes in Russian. What is in its Latin form stays as it is.
pub fn normalize_shortcut(key: KeyEvent) -> (r: KeyEvent)
    ensures
        r == normalized(key),
        normalized(r) == r,
        key.code matches KeyCode::Char(c) ==> is_ascii_char(c) ==> r == key,
        key.code matches KeyCode::Char(c) ==> key.ctrl && 'а' <= c <= 'я' ==> r == relettered(
            key,
            same_key(c),
        ),
{
    if !key.ctrl {
        return key;
    }
    let ch = match key.code {
        KeyCode::Char(ch) => ch,
        _ => {
            return key;
        },
    };
    let russian = chars_of("йцукенгшщзфывапролдячсмить");
    let latin = chars_of("qwertyuiopasdfghjklzxcvbnm");
    let small = to_lower_char(ch);
    let at = find(&russian, small);
    proof {
        if is_ascii_char(ch) {
            lemma_latin_stays(small);
        }
    }
    if at < latin.len() {
        let again = to_lower_char(latin[at]);
        proof {
            lemma_latin_letter(at as int);
            lemma_latin_stays(again);
        }
        KeyEvent { code: KeyCode::Char(latin[at]), ctrl: key.ctrl, press: key.press }
    } else {
        key
    }
}

/// Only a shortcut changes, and only its letter does.
pub proof fn law_only_shortcuts_change(key: KeyEvent)
    ensures
        !key.ctrl ==> normalized(key) == key,
        !(key.code is Char) ==> normalized(key) == key,
        normalized(key).ctrl == key.ctrl,
        normalized(key).press == key.press,
{
}

} // verus!
