//! Normalization of raw keyboard input into the state machine's vocabulary:
//! named keys are mapped or swallowed, and a plain character is passed
//! through only when it is alphanumeric, whitespace or ASCII punctuation.

use vstd::prelude::*;

verus! {

/// A keyboard event after platform decoding: the named keys the game reacts
/// to, a single plain character, or anything else (a modifier, a function
/// key, and the like).
#[derive(PartialEq, Eq, Structural, Clone, Copy, Debug)]
pub enum RawKey {
    Escape,
    Backspace,
    Enter,
    Tab,
    Char(char),
    Other,
}

/// What the session should do with one raw key.
#[derive(PartialEq, Eq, Structural, Clone, Copy, Debug)]
pub enum KeyCommand {
    /// The key has no effect on the session.
    Ignore,
    /// Undo the latest pending mistake.
    EraseMistake,
    /// Feed this character to the matching logic.
    Press(char),
}

/// Whether `char::is_alphanumeric` holds: a Unicode property of the
/// character alone.
pub uninterp spec fn is_alphanumeric_char(c: char) -> bool;

/// Whether `char::is_whitespace` holds: a Unicode property of the character
/// alone.
pub uninterp spec fn is_whitespace_char(c: char) -> bool;

/// Relies on `char::is_alphanumeric`: the result depends on the character
/// alone.
#[verifier::external_body]
fn char_is_alphanumeric(c: char) -> (r: bool)
    ensures
        r == is_alphanumeric_char(c),
{
    c.is_alphanumeric()
}

/// Relies on `char::is_whitespace`: the result depends on the character
/// alone.
#[verifier::external_body]
fn char_is_whitespace(c: char) -> (r: bool)
    ensures
        r == is_whitespace_char(c),
{
    c.is_whitespace()
}

/// ASCII punctuation: the four printable ASCII ranges that are neither
/// letters, digits nor space.
pub open spec fn is_ascii_punct(c: char) -> bool {
    let u = c as u32;
    (0x21 <= u && u <= 0x2f) || (0x3a <= u && u <= 0x40) || (0x5b <= u && u <= 0x60) || (0x7b <= u
        && u <= 0x7e)
}

/// The characters the matching logic accepts from a plain key.
pub open spec fn accepts_char(c: char) -> bool {
    is_alphanumeric_char(c) || is_whitespace_char(c) || is_ascii_punct(c)
}

/// The normalization policy. Escape only releases focus, a caller concern;
/// Backspace erases a pending mistake and is swallowed when there is none;
/// Enter and Tab stand for their characters; any other single character
/// passes the [`accepts_char`] filter or is discarded.
pub open spec fn spec_normalize(key: RawKey, mistakes_pending: bool) -> KeyCommand {
    match key {
        RawKey::Escape => KeyCommand::Ignore,
        RawKey::Backspace => if mistakes_pending {
            KeyCommand::EraseMistake
        } else {
            KeyCommand::Ignore
        },
        RawKey::Enter => KeyCommand::Press('\n'),
        RawKey::Tab => KeyCommand::Press('\t'),
        RawKey::Char(c) => if accepts_char(c) {
            KeyCommand::Press(c)
        } else {
            KeyCommand::Ignore
        },
        RawKey::Other => KeyCommand::Ignore,
    }
}

/// Decide what one raw key does, given whether mistakes are pending.
pub fn normalize_key(key: RawKey, mistakes_pending: bool) -> (r: KeyCommand)
    ensures
        r == spec_normalize(key, mistakes_pending),
{
    match key {
        RawKey::Escape => KeyCommand::Ignore,
        RawKey::Backspace => if mistakes_pending {
            KeyCommand::EraseMistake
        } else {
            KeyCommand::Ignore
        },
        RawKey::Enter => KeyCommand::Press('\n'),
        RawKey::Tab => KeyCommand::Press('\t'),
        RawKey::Char(c) => {
            if char_is_alphanumeric(c) || char_is_whitespace(c) || char_is_ascii_punct(c) {
                KeyCommand::Press(c)
            } else {
                KeyCommand::Ignore
            }
        },
        RawKey::Other => KeyCommand::Ignore,
    }
}

/// Exec form of [`is_ascii_punct`].
fn char_is_ascii_punct(c: char) -> (r: bool)
    ensures
        r == is_ascii_punct(c),
{
    let u = c as u32;
    (0x21 <= u && u <= 0x2f) || (0x3a <= u && u <= 0x40) || (0x5b <= u && u <= 0x60) || (0x7b <= u
        && u <= 0x7e)
}

} // verus!
