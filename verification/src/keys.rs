//! Key interpretation: from the raw name of a key to an edit action.
//!
//! Keys are named as the browser names them in a keyboard event: `Enter`,
//! `Backspace`, `ArrowLeft`, or the character that the key types. The page
//! puts `Shift+` before the name of a movement key that is pressed with
//! shift held down.

use vstd::prelude::*;
use vstd::string::StrSliceExecFns;

verus! {

/// A direction in which the caret can travel.
#[derive(Clone, Copy, Debug, PartialEq, Eq)]
pub enum Motion {
    Left,
    Right,
    Up,
    Down,
    Home,
    End,
}

impl Motion {
    /// Whether the motion travels towards the start of the document.
    pub open spec fn is_backward(self) -> bool {
        self is Left || self is Up || self is Home
    }

    /// Whether the motion travels towards the start of the document.
    pub fn backward(self) -> (b: bool)
        ensures
            b == self.is_backward(),
    {
        match self {
            Motion::Left | Motion::Up | Motion::Home => true,
            Motion::Right | Motion::Down | Motion::End => false,
        }
    }
}

/// An edit action that a key press stands for.
#[derive(Clone, Copy, Debug, PartialEq, Eq)]
pub enum Key {
    /// Insert the character at the caret.
    Character(char),
    /// Insert a line break at the caret.
    Enter,
    /// Delete backwards.
    Backspace,
    /// Delete forwards.
    Delete,
    /// Move the caret, collapsing any selection.
    Move(Motion),
    /// Move one end of the selection and keep the other.
    Extend(Motion),
}

/// The motion that a key name stands for, if it is the name of a movement key.
pub open spec fn parse_motion(raw: Seq<char>) -> Option<Motion> {
    if raw == "ArrowLeft"@ {
        Some(Motion::Left)
    } else if raw == "ArrowRight"@ {
        Some(Motion::Right)
    } else if raw == "ArrowUp"@ {
        Some(Motion::Up)
    } else if raw == "ArrowDown"@ {
        Some(Motion::Down)
    } else if raw == "Home"@ {
        Some(Motion::Home)
    } else if raw == "End"@ {
        Some(Motion::End)
    } else {
        None
    }
}

/// The action that a raw key name stands for.
///
/// Named keys come first, then movement keys, then movement keys behind the
/// prefix `Shift+`, which extend the selection. Any other input of exactly one
/// character inserts that character. Everything else, the empty input
/// included, stands for nothing.
pub open spec fn parse_key(raw: Seq<char>) -> Option<Key> {
    if raw == "Enter"@ {
        Some(Key::Enter)
    } else if raw == "Backspace"@ {
        Some(Key::Backspace)
    } else if raw == "Delete"@ {
        Some(Key::Delete)
    } else if parse_motion(raw) is Some {
        Some(Key::Move(parse_motion(raw)->0))
    } else if "Shift+"@.is_prefix_of(raw) {
        match parse_motion(raw.skip("Shift+"@.len() as int)) {
            Some(motion) => Some(Key::Extend(motion)),
            None => None,
        }
    } else if raw.len() == 1 {
        Some(Key::Character(raw[0]))
    } else {
        None
    }
}

/// The characters of a string slice, in order.
fn chars_of(val: &str) -> (chars: Vec<char>)
    ensures
        chars@ == val@,
{
    let mut chars: Vec<char> = Vec::new();
    for c in it: val.chars()
        invariant
            chars@ == it.seq().take(it.index() as int),
    {
        chars.push(c);
    }
    chars
}

/// Whether `chars`, from index `from` on, spells exactly `name`.
fn spells(chars: &Vec<char>, from: usize, name: &str) -> (b: bool)
    requires
        from <= chars.len(),
    ensures
        b == (chars@.skip(from as int) == name@),
{
    let n: usize = name.unicode_len();
    if chars.len() - from != n {
        return false;
    }
    let mut i: usize = 0;
    while i < n
        invariant
            from + n == chars.len(),
            n == name@.len(),
            i <= n,
            forall|j: int| 0 <= j < i ==> chars@[from + j] == name@[j],
        decreases n - i,
    {
        if chars[from + i] != name.get_char(i) {
            assert(chars@.skip(from as int)[i as int] != name@[i as int]);
            return false;
        }
        i += 1;
    }
    assert(chars@.skip(from as int) =~= name@);
    true
}

/// Whether `chars` begins with `prefix`.
fn begins_with(chars: &Vec<char>, prefix: &str) -> (b: bool)
    ensures
        b == prefix@.is_prefix_of(chars@),
{
    let n: usize = prefix.unicode_len();
    if chars.len() < n {
        return false;
    }
    let mut i: usize = 0;
    while i < n
        invariant
            n <= chars.len(),
            n == prefix@.len(),
            i <= n,
            forall|j: int| 0 <= j < i ==> chars@[j] == prefix@[j],
        decreases n - i,
    {
        if chars[i] != prefix.get_char(i) {
            assert(chars@.subrange(0, n as int)[i as int] != prefix@[i as int]);
            return false;
        }
        i += 1;
    }
    assert(prefix@ =~= chars@.subrange(0, n as int));
    true
}

/// The motion spelled by `chars` from index `from` on.
fn motion_from(chars: &Vec<char>, from: usize) -> (motion: Option<Motion>)
    requires
        from <= chars.len(),
    ensures
        motion == parse_motion(chars@.skip(from as int)),
{
    if spells(chars, from, "ArrowLeft") {
        Some(Motion::Left)
    } else if spells(chars, from, "ArrowRight") {
        Some(Motion::Right)
    } else if spells(chars, from, "ArrowUp") {
        Some(Motion::Up)
    } else if spells(chars, from, "ArrowDown") {
        Some(Motion::Down)
    } else if spells(chars, from, "Home") {
        Some(Motion::Home)
    } else if spells(chars, from, "End") {
        Some(Motion::End)
    } else {
        None
    }
}

impl Key {
    /// Interpret the raw name of a key.
    ///
    /// Returns `None` for input that stands for no action; the caller then
    /// leaves the key to the platform.
    pub fn from_str(val: &str) -> (key: Option<Key>)
        ensures
            key == parse_key(val@),
    {
        let chars = chars_of(val);
        assert(chars@.skip(0) =~= chars@);
        if spells(&chars, 0, "Enter") {
            Some(Key::Enter)
        } else if spells(&chars, 0, "Backspace") {
            Some(Key::Backspace)
        } else if spells(&chars, 0, "Delete") {
            Some(Key::Delete)
        } else {
            match motion_from(&chars, 0) {
                Some(motion) => Some(Key::Move(motion)),
                None => {
                    if begins_with(&chars, "Shift+") {
                        let n: usize = "Shift+".unicode_len();
                        match motion_from(&chars, n) {
                            Some(motion) => Some(Key::Extend(motion)),
                            None => None,
                        }
                    } else if chars.len() == 1 {
                        Some(Key::Character(chars[0]))
                    } else {
                        None
                    }
                },
            }
        }
    }
}

} // verus!
