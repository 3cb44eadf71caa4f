use vstd::prelude::*;

verus! {

/// A key on the keyboard.
#[derive(Debug, Clone, Copy, PartialEq, Eq, Structural, Hash)]
pub enum KeyCode {
    Backspace,
    Enter,
    Left,
    Right,
    Up,
    Down,
    Home,
    End,
    PageUp,
    PageDown,
    Tab,
    BackTab,
    Delete,
    Insert,
    /// Function key `F(n)`.
    F(u8),
    /// A character key.
    Char(char),
    Null,
    Esc,
}

/// The set of modifier keys held down with a key: shift, control and alt.
#[derive(Debug, Clone, Copy, PartialEq, Eq, Structural, Hash)]
pub struct KeyModifiers {
    pub shift: bool,
    pub control: bool,
    pub alt: bool,
}

impl KeyModifiers {
    /// No modifier.
    pub fn empty() -> (r: KeyModifiers)
        ensures
            !r.shift && !r.control && !r.alt,
    {
        KeyModifiers { shift: false, control: false, alt: false }
    }

    /// Shift alone.
    pub fn shift() -> (r: KeyModifiers)
        ensures
            r.shift && !r.control && !r.alt,
    {
        KeyModifiers { shift: true, control: false, alt: false }
    }

    /// Control alone.
    pub fn control() -> (r: KeyModifiers)
        ensures
            !r.shift && r.control && !r.alt,
    {
        KeyModifiers { shift: false, control: true, alt: false }
    }

    /// Alt alone.
    pub fn alt() -> (r: KeyModifiers)
        ensures
            !r.shift && !r.control && r.alt,
    {
        KeyModifiers { shift: false, control: false, alt: true }
    }

    /// The modifiers held in either set.
    #[verifier::when_used_as_spec(spec_union)]
    pub fn union(self, other: KeyModifiers) -> (r: KeyModifiers)
        ensures
            r == self.spec_union(other),
    {
        KeyModifiers {
            shift: self.shift || other.shift,
            control: self.control || other.control,
            alt: self.alt || other.alt,
        }
    }

    /// Whether every modifier of `other` is held in `self`.
    pub fn contains(&self, other: KeyModifiers) -> (r: bool)
        ensures
            r == ((other.shift ==> self.shift) && (other.control ==> self.control) && (
            other.alt ==> self.alt)),
    {
        (!other.shift || self.shift) && (!other.control || self.control) && (!other.alt
            || self.alt)
    }

    /// Adds the modifiers of `other` to `self`.
    pub fn insert(&mut self, other: KeyModifiers)
        ensures
            *final(self) == old(self).union(other),
    {
        *self = self.union(other);
    }

    pub open spec fn spec_union(self, other: KeyModifiers) -> KeyModifiers {
        KeyModifiers {
            shift: self.shift || other.shift,
            control: self.control || other.control,
            alt: self.alt || other.alt,
        }
    }
}

pub open spec fn is_ascii_upper(c: char) -> bool {
    'A' <= c && c <= 'Z'
}

pub open spec fn is_ascii_lower(c: char) -> bool {
    'a' <= c && c <= 'z'
}

/// Whether `c` is an ASCII letter.
pub open spec fn is_ascii_letter(c: char) -> bool {
    is_ascii_upper(c) || is_ascii_lower(c)
}

/// The upper-case form of an ASCII lower-case letter; any other character is kept.
pub open spec fn ascii_upper(c: char) -> char {
    if is_ascii_lower(c) {
        ((c as u32) - 32) as char
    } else {
        c
    }
}

fn to_ascii_upper(c: char) -> (r: char)
    ensures
        r == ascii_upper(c),
{
    if 'a' <= c && c <= 'z' {
        ((c as u8) - 32) as char
    } else {
        c
    }
}

/// A key press: a key code with its modifiers.
#[derive(Debug, Clone, Copy)]
pub struct KeyEvent {
    pub code: KeyCode,
    pub modifiers: KeyModifiers,
}

/// The canonical form of a key event: a character key carries SHIFT exactly when its
/// letter is upper case. An upper-case letter gains SHIFT; a lower-case letter with
/// SHIFT becomes upper case. Other keys are kept.
pub open spec fn normalize(e: KeyEvent) -> KeyEvent {
    match e.code {
        KeyCode::Char(c) => if is_ascii_upper(c) {
            KeyEvent { code: e.code, modifiers: e.modifiers.union(KeyModifiers { shift: true, control: false, alt: false }) }
        } else if e.modifiers.shift {
            KeyEvent { code: KeyCode::Char(ascii_upper(c)), modifiers: e.modifiers }
        } else {
            e
        },
        _ => e,
    }
}

/// Two key events denote the same key press once both are normalized.
pub open spec fn same_key(a: KeyEvent, b: KeyEvent) -> bool {
    normalize(a) == normalize(b)
}

impl KeyEvent {
    pub fn new(code: KeyCode, modifiers: KeyModifiers) -> (r: KeyEvent)
        ensures
            r.code == code,
            r.modifiers == modifiers,
    {
        KeyEvent { code, modifiers }
    }

    /// The normalized form of this event (see [`normalize`]).
    pub fn normalize_case(self) -> (r: KeyEvent)
        ensures
            r == normalize(self),
    {
        let mut e = self;
        let c = match e.code {
            KeyCode::Char(c) => c,
            _ => return e,
        };
        if 'A' <= c && c <= 'Z' {
            e.modifiers.insert(KeyModifiers::shift());
        } else if e.modifiers.contains(KeyModifiers::shift()) {
            e.code = KeyCode::Char(to_ascii_upper(c));
        }
        e
    }
}

impl From<KeyCode> for KeyEvent {
    fn from(code: KeyCode) -> (r: KeyEvent) {
        KeyEvent { code, modifiers: KeyModifiers::empty() }
    }
}

impl vstd::std_specs::convert::FromSpecImpl<KeyCode> for KeyEvent {
    open spec fn obeys_from_spec() -> bool {
        true
    }

    open spec fn from_spec(code: KeyCode) -> KeyEvent {
        KeyEvent { code, modifiers: KeyModifiers { shift: false, control: false, alt: false } }
    }
}

impl PartialEq for KeyEvent {
    fn eq(&self, other: &KeyEvent) -> (r: bool) {
        let a = self.normalize_case();
        let b = other.normalize_case();
        a.code == b.code && a.modifiers == b.modifiers
    }
}

impl vstd::std_specs::cmp::PartialEqSpecImpl for KeyEvent {
    open spec fn obeys_eq_spec() -> bool {
        true
    }

    open spec fn eq_spec(&self, other: &KeyEvent) -> bool {
        same_key(*self, *other)
    }
}

impl Eq for KeyEvent {}

/// An input event.
#[derive(Debug)]
pub enum Event {
    Key(KeyEvent),
}

} // verus!
