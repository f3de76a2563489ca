//! Keys and mouse events, and the names by which keys are bound to actions.

use crate::text::{
    copied, join, joined, lower_char, lowered, same_ignoring_case, same_text, text_of, texts,
    to_lower_char,
};
use vstd::prelude::*;

verus! {

/// A key of the keyboard.
#[derive(Clone, Copy, Debug, PartialEq, Eq, Structural)]
pub enum KeyCode {
    Char(char),
    Tab,
    BackTab,
    Up,
    Down,
    Left,
    Right,
    Enter,
    Esc,
    Home,
    End,
    PageUp,
    PageDown,
    Delete,
    Backspace,
    /// A key that has no name here.
    Other,
}

/// The modifier keys that are held.
#[derive(Clone, Copy, Debug, PartialEq, Eq, Structural)]
pub struct KeyModifiers {
    pub control: bool,
    pub alt: bool,
    pub shift: bool,
}

/// A key with the modifiers that are held. A terminal reports an upper-case letter with the shift
/// key held.
#[derive(Clone, Copy, Debug, PartialEq, Eq, Structural)]
pub struct KeyEvent {
    pub code: KeyCode,
    pub modifiers: KeyModifiers,
}

/// A button of the mouse.
#[derive(Clone, Copy, Debug, PartialEq, Eq, Structural)]
pub enum MouseButton {
    Left,
    Right,
    Middle,
}

/// What the mouse does.
#[derive(Clone, Copy, Debug, PartialEq, Eq, Structural)]
pub enum MouseEventKind {
    Down(MouseButton),
    Up(MouseButton),
    Drag(MouseButton),
    Moved,
    ScrollDown,
    ScrollUp,
    ScrollLeft,
    ScrollRight,
}

/// What the mouse does, and where on the screen.
#[derive(Clone, Copy, Debug, PartialEq, Eq, Structural)]
pub struct MouseEvent {
    pub kind: MouseEventKind,
    pub column: u16,
    pub row: u16,
}

// ---------------------------------------------------------------------------------------------
// Names of keys
// ---------------------------------------------------------------------------------------------

/// One name where the condition holds, none where it does not.
pub open spec fn name_if(held: bool, name: Seq<char>) -> Seq<Seq<char>> {
    if held {
        seq![name]
    } else {
        Seq::empty()
    }
}

/// The names of the modifiers that are held.
pub open spec fn modifier_names(modifiers: KeyModifiers) -> Seq<Seq<char>> {
    name_if(modifiers.control, "ctrl"@) + name_if(modifiers.alt, "alt"@) + name_if(
        modifiers.shift,
        "shift"@,
    )
}

/// The name of a key: a character stands for itself, in lower case where control or alt is held.
pub open spec fn code_name(key: KeyEvent) -> Option<Seq<char>> {
    match key.code {
        KeyCode::Char(c) => if key.modifiers.control || key.modifiers.alt {
            Some(seq![lower_char(c)])
        } else {
            Some(seq![c])
        },
        KeyCode::Tab => Some("tab"@),
        KeyCode::BackTab => Some("backtab"@),
        KeyCode::Up => Some("up"@),
        KeyCode::Down => Some("down"@),
        KeyCode::Left => Some("left"@),
        KeyCode::Right => Some("right"@),
        KeyCode::Enter => Some("enter"@),
        KeyCode::Esc => Some("esc"@),
        KeyCode::Home => Some("home"@),
        KeyCode::End => Some("end"@),
        KeyCode::PageUp => Some("pageup"@),
        KeyCode::PageDown => Some("pagedown"@),
        KeyCode::Delete => Some("delete"@),
        KeyCode::Backspace => Some("backspace"@),
        KeyCode::Other => None,
    }
}

/// The name of a key with its modifiers, joined by plus signs; a key without a name has none.
pub open spec fn key_name(key: KeyEvent) -> Seq<char> {
    match code_name(key) {
        Some(name) => joined(modifier_names(key.modifiers).push(name), "+"@),
        None => Seq::empty(),
    }
}

/// The binding of an action: the configured one, or the default.
pub open spec fn binding(configured: Option<Seq<char>>, default: Seq<char>) -> Seq<char> {
    match configured {
        Some(text) => text,
        None => default,
    }
}

/// An upper-case letter is typed with the shift key, which its binding does not name.
pub open spec fn types_letter(key: KeyEvent, bound: Seq<char>) -> bool {
    match key.code {
        KeyCode::Char(c) => {
            &&& 'A' <= c <= 'Z'
            &&& bound == seq![c]
            &&& key.modifiers == (KeyModifiers { control: false, alt: false, shift: true })
        },
        _ => false,
    }
}

/// The key is the one that is bound: it has the name of the binding, whatever the case of ASCII
/// letters, or it types the letter that the binding is.
pub open spec fn is_bound(key: KeyEvent, bound: Seq<char>) -> bool {
    lowered(key_name(key)) == lowered(bound) || types_letter(key, bound)
}

/// The key is `c` and at least the given modifiers are held.
pub open spec fn holds_with(key: KeyEvent, extra: Option<(char, KeyModifiers)>) -> bool {
    match extra {
        Some((c, modifiers)) => {
            &&& key.code == KeyCode::Char(c)
            &&& modifiers.control ==> key.modifiers.control
            &&& modifiers.alt ==> key.modifiers.alt
            &&& modifiers.shift ==> key.modifiers.shift
        },
        None => false,
    }
}

/// A string of one character.
pub fn one_char(c: char) -> (s: String)
    ensures
        s@ == seq![c],
{
    let mut s = String::new();
    s.push(c);
    proof {
        assert(s@ =~= seq![c]);
    }
    s
}

/// The name of a key with its modifiers.
pub fn render_key_event(key: KeyEvent) -> (name: String)
    ensures
        name@ == key_name(key),
{
    let mut parts: Vec<String> = Vec::new();
    if key.modifiers.control {
        parts.push(copied("ctrl"));
    }
    if key.modifiers.alt {
        parts.push(copied("alt"));
    }
    if key.modifiers.shift {
        parts.push(copied("shift"));
    }
    let ghost held = modifier_names(key.modifiers);
    proof {
        assert(texts(parts@) =~= held);
    }
    let name = match key.code {
        KeyCode::Char(c) => if key.modifiers.control || key.modifiers.alt {
            one_char(to_lower_char(c))
        } else {
            one_char(c)
        },
        KeyCode::Tab => copied("tab"),
        KeyCode::BackTab => copied("backtab"),
        KeyCode::Up => copied("up"),
        KeyCode::Down => copied("down"),
        KeyCode::Left => copied("left"),
        KeyCode::Right => copied("right"),
        KeyCode::Enter => copied("enter"),
        KeyCode::Esc => copied("esc"),
        KeyCode::Home => copied("home"),
        KeyCode::End => copied("end"),
        KeyCode::PageUp => copied("pageup"),
        KeyCode::PageDown => copied("pagedown"),
        KeyCode::Delete => copied("delete"),
        KeyCode::Backspace => copied("backspace"),
        KeyCode::Other => {
            return String::new();
        },
    };
    let ghost last = name@;
    parts.push(name);
    proof {
        assert(texts(parts@) =~= held.push(last));
    }
    join(&parts, "+")
}

/// The binding of an action.
pub fn display_binding(configured: &Option<String>, default: &str) -> (text: String)
    ensures
        text@ == binding(text_of(*configured), default@),
{
    match configured {
        Some(text) => copied(text.as_str()),
        None => copied(default),
    }
}

/// Whether a key is bound to an action by the configuration, by default, or in addition.
pub fn matches_binding(
    key: KeyEvent,
    configured: &Option<String>,
    default: &str,
    extra: Option<(char, KeyModifiers)>,
) -> (b: bool)
    ensures
        b == (is_bound(key, binding(text_of(*configured), default@)) || holds_with(key, extra)),
{
    let name = render_key_event(key);
    let bound = display_binding(configured, default);
    if same_ignoring_case(name.as_str(), bound.as_str()) {
        return true;
    }
    let typed = match key.code {
        KeyCode::Char(c) => 'A' <= c && c <= 'Z' && key.modifiers.shift && !key.modifiers.control
            && !key.modifiers.alt && same_text(bound.as_str(), one_char(c).as_str()),
        _ => false,
    };
    typed || match extra {
        Some((c, modifiers)) => key.code == KeyCode::Char(c) && (!modifiers.control
            || key.modifiers.control) && (!modifiers.alt || key.modifiers.alt) && (!modifiers.shift
            || key.modifiers.shift),
        None => false,
    }
}

} // verus!
