//! The editor's decisions: what a key press asks for, and which pointer
//! events draw.

use vstd::prelude::*;

use crate::annotation::{ascii_lowercase_code, hotkey_tool, Tool};

verus! {

/// A key press, as the editor reads it.
#[derive(Debug, PartialEq)]
pub enum Key {
    Escape,
    /// A key that types text; only its first character counts.
    Character(String),
    Other,
}

/// What a key press asks the editor to do.
#[derive(Clone, Copy, Debug, PartialEq, Eq, Structural)]
pub enum KeyAction {
    Nothing,
    Exit,
    Copy,
    Save,
    Undo,
    New,
    Wider,
    Narrower,
    Select(Tool),
}

/// What the character `c` asks for, with Ctrl held or not, case aside.
pub open spec fn char_action(c: char, ctrl: bool) -> KeyAction {
    let code = ascii_lowercase_code(c);
    if ctrl {
        if code == 99 {
            KeyAction::Copy
        } else if code == 115 {
            KeyAction::Save
        } else if code == 122 {
            KeyAction::Undo
        } else if code == 110 {
            KeyAction::New
        } else if code == 113 {
            KeyAction::Exit
        } else {
            KeyAction::Nothing
        }
    } else if code == 43 || code == 61 || code == 93 {
        KeyAction::Wider
    } else if code == 45 || code == 91 {
        KeyAction::Narrower
    } else {
        match hotkey_tool(c) {
            Some(tool) => KeyAction::Select(tool),
            None => KeyAction::Nothing,
        }
    }
}

/// Esc closes; Ctrl+C copies, Ctrl+S saves, Ctrl+Z undoes, Ctrl+N starts a
/// new snip, Ctrl+Q closes; `+`, `=` and `]` widen the stroke, `-` and `[`
/// narrow it; P, H, A and R pick a tool.
pub fn key_action(key: &Key, ctrl: bool) -> (action: KeyAction)
    ensures
        action == match key {
            Key::Escape => KeyAction::Exit,
            Key::Character(text) => if text@.len() == 0 {
                KeyAction::Nothing
            } else {
                char_action(text@[0], ctrl)
            },
            Key::Other => KeyAction::Nothing,
        },
{
    match key {
        Key::Escape => KeyAction::Exit,
        Key::Other => KeyAction::Nothing,
        Key::Character(text) => {
            let text = text.as_str();
            if text.is_empty() {
                return KeyAction::Nothing;
            }
            let c = text.get_char(0);
            if ctrl {
                match c {
                    'c' | 'C' => KeyAction::Copy,
                    's' | 'S' => KeyAction::Save,
                    'z' | 'Z' => KeyAction::Undo,
                    'n' | 'N' => KeyAction::New,
                    'q' | 'Q' => KeyAction::Exit,
                    _ => KeyAction::Nothing,
                }
            } else {
                match c {
                    '+' | '=' | ']' => KeyAction::Wider,
                    '-' | '[' => KeyAction::Narrower,
                    _ => match Tool::from_hotkey(c) {
                        Some(tool) => KeyAction::Select(tool),
                        None => KeyAction::Nothing,
                    },
                }
            }
        },
    }
}

/// A pointer event over the canvas.
#[derive(Clone, Copy, Debug, PartialEq, Eq, Structural)]
pub enum PointerEvent {
    /// The left button went down; `inside` when the cursor is on the canvas.
    Pressed { inside: bool },
    /// The cursor moved; `located` when its position is known.
    Moved { located: bool },
    /// The left button came up.
    Released,
    Other,
}

/// What a pointer event does to the stroke being drawn.
#[derive(Clone, Copy, Debug, PartialEq, Eq, Structural)]
pub enum Gesture {
    Begin,
    Extend,
    Finish,
}

/// Whether the left button is held down on the canvas.
#[derive(Clone, Copy, Debug, PartialEq, Eq, Structural)]
pub struct Pointer {
    pub drawing: bool,
}

impl Pointer {
    /// A press on the canvas begins a stroke; a move while drawing extends it;
    /// the release finishes it. Anything else draws nothing.
    pub fn on_event(&mut self, event: PointerEvent) -> (gesture: Option<Gesture>)
        ensures
            gesture == match event {
                PointerEvent::Pressed { inside } => if inside {
                    Some(Gesture::Begin)
                } else {
                    None
                },
                PointerEvent::Moved { located } => if old(self).drawing && located {
                    Some(Gesture::Extend)
                } else {
                    None
                },
                PointerEvent::Released => if old(self).drawing {
                    Some(Gesture::Finish)
                } else {
                    None
                },
                PointerEvent::Other => None,
            },
            final(self).drawing == match event {
                PointerEvent::Pressed { inside } => old(self).drawing || inside,
                PointerEvent::Released => false,
                _ => old(self).drawing,
            },
    {
        match event {
            PointerEvent::Pressed { inside } => {
                if !inside {
                    return None;
                }
                self.drawing = true;
                Some(Gesture::Begin)
            },
            PointerEvent::Moved { located } => {
                if self.drawing && located {
                    Some(Gesture::Extend)
                } else {
                    None
                }
            },
            PointerEvent::Released => {
                if self.drawing {
                    self.drawing = false;
                    Some(Gesture::Finish)
                } else {
                    None
                }
            },
            PointerEvent::Other => None,
        }
    }
}

impl Default for Pointer {
    fn default() -> (p: Self)
        ensures
            !p.drawing,
    {
        Pointer { drawing: false }
    }
}

/// With Ctrl held, C copies, S saves, Z undoes, N starts a new snip and Q
/// closes, in either case; every other character does nothing.
pub proof fn lemma_control_keys(c: char)
    ensures
        (c == 'c' || c == 'C') ==> char_action(c, true) == KeyAction::Copy,
        (c == 's' || c == 'S') ==> char_action(c, true) == KeyAction::Save,
        (c == 'z' || c == 'Z') ==> char_action(c, true) == KeyAction::Undo,
        (c == 'n' || c == 'N') ==> char_action(c, true) == KeyAction::New,
        (c == 'q' || c == 'Q') ==> char_action(c, true) == KeyAction::Exit,
        !(c == 'c' || c == 'C' || c == 's' || c == 'S' || c == 'z' || c == 'Z' || c == 'n' || c
            == 'N' || c == 'q' || c == 'Q') ==> char_action(c, true) == KeyAction::Nothing,
{
    if 65 <= (c as u32) && (c as u32) <= 90 {
        vstd::utf8::char_u32_cast(c, c as u32);
    }
}

/// Without Ctrl, `+`, `=` and `]` widen the stroke, `-` and `[` narrow it,
/// and P, H, A and R pick their tools in either case.
pub proof fn lemma_plain_keys(c: char)
    ensures
        (c == '+' || c == '=' || c == ']') ==> char_action(c, false) == KeyAction::Wider,
        (c == '-' || c == '[') ==> char_action(c, false) == KeyAction::Narrower,
        (c == 'p' || c == 'P') ==> char_action(c, false) == KeyAction::Select(Tool::Pen),
        (c == 'h' || c == 'H') ==> char_action(c, false) == KeyAction::Select(Tool::Highlighter),
        (c == 'a' || c == 'A') ==> char_action(c, false) == KeyAction::Select(Tool::Arrow),
        (c == 'r' || c == 'R') ==> char_action(c, false) == KeyAction::Select(Tool::Rect),
{
    crate::annotation::lemma_hotkeys(c);
}

/// A key does the same in either case: a letter and its upper case ask for
/// the same action, with Ctrl held or not.
pub proof fn lemma_key_case(lower: char, upper: char, ctrl: bool)
    requires
        'A' <= upper <= 'Z',
        lower as u32 == upper as u32 + 32,
    ensures
        char_action(lower, ctrl) == char_action(upper, ctrl),
{
    crate::annotation::lemma_hotkey_case(lower, upper);
}

} // verus!
