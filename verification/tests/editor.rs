use cosmicsnip::annotation::Tool;
use cosmicsnip::editor::{key_action, Gesture, Key, KeyAction, Pointer, PointerEvent};

fn ch(s: &str) -> Key {
    Key::Character(String::from(s))
}

#[test]
fn escape_closes_whatever_is_held() {
    assert_eq!(key_action(&Key::Escape, false), KeyAction::Exit);
    assert_eq!(key_action(&Key::Escape, true), KeyAction::Exit);
    assert_eq!(key_action(&Key::Other, false), KeyAction::Nothing);
}

#[test]
fn control_keys_act_on_the_snip() {
    assert_eq!(key_action(&ch("c"), true), KeyAction::Copy);
    assert_eq!(key_action(&ch("S"), true), KeyAction::Save);
    assert_eq!(key_action(&ch("z"), true), KeyAction::Undo);
    assert_eq!(key_action(&ch("n"), true), KeyAction::New);
    assert_eq!(key_action(&ch("Q"), true), KeyAction::Exit);
    assert_eq!(key_action(&ch("p"), true), KeyAction::Nothing);
}

#[test]
fn plain_keys_change_the_width_or_the_tool() {
    for k in ["+", "=", "]"] {
        assert_eq!(key_action(&ch(k), false), KeyAction::Wider);
    }
    for k in ["-", "["] {
        assert_eq!(key_action(&ch(k), false), KeyAction::Narrower);
    }
    assert_eq!(key_action(&ch("P"), false), KeyAction::Select(Tool::Pen));
    assert_eq!(key_action(&ch("h"), false), KeyAction::Select(Tool::Highlighter));
    assert_eq!(key_action(&ch("a"), false), KeyAction::Select(Tool::Arrow));
    assert_eq!(key_action(&ch("R"), false), KeyAction::Select(Tool::Rect));
    assert_eq!(key_action(&ch("c"), false), KeyAction::Nothing);
    assert_eq!(key_action(&ch(""), false), KeyAction::Nothing);
    assert_eq!(key_action(&ch("ab"), false), KeyAction::Select(Tool::Arrow));
}

#[test]
fn a_press_drag_release_is_one_stroke() {
    let mut p = Pointer::default();
    assert_eq!(p.on_event(PointerEvent::Moved { located: true }), None);
    assert_eq!(p.on_event(PointerEvent::Pressed { inside: false }), None);
    assert!(!p.drawing);
    assert_eq!(p.on_event(PointerEvent::Pressed { inside: true }), Some(Gesture::Begin));
    assert_eq!(p.on_event(PointerEvent::Moved { located: true }), Some(Gesture::Extend));
    assert_eq!(p.on_event(PointerEvent::Moved { located: false }), None);
    assert_eq!(p.on_event(PointerEvent::Other), None);
    assert_eq!(p.on_event(PointerEvent::Released), Some(Gesture::Finish));
    assert!(!p.drawing);
    assert_eq!(p.on_event(PointerEvent::Released), None);
}
