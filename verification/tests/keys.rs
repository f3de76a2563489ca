use dui::keys::{display_binding, matches_binding, render_key_event, KeyCode, KeyEvent, KeyModifiers};

fn event(code: KeyCode, held: &str) -> KeyEvent {
    KeyEvent {
        code,
        modifiers: KeyModifiers {
            control: held.contains('c'),
            alt: held.contains('a'),
            shift: held.contains('s'),
        },
    }
}

#[test]
fn keys_have_names() {
    assert_eq!(render_key_event(event(KeyCode::Char('x'), "")), "x");
    assert_eq!(render_key_event(event(KeyCode::Char('D'), "s")), "shift+D");
    assert_eq!(render_key_event(event(KeyCode::Char('X'), "c")), "ctrl+x");
    assert_eq!(render_key_event(event(KeyCode::Char('X'), "cas")), "ctrl+alt+shift+x");
    let named = [
        (KeyCode::Tab, "tab"),
        (KeyCode::BackTab, "backtab"),
        (KeyCode::Up, "up"),
        (KeyCode::Down, "down"),
        (KeyCode::Left, "left"),
        (KeyCode::Right, "right"),
        (KeyCode::Enter, "enter"),
        (KeyCode::Esc, "esc"),
        (KeyCode::Home, "home"),
        (KeyCode::End, "end"),
        (KeyCode::PageUp, "pageup"),
        (KeyCode::PageDown, "pagedown"),
        (KeyCode::Delete, "delete"),
        (KeyCode::Backspace, "backspace"),
        (KeyCode::Other, ""),
    ];
    for (code, name) in named {
        assert_eq!(render_key_event(event(code, "")), name);
    }
    assert_eq!(render_key_event(event(KeyCode::Other, "c")), "");
}

#[test]
fn bindings_are_matched_whatever_their_case() {
    let bound = Some("CTRL+x".to_string());
    assert!(matches_binding(event(KeyCode::Char('x'), "c"), &bound, "q", None));
    assert!(!matches_binding(event(KeyCode::Char('q'), ""), &bound, "q", None));
    assert!(matches_binding(event(KeyCode::Char('q'), ""), &None, "q", None));
    assert!(matches_binding(event(KeyCode::Char('Q'), ""), &None, "q", None));
    assert!(!matches_binding(event(KeyCode::Char('w'), ""), &None, "q", None));
}

#[test]
fn upper_case_letter_is_bound_with_or_without_the_shift_key() {
    assert!(matches_binding(event(KeyCode::Char('D'), "s"), &None, "D", None));
    assert!(matches_binding(event(KeyCode::Char('D'), ""), &None, "D", None));
    assert!(matches_binding(
        event(KeyCode::Char('D'), "s"),
        &Some("shift+d".to_string()),
        "x",
        None
    ));
    assert!(!matches_binding(event(KeyCode::Char('D'), "cs"), &None, "D", None));
}

#[test]
fn additional_key_needs_its_modifiers() {
    let control = KeyModifiers { control: true, alt: false, shift: false };
    let extra = Some(('c', control));
    assert!(matches_binding(event(KeyCode::Char('c'), "c"), &None, "q", extra));
    assert!(matches_binding(event(KeyCode::Char('c'), "cs"), &None, "q", extra));
    assert!(!matches_binding(event(KeyCode::Char('c'), ""), &None, "q", extra));
}

#[test]
fn bindings_are_shown_as_they_are_configured() {
    assert_eq!(display_binding(&Some("F2".to_string()), "q"), "F2");
    assert_eq!(display_binding(&None, "q"), "q");
}
