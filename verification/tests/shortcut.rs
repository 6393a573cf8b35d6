use agentdictate::ui::shortcut::{captured_shortcut, ShortcutModifiers};

fn modifiers(control: bool, alt: bool, shift: bool, platform: bool) -> ShortcutModifiers {
    ShortcutModifiers { control, alt, shift, platform, function: false }
}

#[test]
fn a_modified_letter_becomes_a_shortcut() {
    assert_eq!(captured_shortcut("d", modifiers(true, false, true, false)), Ok("Ctrl+Shift+D".to_owned()));
    assert_eq!(captured_shortcut("7", modifiers(false, true, false, true)), Ok("Alt+Super+7".to_owned()));
    assert_eq!(captured_shortcut("SPACE", modifiers(true, false, false, false)), Ok("Ctrl+Space".to_owned()));
    assert_eq!(captured_shortcut("return", modifiers(false, false, true, false)), Ok("Shift+Enter".to_owned()));
}

#[test]
fn a_function_key_needs_no_modifier() {
    assert_eq!(captured_shortcut("f9", modifiers(false, false, false, false)), Ok("F9".to_owned()));
    assert_eq!(captured_shortcut("F12", modifiers(false, true, false, false)), Ok("Alt+F12".to_owned()));
}

#[test]
fn unsupported_presses_say_why() {
    assert_eq!(
        captured_shortcut("d", ShortcutModifiers { function: true, ..modifiers(true, false, false, false) }),
        Err("The Function modifier is not supported".to_owned())
    );
    assert_eq!(
        captured_shortcut("d", modifiers(false, false, false, false)),
        Err("Add Ctrl, Alt, Shift, or Super to this key".to_owned())
    );
    assert_eq!(
        captured_shortcut("f13", modifiers(true, false, false, false)),
        Err("Use a letter, number, Space, Tab, Enter, or F1–F12".to_owned())
    );
    assert_eq!(
        captured_shortcut("é", modifiers(true, false, false, false)),
        Err("Use a letter, number, Space, Tab, Enter, or F1–F12".to_owned())
    );
}
