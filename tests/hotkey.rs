use white_hole::{accelerator_blocked, hotkey, HotkeyAction, Key, Modifiers};

fn m(control: bool, alt: bool, shift: bool) -> Modifiers {
    Modifiers { control, alt, shift }
}

#[test]
fn shortcut_table() {
    let none = m(false, false, false);
    let ctrl = m(true, false, false);
    let alt = m(false, true, false);
    assert!(hotkey(ctrl, Key::R) == Some(HotkeyAction::Reload));
    assert!(hotkey(none, Key::F5) == Some(HotkeyAction::Reload));
    assert!(hotkey(alt, Key::ArrowLeft) == Some(HotkeyAction::Back));
    assert!(hotkey(alt, Key::ArrowRight) == Some(HotkeyAction::Forward));
    assert!(hotkey(ctrl, Key::L) == Some(HotkeyAction::Focus));
    assert!(hotkey(none, Key::Escape) == Some(HotkeyAction::Blur));
    assert!(hotkey(ctrl, Key::W) == Some(HotkeyAction::CloseTab));
    assert!(hotkey(ctrl, Key::Tab) == Some(HotkeyAction::NextTab));
    assert!(hotkey(m(true, false, true), Key::Tab) == Some(HotkeyAction::NearTab));
    assert!(hotkey(none, Key::F11) == Some(HotkeyAction::Fullscreen));
    assert!(hotkey(ctrl, Key::I) == Some(HotkeyAction::Incognito));
}

#[test]
fn chords_need_exact_modifiers() {
    assert!(hotkey(m(false, false, false), Key::R).is_none());
    assert!(hotkey(m(true, true, false), Key::R).is_none());
    assert!(hotkey(m(true, false, false), Key::Other).is_none());
    assert!(hotkey(m(false, false, true), Key::Escape).is_none());
}

#[test]
fn webview_accelerators_blocked() {
    assert!(accelerator_blocked(false, true, false, Key::ArrowLeft));
    assert!(!accelerator_blocked(false, false, false, Key::ArrowLeft));
    assert!(accelerator_blocked(false, false, false, Key::F5));
    assert!(accelerator_blocked(false, false, true, Key::P));
    assert!(!accelerator_blocked(true, false, true, Key::P));
    assert!(!accelerator_blocked(false, false, true, Key::L));
}
