//! Keyboard shortcuts: which browser action a key chord triggers, and which
//! key presses a tab's webview must not handle itself.
use vstd::prelude::*;

verus! {

/// Modifier keys held with a key.
#[derive(Clone, Copy)]
pub struct Modifiers {
    pub control: bool,
    pub alt: bool,
    pub shift: bool,
}

/// The keys that shortcuts use; `Other` stands for every other key.
#[derive(Clone, Copy, PartialEq, Eq, Structural)]
pub enum Key {
    R,
    L,
    W,
    I,
    P,
    F5,
    F11,
    Escape,
    Tab,
    ArrowLeft,
    ArrowRight,
    Other,
}

/// What a shortcut asks the browser to do.
#[derive(Clone, Copy, PartialEq, Eq, Structural)]
pub enum HotkeyAction {
    Reload,
    Back,
    Forward,
    Focus,
    Blur,
    CloseTab,
    NextTab,
    NearTab,
    Fullscreen,
    Incognito,
}

/// The shortcut table: Ctrl+R and F5 reload, Alt+Left and Alt+Right go back
/// and forward, Ctrl+L focuses the address bar, Escape leaves it, Ctrl+W
/// closes the tab, Ctrl+Tab and Ctrl+Shift+Tab switch tabs, F11 toggles full
/// screen and Ctrl+I incognito mode. Each chord needs exactly its modifiers.
pub open spec fn action_of(m: Modifiers, k: Key) -> Option<HotkeyAction> {
    let none = !m.control && !m.alt && !m.shift;
    let ctrl = m.control && !m.alt && !m.shift;
    let alt = !m.control && m.alt && !m.shift;
    let ctrl_shift = m.control && !m.alt && m.shift;
    if (ctrl && k == Key::R) || (none && k == Key::F5) {
        Some(HotkeyAction::Reload)
    } else if alt && k == Key::ArrowLeft {
        Some(HotkeyAction::Back)
    } else if alt && k == Key::ArrowRight {
        Some(HotkeyAction::Forward)
    } else if ctrl && k == Key::L {
        Some(HotkeyAction::Focus)
    } else if none && k == Key::Escape {
        Some(HotkeyAction::Blur)
    } else if ctrl && k == Key::W {
        Some(HotkeyAction::CloseTab)
    } else if ctrl && k == Key::Tab {
        Some(HotkeyAction::NextTab)
    } else if ctrl_shift && k == Key::Tab {
        Some(HotkeyAction::NearTab)
    } else if none && k == Key::F11 {
        Some(HotkeyAction::Fullscreen)
    } else if ctrl && k == Key::I {
        Some(HotkeyAction::Incognito)
    } else {
        None
    }
}

/// The browser action for a key pressed with modifiers `m`, if any.
pub fn hotkey(m: Modifiers, k: Key) -> (r: Option<HotkeyAction>)
    ensures
        r == action_of(m, k),
{
    let none = !m.control && !m.alt && !m.shift;
    let ctrl = m.control && !m.alt && !m.shift;
    let alt = !m.control && m.alt && !m.shift;
    let ctrl_shift = m.control && !m.alt && m.shift;
    if (ctrl && k == Key::R) || (none && k == Key::F5) {
        Some(HotkeyAction::Reload)
    } else if alt && k == Key::ArrowLeft {
        Some(HotkeyAction::Back)
    } else if alt && k == Key::ArrowRight {
        Some(HotkeyAction::Forward)
    } else if ctrl && k == Key::L {
        Some(HotkeyAction::Focus)
    } else if none && k == Key::Escape {
        Some(HotkeyAction::Blur)
    } else if ctrl && k == Key::W {
        Some(HotkeyAction::CloseTab)
    } else if ctrl && k == Key::Tab {
        Some(HotkeyAction::NextTab)
    } else if ctrl_shift && k == Key::Tab {
        Some(HotkeyAction::NearTab)
    } else if none && k == Key::F11 {
        Some(HotkeyAction::Fullscreen)
    } else if ctrl && k == Key::I {
        Some(HotkeyAction::Incognito)
    } else {
        None
    }
}

/// Whether a fresh key press in a tab's webview is to be marked handled so
/// that the webview's own shortcut does not run: Alt+Left and Alt+Right,
/// F5, and Ctrl+R and Ctrl+P. Repeats of a held key (`was_down`) pass.
pub fn accelerator_blocked(was_down: bool, alt: bool, control: bool, k: Key) -> (r: bool)
    ensures
        r == (!was_down && ((alt && (k == Key::ArrowLeft || k == Key::ArrowRight)) || k == Key::F5
            || (control && (k == Key::R || k == Key::P)))),
{
    if was_down {
        return false;
    }
    (alt && (k == Key::ArrowLeft || k == Key::ArrowRight)) || k == Key::F5 || (control && (k
        == Key::R || k == Key::P))
}

} // verus!
