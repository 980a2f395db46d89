use flipper_tui::app_state::Screen;
use flipper_tui::keymap::{ClickType, KeyCode, KeyEvent, KeyModifiers, Keymap, NavKeymap};

#[test]
fn enter_resolves_to_single_click() {
    let km = Keymap::new();
    let ev = KeyEvent::new(KeyCode::Enter, KeyModifiers::none());
    assert_eq!(km.resolve(ev), Some(ClickType::Single));
}

#[test]
fn q_resolves_to_single_click() {
    let km = Keymap::new();
    let ev = KeyEvent::new(KeyCode::Char('q'), KeyModifiers::none());
    assert_eq!(km.resolve(ev), Some(ClickType::Single));
}

#[test]
fn unbound_key_returns_none() {
    let km = Keymap::new();
    let ev = KeyEvent::new(KeyCode::F(7), KeyModifiers::none());
    assert_eq!(km.resolve(ev), None);
}

#[test]
fn shift_changes_event_identity() {
    let km = Keymap::new();
    let plain = KeyEvent::new(KeyCode::Char('q'), KeyModifiers::none());
    let shifted = KeyEvent::new(KeyCode::Char('Q'), KeyModifiers::shift());
    assert_eq!(km.resolve(plain), Some(ClickType::Single));
    // Upper-case `Q` is not bound.
    assert_eq!(km.resolve(shifted), None);
}

#[test]
fn nav_s_opens_storage() {
    let nav = NavKeymap::from_dashboard();
    let ev = KeyEvent::new(KeyCode::Char('s'), KeyModifiers::none());
    assert_eq!(nav.target_for(ev), Some(Screen::Storage));
}

#[test]
fn nav_a_opens_apps() {
    let nav = NavKeymap::from_dashboard();
    let ev = KeyEvent::new(KeyCode::Char('a'), KeyModifiers::none());
    assert_eq!(nav.target_for(ev), Some(Screen::Apps));
}

#[test]
fn nav_uppercase_s_opens_settings() {
    let nav = NavKeymap::from_dashboard();
    let ev = KeyEvent::new(KeyCode::Char('S'), KeyModifiers::shift());
    assert_eq!(nav.target_for(ev), Some(Screen::Settings));
}

#[test]
fn nav_u_opens_updates() {
    let nav = NavKeymap::from_dashboard();
    let ev = KeyEvent::new(KeyCode::Char('u'), KeyModifiers::none());
    assert_eq!(nav.target_for(ev), Some(Screen::Updates));
}

#[test]
fn nav_unbound_key_returns_none() {
    let nav = NavKeymap::from_dashboard();
    let ev = KeyEvent::new(KeyCode::Char('z'), KeyModifiers::none());
    assert_eq!(nav.target_for(ev), None);
}

#[test]
fn uppercase_without_shift_still_matches_shifted_binding() {
    // An upper-case letter carries SHIFT whether or not it was reported.
    let nav = NavKeymap::from_dashboard();
    let ev = KeyEvent::new(KeyCode::Char('S'), KeyModifiers::none());
    assert_eq!(nav.target_for(ev), Some(Screen::Settings));
}

#[test]
fn shifted_lowercase_reads_as_uppercase() {
    // `s` with SHIFT is the same key as `S`.
    let nav = NavKeymap::from_dashboard();
    let ev = KeyEvent::new(KeyCode::Char('s'), KeyModifiers::shift());
    assert_eq!(nav.target_for(ev), Some(Screen::Settings));
}

#[test]
fn default_bindings_are_single_clicks() {
    let km = Keymap::new();
    for code in [KeyCode::Enter, KeyCode::Tab, KeyCode::Esc, KeyCode::Char('?'), KeyCode::Char('q'), KeyCode::Char('r')] {
        let ev = KeyEvent::new(code, KeyModifiers::none());
        assert_eq!(km.resolve(ev), Some(ClickType::Single), "{:?}", code);
    }
    for code in [KeyCode::Up, KeyCode::Down, KeyCode::Char('x')] {
        let ev = KeyEvent::new(code, KeyModifiers::none());
        assert_eq!(km.resolve(ev), None, "{:?}", code);
    }
}
