use plexy_glass::Modes;

#[test]
fn default_has_autowrap_and_cursor() {
    let m = Modes::default();
    assert!(m.contains(Modes::AUTOWRAP));
    assert!(m.contains(Modes::CURSOR_VISIBLE));
    assert!(!m.contains(Modes::ALT_SCREEN));
}

#[test]
fn set_clear_alt_screen() {
    let mut m = Modes::default();
    m.insert(Modes::ALT_SCREEN);
    assert!(m.contains(Modes::ALT_SCREEN));
    m.remove(Modes::ALT_SCREEN);
    assert!(!m.contains(Modes::ALT_SCREEN));
}

#[test]
fn any_mouse_mode_active_reflects_a_mouse_bit() {
    let m = Modes::default();
    assert!(!m.any_mouse_mode_active());

    for bit in [
        Modes::MOUSE_X10,
        Modes::MOUSE_BTN,
        Modes::MOUSE_BTN_EVENT,
        Modes::MOUSE_ANY,
        Modes::MOUSE_SGR,
    ] {
        let m = Modes::from_bits(bit);
        assert!(m.any_mouse_mode_active(), "{bit:?} should mark mouse reporting active");
    }

    let m = Modes::from_bits(Modes::ALT_SCREEN | Modes::AUTOWRAP);
    assert!(!m.any_mouse_mode_active());
}

#[test]
fn decrqm_state_reports_set_and_reset() {
    let mut m = Modes::default();
    m.insert(Modes::BRACKETED_PASTE);
    assert_eq!(m.decrqm_state(2004), 1);
    assert_eq!(m.decrqm_state(1004), 2, "focus events off → reset");
    assert_eq!(m.decrqm_state(9999), 0, "unknown mode");
}

#[test]
fn decrqm_state_new_bits() {
    let mut m = Modes::default();
    m.insert(Modes::FOCUS_EVENTS);
    m.insert(Modes::COLOR_SCHEME_UPDATES);
    m.insert(Modes::MOUSE_BTN_EVENT);
    assert_eq!(m.decrqm_state(1004), 1);
    assert_eq!(m.decrqm_state(2031), 1);
    assert_eq!(m.decrqm_state(1002), 1);
}
