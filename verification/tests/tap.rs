use clipwallet::chord::HotkeyAction;
use clipwallet::inject::{simulate_copy, simulate_cut, simulate_paste, KEYCODE_C, KEYCODE_V, KEYCODE_X};
use clipwallet::keys::Key;
use clipwallet::tap::{
    flags_contain, keycode_to_key, mask_qualifying, qualifies, EventTapState, TapEvent, TapEventKind,
    FLAG_ALPHA_SHIFT, FLAG_ALTERNATE, FLAG_COMMAND, FLAG_CONTROL, FLAG_SHIFT, SYNTHETIC_TAG,
};

#[test]
fn mask_strips_non_qualifying_bits() {
    let polluted = FLAG_COMMAND
        | FLAG_ALTERNATE
        | FLAG_ALPHA_SHIFT // Caps Lock
        | FLAG_SHIFT
        | FLAG_CONTROL;
    let m = mask_qualifying(polluted);
    assert!(flags_contain(m, FLAG_COMMAND));
    assert!(flags_contain(m, FLAG_ALTERNATE));
    assert!(!flags_contain(m, FLAG_ALPHA_SHIFT));
    assert!(!flags_contain(m, FLAG_SHIFT));
    assert!(!flags_contain(m, FLAG_CONTROL));
}

#[test]
fn caps_lock_toggle_does_not_change_masked_state() {
    // Cmd held, then Caps Lock toggles: the masked state is identical, so
    // the tier gate sees no change and cannot fire spuriously.
    let before = mask_qualifying(FLAG_COMMAND);
    let after = mask_qualifying(FLAG_COMMAND | FLAG_ALPHA_SHIFT);
    assert_eq!(before, after);
    assert!(qualifies(after));
}

#[test]
fn gate_engages_on_either_modifier_only() {
    assert!(qualifies(mask_qualifying(FLAG_COMMAND)));
    assert!(qualifies(mask_qualifying(FLAG_ALTERNATE)));
    // Non-qualifying modifiers alone must NOT engage tier 2.
    assert!(!qualifies(mask_qualifying(FLAG_SHIFT)));
    assert!(!qualifies(mask_qualifying(FLAG_CONTROL)));
    assert!(!qualifies(mask_qualifying(0)));
}

fn event(kind: TapEventKind, flags: u64, keycode: u16) -> TapEvent {
    TapEvent { kind, user_data: 0, flags, keycode, autorepeat: 0 }
}

#[test]
fn cmd_opt_c_fires_copy_on_release_and_swallows_the_letter() {
    let mut tap = EventTapState::new();
    let both = FLAG_COMMAND | FLAG_ALTERNATE;
    let r = tap.handle_event(&event(TapEventKind::FlagsChanged, both, 0), false);
    assert!(r.forward);
    assert!(tap.is_active());
    let down = tap.handle_event(&event(TapEventKind::KeyDown, both, 8), false);
    assert!(!down.forward);
    assert_eq!(down.action, None);
    let up = tap.handle_event(&event(TapEventKind::KeyUp, both, 8), false);
    assert!(!up.forward);
    assert_eq!(up.action, Some(HotkeyAction::DynamicCopy));
}

#[test]
fn idle_keystrokes_and_synthetic_events_pass_through() {
    let mut tap = EventTapState::new();
    let r = tap.handle_event(&event(TapEventKind::KeyDown, 0, 8), false);
    assert!(r.forward);
    assert_eq!(r.action, None);
    let synthetic = TapEvent {
        kind: TapEventKind::KeyDown,
        user_data: SYNTHETIC_TAG,
        flags: FLAG_COMMAND | FLAG_ALTERNATE,
        keycode: 9,
        autorepeat: 0,
    };
    let r = tap.handle_event(&synthetic, true);
    assert!(r.forward);
    assert_eq!(r.action, None);
    assert!(!tap.is_active());
}

#[test]
fn resync_rebuilds_the_tier_from_live_flags() {
    let mut tap = EventTapState::new();
    tap.resync_after_reenable(FLAG_COMMAND | FLAG_SHIFT);
    assert!(tap.is_active());
    assert_eq!(tap.mod_state(), FLAG_COMMAND);
    assert!(tap.detector().cmd());
    assert!(!tap.detector().opt());
}

#[test]
fn keycode_table_names_the_chord_keys() {
    assert_eq!(keycode_to_key(8), Some(Key::KeyC));
    assert_eq!(keycode_to_key(7), Some(Key::KeyX));
    assert_eq!(keycode_to_key(9), Some(Key::KeyV));
    assert_eq!(keycode_to_key(48), Some(Key::Tab));
    assert_eq!(keycode_to_key(53), Some(Key::Escape));
    assert_eq!(keycode_to_key(20), Some(Key::Num3));
    assert_eq!(keycode_to_key(10), None);
}

#[test]
fn injected_chords_are_tagged_command_keystrokes() {
    let paste = simulate_paste();
    assert_eq!(paste.len(), 2);
    assert_eq!(paste[0].keycode, KEYCODE_V);
    assert!(paste[0].key_down);
    assert!(!paste[1].key_down);
    assert_eq!(paste[1].keycode, 9);
    assert_eq!(paste[0].flags, FLAG_COMMAND);
    assert_eq!(paste[1].user_data, SYNTHETIC_TAG);
    assert_eq!(simulate_copy()[0].keycode, KEYCODE_C);
    assert_eq!(simulate_cut()[1].keycode, KEYCODE_X);
    assert_eq!(KEYCODE_C, 8);
    assert_eq!(KEYCODE_X, 7);
}

#[test]
fn injected_keystrokes_pass_an_active_tap() {
    let mut tap = EventTapState::new();
    let both = FLAG_COMMAND | FLAG_ALTERNATE;
    tap.handle_event(&event(TapEventKind::FlagsChanged, both, 0), false);
    for e in simulate_paste() {
        let tapped = TapEvent {
            kind: if e.key_down { TapEventKind::KeyDown } else { TapEventKind::KeyUp },
            user_data: e.user_data,
            flags: e.flags,
            keycode: e.keycode,
            autorepeat: 0,
        };
        let r = tap.handle_event(&tapped, false);
        assert!(r.forward);
        assert_eq!(r.action, None);
    }
}
