use clipwallet::chord::{ChordDetector, HotkeyAction};
use clipwallet::keys::Key;

#[test]
fn dynamic_copy_when_opt_released_before_letter() {
    let mut detector = ChordDetector::new();

    detector.key_down(Key::MetaLeft);
    detector.key_down(Key::Alt);
    detector.key_down(Key::KeyC);

    // Opt releases slightly before C
    detector.key_up(Key::Alt);

    let action = detector.evaluate_release(&Key::KeyC, false);
    assert_eq!(action, Some(HotkeyAction::DynamicCopy));
}

#[test]
fn dynamic_paste_when_opt_released_before_letter() {
    let mut detector = ChordDetector::new();

    detector.key_down(Key::MetaLeft);
    detector.key_down(Key::Alt);
    detector.key_down(Key::KeyV);

    detector.key_up(Key::Alt);

    let action = detector.evaluate_release(&Key::KeyV, false);
    assert_eq!(action, Some(HotkeyAction::DynamicPaste));
}

#[test]
fn static_copy_when_opt_released_before_letter() {
    let mut detector = ChordDetector::new();

    detector.key_down(Key::MetaLeft);
    detector.key_down(Key::Alt);
    // Press digit 3 to address slot
    detector.key_down(Key::Num3);
    // Now press C while chord still active
    detector.key_down(Key::KeyC);

    // Opt releases first — last_digit must survive for evaluate_release
    detector.key_up(Key::Alt);

    // C releases — should fire StaticCopy(3)
    let action = detector.evaluate_release(&Key::KeyC, true);
    assert_eq!(action, Some(HotkeyAction::StaticCopy(3)));
}

#[test]
fn static_cut_when_opt_released_before_letter() {
    let mut detector = ChordDetector::new();

    detector.key_down(Key::MetaLeft);
    detector.key_down(Key::Alt);
    detector.key_down(Key::Num5);
    detector.key_down(Key::KeyX);

    detector.key_up(Key::Alt);

    let action = detector.evaluate_release(&Key::KeyX, true);
    assert_eq!(action, Some(HotkeyAction::StaticCut(5)));
}

#[test]
fn static_paste_when_opt_released_before_letter() {
    let mut detector = ChordDetector::new();

    detector.key_down(Key::MetaLeft);
    detector.key_down(Key::Alt);
    detector.key_down(Key::Num7);
    detector.key_down(Key::KeyV);

    detector.key_up(Key::Alt);

    let action = detector.evaluate_release(&Key::KeyV, true);
    assert_eq!(action, Some(HotkeyAction::StaticPaste(7)));
}

#[test]
fn no_action_when_key_not_in_chord() {
    let mut detector = ChordDetector::new();

    detector.key_down(Key::MetaLeft);
    detector.key_down(Key::Alt);
    // C was NOT pressed while chord active

    let action = detector.evaluate_release(&Key::KeyC, false);
    assert_eq!(action, None);
}

#[test]
fn last_digit_cleared_after_chord_drains() {
    let mut detector = ChordDetector::new();

    detector.key_down(Key::MetaLeft);
    detector.key_down(Key::Alt);
    detector.key_down(Key::Num2);
    detector.key_down(Key::KeyC);

    detector.key_up(Key::Alt);
    // consume the pending key
    let _ = detector.evaluate_release(&Key::KeyC, true);

    // a new chord must supply a fresh digit
    assert!(!detector.is_pending_chord_key(&Key::KeyC));
}

#[test]
fn released_chord_key_fires_only_once() {
    let mut detector = ChordDetector::new();
    detector.key_down(Key::MetaLeft);
    detector.key_down(Key::Alt);
    detector.key_down(Key::KeyX);
    assert_eq!(detector.evaluate_release(&Key::KeyX, false), Some(HotkeyAction::DynamicCut));
    assert_eq!(detector.evaluate_release(&Key::KeyX, false), None);
}

#[test]
fn static_letter_without_digit_does_nothing() {
    let mut detector = ChordDetector::new();
    detector.key_down(Key::MetaLeft);
    detector.key_down(Key::Alt);
    detector.key_down(Key::KeyC);
    assert_eq!(detector.evaluate_release(&Key::KeyC, true), None);
}

#[test]
fn tab_and_escape_act_on_press() {
    let mut detector = ChordDetector::new();
    detector.key_down(Key::MetaLeft);
    detector.key_down(Key::Alt);
    detector.key_down(Key::Tab);
    let first = detector.evaluate_press(&Key::Tab, false);
    assert_eq!(first, Some(HotkeyAction::DynamicNavigateNext));
    // An auto-repeat of the same press does not act again.
    assert_eq!(detector.evaluate_press(&Key::Tab, false), None);
    detector.key_down(Key::Escape);
    assert_eq!(detector.evaluate_press(&Key::Escape, true), Some(HotkeyAction::StaticDeleteCurrent));
    assert!(detector.cmd());
    assert!(detector.opt());
}

#[test]
fn nothing_fires_without_both_modifiers() {
    let mut detector = ChordDetector::new();
    detector.key_down(Key::MetaLeft);
    detector.key_down(Key::KeyC);
    assert_eq!(detector.evaluate_press(&Key::KeyC, false), None);
    assert_eq!(detector.evaluate_release(&Key::KeyC, false), None);
    assert!(!detector.opt());
}
