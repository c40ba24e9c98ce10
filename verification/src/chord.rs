//! Chord detection: turns the stream of key presses and releases into
//! clipboard actions.
//!
//! Tab and Esc act when pressed; C, V and X act when released, provided they
//! went down while Cmd and Opt were both held. That lets a letter still fire
//! when a modifier is let go a few milliseconds before it.

use vstd::prelude::*;
use crate::keys::{Key, key_to_digit, spec_key_to_digit};
use crate::keyset::{set_contains, set_insert, set_remove, set_retain_in, set_is_empty};

verus! {

/// What a chord asks the engine to do.
#[derive(Debug, Clone, Copy, PartialEq, Eq, Structural)]
pub enum HotkeyAction {
    // Static mode — fixed addressed slots 1-9
    StaticCopy(usize),
    StaticPaste(usize),
    StaticCut(usize),
    StaticNavigateNext,
    StaticNavigatePrev,
    StaticDeleteCurrent,

    // Dynamic mode — recency ring
    DynamicCopy,
    DynamicCut,
    DynamicPaste,
    DynamicNavigateNext,
    DynamicNavigatePrev,
    DynamicDeleteCurrent,

    // Internal
    CursorReset,
}

/// The abstract state of a [`ChordDetector`].
pub struct ChordView {
    /// Keys currently held down.
    pub held: Set<Key>,
    /// Tab already acted during this press of Tab.
    pub tab_consumed: bool,
    /// Digit pressed while Cmd+Opt was held; survives the digit's release.
    pub last_digit: Option<usize>,
    /// Keys that went down inside the chord and have not yet acted on release.
    pub pending: Set<Key>,
}

pub open spec fn view_cmd(v: ChordView) -> bool {
    v.held.contains(Key::MetaLeft) || v.held.contains(Key::MetaRight)
}

pub open spec fn view_opt(v: ChordView) -> bool {
    v.held.contains(Key::Alt) || v.held.contains(Key::AltGr)
}

pub open spec fn view_shift(v: ChordView) -> bool {
    v.held.contains(Key::ShiftLeft) || v.held.contains(Key::ShiftRight)
}

/// Command or Option, left or right.
pub open spec fn is_chord_modifier(k: Key) -> bool {
    k == Key::MetaLeft || k == Key::MetaRight || k == Key::Alt || k == Key::AltGr
}

/// State after `k` goes down.
pub open spec fn spec_key_down(v: ChordView, k: Key) -> ChordView {
    if view_cmd(v) && view_opt(v) {
        ChordView {
            held: v.held.insert(k),
            tab_consumed: v.tab_consumed,
            last_digit: match spec_key_to_digit(k) {
                Some(d) => Some(d),
                None => v.last_digit,
            },
            pending: v.pending.insert(k),
        }
    } else {
        ChordView { held: v.held.insert(k), ..v }
    }
}

/// State after `k` goes up. Releasing Cmd or Opt drops the pending keys that
/// are no longer held, and forgets the digit once nothing is pending.
pub open spec fn spec_key_up(v: ChordView, k: Key) -> ChordView {
    let pending = if is_chord_modifier(k) { v.pending.intersect(v.held) } else { v.pending };
    ChordView {
        held: v.held.remove(k),
        tab_consumed: if k == Key::Tab { false } else { v.tab_consumed },
        last_digit: if is_chord_modifier(k) && pending == Set::<Key>::empty() {
            None
        } else {
            v.last_digit
        },
        pending,
    }
}

pub open spec fn delete_action(mode_static: bool) -> HotkeyAction {
    if mode_static { HotkeyAction::StaticDeleteCurrent } else { HotkeyAction::DynamicDeleteCurrent }
}

pub open spec fn prev_action(mode_static: bool) -> HotkeyAction {
    if mode_static { HotkeyAction::StaticNavigatePrev } else { HotkeyAction::DynamicNavigatePrev }
}

pub open spec fn next_action(mode_static: bool) -> HotkeyAction {
    if mode_static { HotkeyAction::StaticNavigateNext } else { HotkeyAction::DynamicNavigateNext }
}

/// State and action after `key` is pressed (Tab and Esc act on press).
pub open spec fn spec_press(v: ChordView, key: Key, mode_static: bool) -> (ChordView, Option<HotkeyAction>) {
    if !(view_cmd(v) && view_opt(v)) {
        (v, None)
    } else if key == Key::Tab {
        if v.tab_consumed {
            (v, None)
        } else {
            let v2 = ChordView { tab_consumed: true, ..v };
            if v.held.contains(Key::Escape) {
                (v2, Some(delete_action(mode_static)))
            } else if view_shift(v) {
                (v2, Some(prev_action(mode_static)))
            } else {
                (v2, Some(next_action(mode_static)))
            }
        }
    } else if key == Key::Escape && v.held.contains(Key::Tab) {
        (v, Some(delete_action(mode_static)))
    } else {
        (v, None)
    }
}

/// The action a released letter fires, given the digit the chord carried.
pub open spec fn release_action(key: Key, mode_static: bool, digit: Option<usize>) -> Option<HotkeyAction> {
    match key {
        Key::KeyC => if mode_static {
            match digit { Some(d) => Some(HotkeyAction::StaticCopy(d)), None => None }
        } else {
            Some(HotkeyAction::DynamicCopy)
        },
        Key::KeyX => if mode_static {
            match digit { Some(d) => Some(HotkeyAction::StaticCut(d)), None => None }
        } else {
            Some(HotkeyAction::DynamicCut)
        },
        Key::KeyV => if mode_static {
            match digit { Some(d) => Some(HotkeyAction::StaticPaste(d)), None => None }
        } else {
            Some(HotkeyAction::DynamicPaste)
        },
        _ => None,
    }
}

/// State and action after `key` is released (C, V and X act on release).
pub open spec fn spec_release(v: ChordView, key: Key, mode_static: bool) -> (ChordView, Option<HotkeyAction>) {
    if !v.pending.contains(key) {
        (v, None)
    } else {
        let pending = v.pending.remove(key);
        (
            ChordView {
                pending,
                last_digit: if pending == Set::<Key>::empty() { None } else { v.last_digit },
                ..v
            },
            release_action(key, mode_static, v.last_digit),
        )
    }
}

/// The state of no key held and nothing pending.
pub open spec fn empty_chord_view() -> ChordView {
    ChordView {
        held: Set::empty(),
        tab_consumed: false,
        last_digit: None,
        pending: Set::empty(),
    }
}

/// The digit a chord carries, when it carries one, names a slot 1-9.
pub open spec fn digit_in_range(v: ChordView) -> bool {
    v.last_digit matches Some(d) ==> 1 <= d <= 9
}

/// A pending chord key fires at most once: releasing it a second time does
/// nothing.
pub proof fn lemma_release_fires_at_most_once(v: ChordView, key: Key, mode_static: bool)
    ensures
        spec_release(spec_release(v, key, mode_static).0, key, mode_static).1 == None::<HotkeyAction>,
{
}

/// Tab acts at most once until it is released: a second press report of Tab
/// with no release in between does nothing.
pub proof fn lemma_tab_acts_once_per_press(v: ChordView, mode_static: bool)
    ensures
        spec_press(spec_press(v, Key::Tab, mode_static).0, Key::Tab, mode_static).1
            == None::<HotkeyAction>,
{
}

/// No press acts unless Command and Option are both held, and such a press
/// leaves the state as it was.
pub proof fn lemma_press_needs_chord(v: ChordView, key: Key, mode_static: bool)
    requires
        !(view_cmd(v) && view_opt(v)),
    ensures
        spec_press(v, key, mode_static) == (v, None::<HotkeyAction>),
{
}

/// A release acts only for a key that went down inside the chord; any other
/// release leaves the state as it was.
pub proof fn lemma_release_needs_pending(v: ChordView, key: Key, mode_static: bool)
    requires
        !v.pending.contains(key),
    ensures
        spec_release(v, key, mode_static) == (v, None::<HotkeyAction>),
{
}

/// A letter pressed while Command and Option are held still fires when one
/// of the modifiers is released before the letter, and in static mode it
/// carries the digit pressed inside the chord.
pub proof fn lemma_letter_fires_after_modifier_released_first(
    v: ChordView,
    letter: Key,
    modifier: Key,
    mode_static: bool,
)
    requires
        view_cmd(v) && view_opt(v),
        letter == Key::KeyC || letter == Key::KeyX || letter == Key::KeyV,
        is_chord_modifier(modifier),
    ensures
        ({
            let pressed = spec_key_down(v, letter);
            let released_first = spec_key_up(pressed, modifier);
            spec_release(released_first, letter, mode_static).1
                == release_action(letter, mode_static, v.last_digit)
        }),
{
    let pressed = spec_key_down(v, letter);
    let released_first = spec_key_up(pressed, modifier);
    assert(pressed.pending.contains(letter));
    assert(pressed.held.contains(letter));
    assert(pressed.pending.intersect(pressed.held).contains(letter));
    assert(released_first.pending.contains(letter));
    assert(released_first.pending != Set::<Key>::empty());
}

/// Once the last pending key has acted, the chord's digit is forgotten: the
/// next chord must supply a fresh one.
pub proof fn lemma_digit_cleared_when_chord_drains(v: ChordView, key: Key, mode_static: bool)
    requires
        v.pending.contains(key),
        v.pending.remove(key) == Set::<Key>::empty(),
    ensures
        spec_release(v, key, mode_static).0.last_digit == None::<usize>,
        !spec_release(v, key, mode_static).0.pending.contains(key),
{
}

/// Every step of the detector keeps the chord's digit within 1-9, so a
/// static action always addresses an existing slot.
pub proof fn lemma_digit_stays_in_range(v: ChordView, key: Key, mode_static: bool)
    requires
        digit_in_range(v),
    ensures
        digit_in_range(spec_key_down(v, key)),
        digit_in_range(spec_key_up(v, key)),
        digit_in_range(spec_press(v, key, mode_static).0),
        digit_in_range(spec_release(v, key, mode_static).0),
        spec_release(v, key, mode_static).1 matches Some(HotkeyAction::StaticCopy(d)) ==> 1 <= d <= 9,
        spec_release(v, key, mode_static).1 matches Some(HotkeyAction::StaticCut(d)) ==> 1 <= d <= 9,
        spec_release(v, key, mode_static).1 matches Some(HotkeyAction::StaticPaste(d)) ==> 1 <= d <= 9,
{
}

/// Tracks held keys and turns chords into [`HotkeyAction`]s.
pub struct ChordDetector {
    held: Vec<Key>,
    tab_consumed: bool,
    /// The digit pressed while Cmd+Opt was active. Survives the digit key
    /// being released so C/V/X can read it.
    last_digit: Option<usize>,
    /// Keys (C/V/X and others) pressed while Cmd+Opt was active, still to act
    /// on their release.
    keys_pressed_in_chord: Vec<Key>,
}

impl View for ChordDetector {
    type V = ChordView;

    closed spec fn view(&self) -> ChordView {
        ChordView {
            held: self.held@.to_set(),
            tab_consumed: self.tab_consumed,
            last_digit: self.last_digit,
            pending: self.keys_pressed_in_chord@.to_set(),
        }
    }
}

impl ChordDetector {
    /// A detector with no key held.
    pub fn new() -> (r: Self)
        ensures
            r@ == empty_chord_view(),
    {
        let r = ChordDetector {
            held: Vec::new(),
            tab_consumed: false,
            last_digit: None,
            keys_pressed_in_chord: Vec::new(),
        };
        assert(r.held@.to_set() =~= Set::<Key>::empty());
        assert(r.keys_pressed_in_chord@.to_set() =~= Set::<Key>::empty());
        r
    }

    /// Forget every held and pending key, as after the event tap was
    /// disabled and key releases may have been missed.
    pub fn reset(&mut self)
        ensures
            final(self)@ == empty_chord_view(),
    {
        self.held = Vec::new();
        self.keys_pressed_in_chord = Vec::new();
        self.tab_consumed = false;
        self.last_digit = None;
        assert(self.held@.to_set() =~= Set::<Key>::empty());
        assert(self.keys_pressed_in_chord@.to_set() =~= Set::<Key>::empty());
    }

    /// A key went down. Inside Cmd+Opt it becomes pending, and a digit key
    /// sets the slot digit.
    pub fn key_down(&mut self, key: Key)
        ensures
            final(self)@ == spec_key_down(old(self)@, key),
    {
        if self.cmd() && self.opt() {
            if let Some(d) = key_to_digit(&key) {
                self.last_digit = Some(d);
            }
            set_insert(&mut self.keys_pressed_in_chord, key);
        }
        set_insert(&mut self.held, key);
    }

    /// A key went up. Releasing Cmd or Opt keeps only the pending keys still
    /// held, and clears the digit once none remain.
    pub fn key_up(&mut self, key: Key)
        ensures
            final(self)@ == spec_key_up(old(self)@, key),
    {
        if key == Key::Tab {
            self.tab_consumed = false;
        }
        if key == Key::MetaLeft || key == Key::MetaRight || key == Key::Alt || key == Key::AltGr {
            set_retain_in(&mut self.keys_pressed_in_chord, &self.held);
            if set_is_empty(&self.keys_pressed_in_chord) {
                self.last_digit = None;
            }
        }
        set_remove(&mut self.held, key);
    }

    /// Command (left or right) is held.
    pub fn cmd(&self) -> (r: bool)
        ensures
            r == view_cmd(self@),
    {
        set_contains(&self.held, Key::MetaLeft) || set_contains(&self.held, Key::MetaRight)
    }

    /// Option (left or right) is held.
    pub fn opt(&self) -> (r: bool)
        ensures
            r == view_opt(self@),
    {
        set_contains(&self.held, Key::Alt) || set_contains(&self.held, Key::AltGr)
    }

    fn shift(&self) -> (r: bool)
        ensures
            r == view_shift(self@),
    {
        set_contains(&self.held, Key::ShiftLeft) || set_contains(&self.held, Key::ShiftRight)
    }

    /// Press-triggered actions: Tab navigates (Shift+Tab backwards), Tab with
    /// Esc deletes. Tab acts once per press.
    pub fn evaluate_press(&mut self, key: &Key, mode_static: bool) -> (r: Option<HotkeyAction>)
        ensures
            (final(self)@, r) == spec_press(old(self)@, *key, mode_static),
    {
        if !self.cmd() || !self.opt() {
            return None;
        }
        match key {
            Key::Tab => {
                if self.tab_consumed {
                    return None;
                }
                self.tab_consumed = true;
                if set_contains(&self.held, Key::Escape) {
                    return Some(if mode_static {
                        HotkeyAction::StaticDeleteCurrent
                    } else {
                        HotkeyAction::DynamicDeleteCurrent
                    });
                }
                if self.shift() {
                    Some(if mode_static {
                        HotkeyAction::StaticNavigatePrev
                    } else {
                        HotkeyAction::DynamicNavigatePrev
                    })
                } else {
                    Some(if mode_static {
                        HotkeyAction::StaticNavigateNext
                    } else {
                        HotkeyAction::DynamicNavigateNext
                    })
                }
            },
            Key::Escape => {
                if set_contains(&self.held, Key::Tab) {
                    Some(if mode_static {
                        HotkeyAction::StaticDeleteCurrent
                    } else {
                        HotkeyAction::DynamicDeleteCurrent
                    })
                } else {
                    None
                }
            },
            _ => None,
        }
    }

    /// Release-triggered actions: a C, X or V released after going down inside
    /// the chord fires copy, cut or paste (with the chord's digit in static
    /// mode), whether or not Cmd+Opt are still held. Each pending key fires at
    /// most once.
    pub fn evaluate_release(&mut self, key: &Key, mode_static: bool) -> (r: Option<HotkeyAction>)
        ensures
            (final(self)@, r) == spec_release(old(self)@, *key, mode_static),
    {
        if !set_contains(&self.keys_pressed_in_chord, *key) {
            return None;
        }
        set_remove(&mut self.keys_pressed_in_chord, *key);
        let action = match key {
            Key::KeyC => {
                if mode_static {
                    match self.last_digit {
                        Some(d) => Some(HotkeyAction::StaticCopy(d)),
                        None => None,
                    }
                } else {
                    Some(HotkeyAction::DynamicCopy)
                }
            },
            Key::KeyX => {
                if mode_static {
                    match self.last_digit {
                        Some(d) => Some(HotkeyAction::StaticCut(d)),
                        None => None,
                    }
                } else {
                    Some(HotkeyAction::DynamicCut)
                }
            },
            Key::KeyV => {
                if mode_static {
                    match self.last_digit {
                        Some(d) => Some(HotkeyAction::StaticPaste(d)),
                        None => None,
                    }
                } else {
                    Some(HotkeyAction::DynamicPaste)
                }
            },
            _ => None,
        };
        if set_is_empty(&self.keys_pressed_in_chord) {
            self.last_digit = None;
        }
        action
    }

    /// The key went down inside the chord and has not yet acted on release.
    pub fn is_pending_chord_key(&self, key: &Key) -> (r: bool)
        ensures
            r == self@.pending.contains(*key),
    {
        set_contains(&self.keys_pressed_in_chord, *key)
    }
}

} // verus!

verus! {

/// The first Tab press of a Cmd+Opt chord navigates: backward (to the
/// previous slot or the newer ring entry) when Shift is held, forward
/// otherwise, in the current mode. With Esc held it deletes instead.
pub proof fn lemma_tab_direction_follows_shift(v: ChordView, mode_static: bool)
    requires
        v.held.contains(Key::MetaLeft) || v.held.contains(Key::MetaRight),
        v.held.contains(Key::Alt) || v.held.contains(Key::AltGr),
        !v.tab_consumed,
        !v.held.contains(Key::Escape),
    ensures
        (v.held.contains(Key::ShiftLeft) || v.held.contains(Key::ShiftRight)) ==> spec_press(v, Key::Tab, mode_static).1
            == Some(if mode_static { HotkeyAction::StaticNavigatePrev } else { HotkeyAction::DynamicNavigatePrev }),
        !(v.held.contains(Key::ShiftLeft) || v.held.contains(Key::ShiftRight)) ==> spec_press(v, Key::Tab, mode_static).1
            == Some(if mode_static { HotkeyAction::StaticNavigateNext } else { HotkeyAction::DynamicNavigateNext }),
        spec_press(v, Key::Tab, mode_static).0.tab_consumed,
{
}

/// The number-row key printed with the digit `d` (1-9).
pub open spec fn digit_key(d: usize) -> Key {
    if d == 1 { Key::Num1 }
    else if d == 2 { Key::Num2 }
    else if d == 3 { Key::Num3 }
    else if d == 4 { Key::Num4 }
    else if d == 5 { Key::Num5 }
    else if d == 6 { Key::Num6 }
    else if d == 7 { Key::Num7 }
    else if d == 8 { Key::Num8 }
    else { Key::Num9 }
}

/// The slot action a letter names: C copies into slot `d`, X cuts into it,
/// V pastes from it.
pub open spec fn slot_action(letter: Key, d: usize) -> HotkeyAction {
    if letter == Key::KeyC {
        HotkeyAction::StaticCopy(d)
    } else if letter == Key::KeyX {
        HotkeyAction::StaticCut(d)
    } else {
        HotkeyAction::StaticPaste(d)
    }
}

/// The ring action a letter names: C copies, X cuts, V pastes.
pub open spec fn ring_action(letter: Key) -> HotkeyAction {
    if letter == Key::KeyC {
        HotkeyAction::DynamicCopy
    } else if letter == Key::KeyX {
        HotkeyAction::DynamicCut
    } else {
        HotkeyAction::DynamicPaste
    }
}

/// Cmd+Opt+C+`d` copies into slot `d`, Cmd+Opt+X+`d` cuts into it and
/// Cmd+Opt+V+`d` pastes from it, in static mode: the letter fires on its
/// release with the digit pressed inside the chord, whether the digit went
/// down before or after the letter and whether or not it was already let
/// go. In dynamic mode the letter copies, cuts or pastes through the ring
/// whatever digit was pressed.
pub proof fn lemma_letter_with_digit_addresses_slot(v: ChordView, letter: Key, d: usize)
    requires
        view_cmd(v) && view_opt(v),
        letter == Key::KeyC || letter == Key::KeyX || letter == Key::KeyV,
        1 <= d <= 9,
    ensures
        ({
            let k = digit_key(d);
            let letter_first = spec_key_down(spec_key_down(v, letter), k);
            let digit_first = spec_key_down(spec_key_down(v, k), letter);
            let digit_let_go = spec_key_up(letter_first, k);
            &&& spec_release(letter_first, letter, true).1 == Some(slot_action(letter, d))
            &&& spec_release(digit_first, letter, true).1 == Some(slot_action(letter, d))
            &&& spec_release(digit_let_go, letter, true).1 == Some(slot_action(letter, d))
            &&& spec_release(letter_first, letter, false).1 == Some(ring_action(letter))
            &&& spec_release(digit_first, letter, false).1 == Some(ring_action(letter))
        }),
{
    let k = digit_key(d);
    let a = spec_key_down(v, letter);
    assert(a.pending.contains(letter));
    let letter_first = spec_key_down(a, k);
    assert(letter_first.pending.contains(letter));
    let b = spec_key_down(v, k);
    let digit_first = spec_key_down(b, letter);
    assert(digit_first.pending.contains(letter));
    let digit_let_go = spec_key_up(letter_first, k);
    assert(digit_let_go.pending.contains(letter));
}

/// Tab pressed while Esc is held (or Esc while Tab is held) in a Cmd+Opt
/// chord deletes at the cursor of the current mode.
pub proof fn lemma_tab_with_escape_deletes(v: ChordView, mode_static: bool)
    requires
        v.held.contains(Key::MetaLeft) || v.held.contains(Key::MetaRight),
        v.held.contains(Key::Alt) || v.held.contains(Key::AltGr),
    ensures
        !v.tab_consumed && v.held.contains(Key::Escape) ==> spec_press(v, Key::Tab, mode_static).1 == Some(
            if mode_static { HotkeyAction::StaticDeleteCurrent } else { HotkeyAction::DynamicDeleteCurrent },
        ),
        v.held.contains(Key::Tab) ==> spec_press(v, Key::Escape, mode_static).1 == Some(
            if mode_static { HotkeyAction::StaticDeleteCurrent } else { HotkeyAction::DynamicDeleteCurrent },
        ),
{
}

} // verus!
