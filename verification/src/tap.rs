//! The decisions of the two-tier key listener.
//!
//! Tier 1 (Idle) passes ordinary typing straight through; tier 2 (Active) is
//! engaged while Command or Option is down and runs the full chord detector.
//! The tier is chosen from the complete modifier state, masked to Command
//! and Option only, so Caps Lock, Shift or Control can never flip it. Events
//! the daemon injects itself carry [`SYNTHETIC_TAG`] and are passed through
//! untouched.

use vstd::prelude::*;
use crate::keys::{Key, spec_key_to_digit};
use crate::chord::{
    ChordDetector, ChordView, HotkeyAction, empty_chord_view, spec_key_down, spec_key_up, spec_press,
    spec_release, view_cmd, view_opt, view_shift,
};

verus! {

/// Caps Lock.
pub const FLAG_ALPHA_SHIFT: u64 = 0x0001_0000;
/// Shift.
pub const FLAG_SHIFT: u64 = 0x0002_0000;
/// Control.
pub const FLAG_CONTROL: u64 = 0x0004_0000;
/// Option (Alternate).
pub const FLAG_ALTERNATE: u64 = 0x0008_0000;
/// Command.
pub const FLAG_COMMAND: u64 = 0x0010_0000;

/// Sentinel written into the user-data field of every keyboard event the
/// daemon injects (copy, cut and paste).
pub const SYNTHETIC_TAG: i64 = 0x436C_6970_5741_4C54;

/// Whether every bit of `bit` is set in `flags`.
pub open spec fn spec_flags_contain(flags: u64, bit: u64) -> bool {
    flags & bit == bit
}

/// Whether every bit of `bit` is set in `flags`.
pub fn flags_contain(flags: u64, bit: u64) -> (r: bool)
    ensures
        r == spec_flags_contain(flags, bit),
{
    flags & bit == bit
}

pub open spec fn spec_mask_qualifying(flags: u64) -> u64 {
    flags & (FLAG_COMMAND | FLAG_ALTERNATE)
}

/// Keeps only the Command and Option bits of `flags`.
pub fn mask_qualifying(flags: u64) -> (r: u64)
    ensures
        r == spec_mask_qualifying(flags),
        spec_flags_contain(r, FLAG_COMMAND) == spec_flags_contain(flags, FLAG_COMMAND),
        spec_flags_contain(r, FLAG_ALTERNATE) == spec_flags_contain(flags, FLAG_ALTERNATE),
        !spec_flags_contain(r, FLAG_ALPHA_SHIFT),
        !spec_flags_contain(r, FLAG_SHIFT),
        !spec_flags_contain(r, FLAG_CONTROL),
{
    let r = flags & (FLAG_COMMAND | FLAG_ALTERNATE);
    let cmd = FLAG_COMMAND;
    let alt = FLAG_ALTERNATE;
    assert(cmd | alt == 0x0018_0000u64) by (bit_vector)
        requires
            cmd == 0x0010_0000u64,
            alt == 0x0008_0000u64,
    ;
    assert((flags & 0x0018_0000u64) & 0x0010_0000u64 == 0x0010_0000u64
        <==> flags & 0x0010_0000u64 == 0x0010_0000u64) by (bit_vector);
    assert((flags & 0x0018_0000u64) & 0x0008_0000u64 == 0x0008_0000u64
        <==> flags & 0x0008_0000u64 == 0x0008_0000u64) by (bit_vector);
    assert((flags & 0x0018_0000u64) & 0x0001_0000u64 != 0x0001_0000u64) by (bit_vector);
    assert((flags & 0x0018_0000u64) & 0x0002_0000u64 != 0x0002_0000u64) by (bit_vector);
    assert((flags & 0x0018_0000u64) & 0x0004_0000u64 != 0x0004_0000u64) by (bit_vector);
    r
}

/// The tier rule: tier 2 stays engaged while either qualifying modifier is
/// down, and falls back to Idle only once both are released.
pub open spec fn spec_tier_active(cmd: bool, opt: bool) -> bool {
    cmd || opt
}

/// The tier rule: tier 2 stays engaged while either qualifying modifier is
/// down.
pub fn tier_active(cmd: bool, opt: bool) -> (r: bool)
    ensures
        r == spec_tier_active(cmd, opt),
{
    cmd || opt
}

pub open spec fn spec_qualifies(masked: u64) -> bool {
    spec_tier_active(spec_flags_contain(masked, FLAG_COMMAND), spec_flags_contain(masked, FLAG_ALTERNATE))
}

/// Whether a masked modifier state keeps tier 2 engaged.
pub fn qualifies(masked: u64) -> (r: bool)
    ensures
        r == spec_qualifies(masked),
{
    tier_active(flags_contain(masked, FLAG_COMMAND), flags_contain(masked, FLAG_ALTERNATE))
}

/// The key a macOS virtual keycode names, for the keys the listener cares
/// about.
pub open spec fn spec_keycode_to_key(code: u16) -> Option<Key> {
    if code == 0 { Some(Key::KeyA) }
    else if code == 1 { Some(Key::KeyS) }
    else if code == 2 { Some(Key::KeyD) }
    else if code == 3 { Some(Key::KeyF) }
    else if code == 4 { Some(Key::KeyH) }
    else if code == 5 { Some(Key::KeyG) }
    else if code == 6 { Some(Key::KeyZ) }
    else if code == 7 { Some(Key::KeyX) }
    else if code == 8 { Some(Key::KeyC) }
    else if code == 9 { Some(Key::KeyV) }
    else if code == 11 { Some(Key::KeyB) }
    else if code == 12 { Some(Key::KeyQ) }
    else if code == 13 { Some(Key::KeyW) }
    else if code == 14 { Some(Key::KeyE) }
    else if code == 15 { Some(Key::KeyR) }
    else if code == 16 { Some(Key::KeyY) }
    else if code == 17 { Some(Key::KeyT) }
    else if code == 31 { Some(Key::KeyO) }
    else if code == 32 { Some(Key::KeyU) }
    else if code == 34 { Some(Key::KeyI) }
    else if code == 35 { Some(Key::KeyP) }
    else if code == 37 { Some(Key::KeyL) }
    else if code == 38 { Some(Key::KeyJ) }
    else if code == 40 { Some(Key::KeyK) }
    else if code == 45 { Some(Key::KeyN) }
    else if code == 46 { Some(Key::KeyM) }
    else if code == 18 { Some(Key::Num1) }
    else if code == 19 { Some(Key::Num2) }
    else if code == 20 { Some(Key::Num3) }
    else if code == 21 { Some(Key::Num4) }
    else if code == 23 { Some(Key::Num5) }
    else if code == 22 { Some(Key::Num6) }
    else if code == 26 { Some(Key::Num7) }
    else if code == 28 { Some(Key::Num8) }
    else if code == 25 { Some(Key::Num9) }
    else if code == 29 { Some(Key::Num0) }
    else if code == 48 { Some(Key::Tab) }
    else if code == 53 { Some(Key::Escape) }
    else if code == 36 { Some(Key::Return) }
    else if code == 51 { Some(Key::Backspace) }
    else if code == 49 { Some(Key::Space) }
    else if code == 123 { Some(Key::LeftArrow) }
    else if code == 124 { Some(Key::RightArrow) }
    else if code == 125 { Some(Key::DownArrow) }
    else if code == 126 { Some(Key::UpArrow) }
    else { None }
}

/// Maps a macOS virtual keycode (layout independent) to a [`Key`].
pub fn keycode_to_key(code: u16) -> (r: Option<Key>)
    ensures
        r == spec_keycode_to_key(code),
{
    match code {
        0 => Some(Key::KeyA),
        1 => Some(Key::KeyS),
        2 => Some(Key::KeyD),
        3 => Some(Key::KeyF),
        4 => Some(Key::KeyH),
        5 => Some(Key::KeyG),
        6 => Some(Key::KeyZ),
        7 => Some(Key::KeyX),
        8 => Some(Key::KeyC),
        9 => Some(Key::KeyV),
        11 => Some(Key::KeyB),
        12 => Some(Key::KeyQ),
        13 => Some(Key::KeyW),
        14 => Some(Key::KeyE),
        15 => Some(Key::KeyR),
        16 => Some(Key::KeyY),
        17 => Some(Key::KeyT),
        31 => Some(Key::KeyO),
        32 => Some(Key::KeyU),
        34 => Some(Key::KeyI),
        35 => Some(Key::KeyP),
        37 => Some(Key::KeyL),
        38 => Some(Key::KeyJ),
        40 => Some(Key::KeyK),
        45 => Some(Key::KeyN),
        46 => Some(Key::KeyM),
        18 => Some(Key::Num1),
        19 => Some(Key::Num2),
        20 => Some(Key::Num3),
        21 => Some(Key::Num4),
        23 => Some(Key::Num5),
        22 => Some(Key::Num6),
        26 => Some(Key::Num7),
        28 => Some(Key::Num8),
        25 => Some(Key::Num9),
        29 => Some(Key::Num0),
        48 => Some(Key::Tab),
        53 => Some(Key::Escape),
        36 => Some(Key::Return),
        51 => Some(Key::Backspace),
        49 => Some(Key::Space),
        123 => Some(Key::LeftArrow),
        124 => Some(Key::RightArrow),
        125 => Some(Key::DownArrow),
        126 => Some(Key::UpArrow),
        _ => None,
    }
}

/// The detector's view after aligning its modifier keys with `flags`:
/// each modifier present goes down (left key), each absent one goes up
/// (both keys).
pub open spec fn spec_sync_modifiers(v: ChordView, flags: u64) -> ChordView {
    let v1 = if spec_flags_contain(flags, FLAG_COMMAND) {
        spec_key_down(v, Key::MetaLeft)
    } else {
        spec_key_up(spec_key_up(v, Key::MetaLeft), Key::MetaRight)
    };
    let v2 = if spec_flags_contain(flags, FLAG_ALTERNATE) {
        spec_key_down(v1, Key::Alt)
    } else {
        spec_key_up(spec_key_up(v1, Key::Alt), Key::AltGr)
    };
    if spec_flags_contain(flags, FLAG_SHIFT) {
        spec_key_down(v2, Key::ShiftLeft)
    } else {
        spec_key_up(spec_key_up(v2, Key::ShiftLeft), Key::ShiftRight)
    }
}

/// Aligns the detector's Command, Option and Shift keys with `flags`.
pub fn sync_modifiers(detector: &mut ChordDetector, flags: u64)
    ensures
        final(detector)@ == spec_sync_modifiers(old(detector)@, flags),
{
    if flags_contain(flags, FLAG_COMMAND) {
        detector.key_down(Key::MetaLeft);
    } else {
        detector.key_up(Key::MetaLeft);
        detector.key_up(Key::MetaRight);
    }
    if flags_contain(flags, FLAG_ALTERNATE) {
        detector.key_down(Key::Alt);
    } else {
        detector.key_up(Key::Alt);
        detector.key_up(Key::AltGr);
    }
    if flags_contain(flags, FLAG_SHIFT) {
        detector.key_down(Key::ShiftLeft);
    } else {
        detector.key_up(Key::ShiftLeft);
        detector.key_up(Key::ShiftRight);
    }
}

/// Which kind of event the tap delivered.
#[derive(Debug, Clone, Copy, PartialEq, Eq, Structural)]
pub enum TapEventKind {
    FlagsChanged,
    KeyDown,
    KeyUp,
    Other,
}

/// The fields of a tapped event that the listener reads.
#[derive(Debug, Clone, Copy, PartialEq, Eq, Structural)]
pub struct TapEvent {
    pub kind: TapEventKind,
    /// The event-source user-data field.
    pub user_data: i64,
    /// The raw modifier flags.
    pub flags: u64,
    /// The virtual keycode.
    pub keycode: u16,
    /// The keyboard autorepeat field (1 for a repeat).
    pub autorepeat: i64,
}

/// What to do with a tapped event.
#[derive(Debug, Clone, Copy, PartialEq, Eq, Structural)]
pub struct TapResponse {
    /// Pass the event on (`false` swallows it).
    pub forward: bool,
    /// The action to send to the engine, if any.
    pub action: Option<HotkeyAction>,
}

/// The abstract state of the listener.
pub struct TapView {
    pub chord: ChordView,
    /// Last modifier state, masked to Command and Option.
    pub mod_state: u64,
    /// The tier gate: `true` is Active (tier 2).
    pub active: bool,
}

/// State shared by every invocation of the tap callback.
pub struct EventTapState {
    detector: ChordDetector,
    mod_state: u64,
    active: bool,
}

impl View for EventTapState {
    type V = TapView;

    closed spec fn view(&self) -> TapView {
        TapView { chord: self.detector@, mod_state: self.mod_state, active: self.active }
    }
}

pub open spec fn pass() -> TapResponse {
    TapResponse { forward: true, action: None }
}

pub open spec fn swallow(action: Option<HotkeyAction>) -> TapResponse {
    TapResponse { forward: false, action }
}

pub open spec fn with_chord(t: TapView, chord: ChordView) -> TapView {
    TapView { chord, ..t }
}

/// The KeyUp step for a mapped key.
pub open spec fn spec_key_up_step(t: TapView, key: Key, mode_static: bool) -> (TapView, TapResponse) {
    let c = t.chord;
    if !t.active {
        if c.pending.contains(key) {
            let (c1, a) = spec_release(c, key, mode_static);
            if a is Some {
                (with_chord(t, spec_key_up(c1, key)), swallow(a))
            } else {
                (with_chord(t, spec_key_up(c1, key)), pass())
            }
        } else {
            (with_chord(t, spec_key_up(c, key)), pass())
        }
    } else {
        let was_active = view_cmd(c) && view_opt(c);
        let is_pending = c.pending.contains(key);
        if was_active || is_pending {
            let (c1, a) = spec_release(c, key, mode_static);
            if a is Some {
                (with_chord(t, spec_key_up(c1, key)), swallow(a))
            } else {
                (with_chord(t, spec_key_up(c1, key)), if was_active { swallow(None) } else { pass() })
            }
        } else {
            (with_chord(t, spec_key_up(c, key)), pass())
        }
    }
}

/// The KeyDown step for a mapped key while Active.
pub open spec fn spec_key_down_step(t: TapView, key: Key, mode_static: bool) -> (TapView, TapResponse) {
    let c1 = spec_key_down(t.chord, key);
    if view_cmd(c1) && view_opt(c1) {
        let (c2, a) = spec_press(c1, key, mode_static);
        (with_chord(t, c2), swallow(a))
    } else {
        (with_chord(t, c1), pass())
    }
}

/// One step of the listener: the next state and what to do with the event.
pub open spec fn spec_handle_event(t: TapView, e: TapEvent, mode_static: bool) -> (TapView, TapResponse) {
    if e.user_data == SYNTHETIC_TAG {
        (t, pass())
    } else {
        match e.kind {
            TapEventKind::FlagsChanged => {
                let masked = spec_mask_qualifying(e.flags);
                (
                    TapView {
                        chord: spec_sync_modifiers(t.chord, e.flags),
                        mod_state: masked,
                        active: spec_qualifies(masked),
                    },
                    pass(),
                )
            },
            TapEventKind::KeyDown => {
                if !t.active {
                    (t, pass())
                } else if e.autorepeat == 1 && view_cmd(t.chord) && view_opt(t.chord) {
                    (t, swallow(None))
                } else {
                    match spec_keycode_to_key(e.keycode) {
                        None => (t, pass()),
                        Some(key) => spec_key_down_step(t, key, mode_static),
                    }
                }
            },
            TapEventKind::KeyUp => {
                match spec_keycode_to_key(e.keycode) {
                    None => (t, pass()),
                    Some(key) => spec_key_up_step(t, key, mode_static),
                }
            },
            TapEventKind::Other => (t, pass()),
        }
    }
}

/// Events the daemon injected itself pass straight through: they never
/// change the tier or the detector and never act.
pub proof fn lemma_synthetic_events_pass_through(t: TapView, e: TapEvent, mode_static: bool)
    requires
        e.user_data == SYNTHETIC_TAG,
    ensures
        spec_handle_event(t, e, mode_static) == (t, pass()),
{
}

/// While Idle, a key press is passed on without touching the detector.
pub proof fn lemma_idle_key_down_passes_through(t: TapView, e: TapEvent, mode_static: bool)
    requires
        e.user_data != SYNTHETIC_TAG,
        e.kind == TapEventKind::KeyDown,
        !t.active,
    ensures
        spec_handle_event(t, e, mode_static) == (t, pass()),
{
}

/// Modifiers other than Command and Option (Caps Lock, Shift, Control, …)
/// cannot change the masked modifier state.
pub proof fn lemma_other_modifiers_do_not_change_mask(flags: u64, other: u64)
    requires
        other & (FLAG_COMMAND | FLAG_ALTERNATE) == 0,
    ensures
        spec_mask_qualifying(flags | other) == spec_mask_qualifying(flags),
{
    assert(other & (FLAG_COMMAND | FLAG_ALTERNATE) == 0 ==> (flags | other) & (FLAG_COMMAND | FLAG_ALTERNATE)
        == flags & (FLAG_COMMAND | FLAG_ALTERNATE)) by (bit_vector);
}

/// Tier 2 is engaged by Command or Option alone, and by nothing else.
pub proof fn lemma_gate_engages_on_either_modifier(flags: u64)
    ensures
        spec_qualifies(spec_mask_qualifying(flags))
            <==> (spec_flags_contain(flags, FLAG_COMMAND) || spec_flags_contain(flags, FLAG_ALTERNATE)),
{
    let cmd = FLAG_COMMAND;
    let alt = FLAG_ALTERNATE;
    assert((flags & (cmd | alt)) & cmd == cmd <==> flags & cmd == cmd) by (bit_vector)
        requires
            cmd == 0x0010_0000u64,
            alt == 0x0008_0000u64,
    ;
    assert((flags & (cmd | alt)) & alt == alt <==> flags & alt == alt) by (bit_vector)
        requires
            cmd == 0x0010_0000u64,
            alt == 0x0008_0000u64,
    ;
}

/// A change of modifiers sets the tier from the complete masked state:
/// Active exactly while Command or Option is still down.
pub proof fn lemma_flags_change_sets_gate(t: TapView, e: TapEvent, mode_static: bool)
    requires
        e.user_data != SYNTHETIC_TAG,
        e.kind == TapEventKind::FlagsChanged,
    ensures
        spec_handle_event(t, e, mode_static).0.active
            <==> (spec_flags_contain(e.flags, FLAG_COMMAND) || spec_flags_contain(e.flags, FLAG_ALTERNATE)),
        spec_handle_event(t, e, mode_static).1 == pass(),
{
    lemma_gate_engages_on_either_modifier(e.flags);
}

/// Whenever the listener sends an action, it swallows the event that caused
/// it, so the chord never reaches the foreground app.
pub proof fn lemma_action_only_with_swallowed_event(t: TapView, e: TapEvent, mode_static: bool)
    ensures
        spec_handle_event(t, e, mode_static).1.action is Some ==> !spec_handle_event(t, e, mode_static).1.forward,
{
}

impl EventTapState {
    /// Idle, with no key held.
    pub fn new() -> (r: Self)
        ensures
            r@.chord == empty_chord_view(),
            r@.mod_state == 0,
            !r@.active,
    {
        EventTapState { detector: ChordDetector::new(), mod_state: 0, active: false }
    }

    /// The tier gate: `true` while tier 2 is engaged.
    pub fn is_active(&self) -> (r: bool)
        ensures
            r == self@.active,
    {
        self.active
    }

    /// The cached modifier state, masked to Command and Option.
    pub fn mod_state(&self) -> (r: u64)
        ensures
            r == self@.mod_state,
    {
        self.mod_state
    }

    /// The chord detector.
    pub fn detector(&self) -> (r: &ChordDetector)
        ensures
            r@ == self@.chord,
    {
        &self.detector
    }

    /// Re-arm after the tap was disabled: forget held keys (their releases
    /// may have been missed) and rebuild the modifier view and the tier from
    /// the live flags.
    pub fn resync_after_reenable(&mut self, live_flags: u64)
        ensures
            final(self)@.chord == spec_sync_modifiers(empty_chord_view(), live_flags),
            final(self)@.mod_state == spec_mask_qualifying(live_flags),
            final(self)@.active == spec_qualifies(spec_mask_qualifying(live_flags)),
    {
        self.detector.reset();
        let masked = mask_qualifying(live_flags);
        self.mod_state = masked;
        sync_modifiers(&mut self.detector, live_flags);
        self.active = qualifies(masked);
    }

    fn key_up_step(&mut self, key: Key, mode_static: bool) -> (r: TapResponse)
        ensures
            (final(self)@, r) == spec_key_up_step(old(self)@, key, mode_static),
    {
        if !self.active {
            if self.detector.is_pending_chord_key(&key) {
                if let Some(action) = self.detector.evaluate_release(&key, mode_static) {
                    self.detector.key_up(key);
                    return TapResponse { forward: false, action: Some(action) };
                }
            }
            self.detector.key_up(key);
            return TapResponse { forward: true, action: None };
        }
        let was_active = self.detector.cmd() && self.detector.opt();
        let is_pending = self.detector.is_pending_chord_key(&key);
        if was_active || is_pending {
            if let Some(action) = self.detector.evaluate_release(&key, mode_static) {
                self.detector.key_up(key);
                return TapResponse { forward: false, action: Some(action) };
            }
        }
        self.detector.key_up(key);
        if was_active {
            return TapResponse { forward: false, action: None };
        }
        TapResponse { forward: true, action: None }
    }

    /// Handles one tapped event: updates the tier and the detector and says
    /// whether to pass the event on and which action, if any, to send.
    pub fn handle_event(&mut self, event: &TapEvent, mode_static: bool) -> (r: TapResponse)
        ensures
            (final(self)@, r) == spec_handle_event(old(self)@, *event, mode_static),
    {
        if event.user_data == SYNTHETIC_TAG {
            return TapResponse { forward: true, action: None };
        }
        match event.kind {
            TapEventKind::FlagsChanged => {
                let masked = mask_qualifying(event.flags);
                self.mod_state = masked;
                self.active = qualifies(masked);
                sync_modifiers(&mut self.detector, event.flags);
                TapResponse { forward: true, action: None }
            },
            TapEventKind::KeyDown => {
                if !self.active {
                    return TapResponse { forward: true, action: None };
                }
                if event.autorepeat == 1 && self.detector.cmd() && self.detector.opt() {
                    return TapResponse { forward: false, action: None };
                }
                let key = match keycode_to_key(event.keycode) {
                    Some(k) => k,
                    None => return TapResponse { forward: true, action: None },
                };
                self.detector.key_down(key);
                if self.detector.cmd() && self.detector.opt() {
                    let action = self.detector.evaluate_press(&key, mode_static);
                    return TapResponse { forward: false, action };
                }
                TapResponse { forward: true, action: None }
            },
            TapEventKind::KeyUp => {
                let key = match keycode_to_key(event.keycode) {
                    Some(k) => k,
                    None => return TapResponse { forward: true, action: None },
                };
                self.key_up_step(key, mode_static)
            },
            TapEventKind::Other => TapResponse { forward: true, action: None },
        }
    }
}

} // verus!

verus! {

/// The copy, cut or paste a released letter fires, given its key, the mode
/// and the chord's digit.
pub open spec fn letter_action(key: Key, mode_static: bool, digit: Option<usize>) -> Option<HotkeyAction> {
    if key == Key::KeyC {
        if !mode_static { Some(HotkeyAction::DynamicCopy) } else if digit is Some { Some(HotkeyAction::StaticCopy(digit->0)) } else { None }
    } else if key == Key::KeyX {
        if !mode_static { Some(HotkeyAction::DynamicCut) } else if digit is Some { Some(HotkeyAction::StaticCut(digit->0)) } else { None }
    } else if key == Key::KeyV {
        if !mode_static { Some(HotkeyAction::DynamicPaste) } else if digit is Some { Some(HotkeyAction::StaticPaste(digit->0)) } else { None }
    } else {
        None
    }
}

/// Releasing C, X or V that went down inside a Cmd+Opt chord fires its
/// copy, cut or paste and swallows the release, whether or not Cmd and Opt
/// are still both held and whichever tier is engaged — so letting go of a
/// modifier a moment before the letter still acts.
pub proof fn lemma_pending_letter_fires_on_release(t: TapView, e: TapEvent, key: Key, mode_static: bool)
    requires
        e.user_data != SYNTHETIC_TAG,
        e.kind == TapEventKind::KeyUp,
        spec_keycode_to_key(e.keycode) == Some(key),
        t.chord.pending.contains(key),
        letter_action(key, mode_static, t.chord.last_digit) is Some,
    ensures
        spec_handle_event(t, e, mode_static).1 == (TapResponse {
            forward: false,
            action: letter_action(key, mode_static, t.chord.last_digit),
        }),
        !spec_handle_event(t, e, mode_static).0.chord.pending.contains(key),
{
}

/// The ANSI keycode of the digit key printed with `d`.
pub open spec fn ansi_digit_keycode(d: usize) -> u16 {
    if d == 1 { 18 }
    else if d == 2 { 19 }
    else if d == 3 { 20 }
    else if d == 4 { 21 }
    else if d == 5 { 23 }
    else if d == 6 { 22 }
    else if d == 7 { 26 }
    else if d == 8 { 28 }
    else { 25 }
}

/// A keycode addresses slot `d` exactly when it is the keycode of the key
/// printed with the digit `d` (18→1, 19→2, 20→3, 21→4, 23→5, 22→6, 26→7,
/// 28→8, 25→9); no other keycode addresses a slot. The chord keys map to
/// their letters: 8→C, 7→X, 9→V, 48→Tab, 53→Esc.
pub proof fn lemma_keycodes_name_printed_keys(code: u16, d: usize)
    requires
        1 <= d <= 9,
    ensures
        spec_key_to_digit_of(code) == Some(d) <==> code == ansi_digit_keycode(d),
        spec_key_to_digit_of(code) is Some ==> 18 <= code <= 28,
        spec_keycode_to_key(8) == Some(Key::KeyC),
        spec_keycode_to_key(7) == Some(Key::KeyX),
        spec_keycode_to_key(9) == Some(Key::KeyV),
        spec_keycode_to_key(48) == Some(Key::Tab),
        spec_keycode_to_key(53) == Some(Key::Escape),
{
}

/// The slot a keycode addresses, through the key it names.
pub open spec fn spec_key_to_digit_of(code: u16) -> Option<usize> {
    match spec_keycode_to_key(code) {
        Some(k) => spec_key_to_digit(k),
        None => None,
    }
}

} // verus!

verus! {

/// Once the modifier flags report Command and Option down, a Tab key press
/// (keycode 48) navigates and is swallowed: backward when the flags also
/// report Shift, forward otherwise, in the current mode. This holds from
/// any listener state in which Tab has not yet acted and Esc is not held.
pub proof fn lemma_tab_after_modifiers_navigates(t: TapView, flags_event: TapEvent, tab: TapEvent, mode_static: bool)
    requires
        flags_event.user_data != SYNTHETIC_TAG,
        flags_event.kind == TapEventKind::FlagsChanged,
        spec_flags_contain(flags_event.flags, FLAG_COMMAND),
        spec_flags_contain(flags_event.flags, FLAG_ALTERNATE),
        tab.user_data != SYNTHETIC_TAG,
        tab.kind == TapEventKind::KeyDown,
        tab.keycode == 48,
        tab.autorepeat != 1,
        !t.chord.tab_consumed,
        !t.chord.held.contains(Key::Escape),
    ensures
        ({
            let t1 = spec_handle_event(t, flags_event, mode_static).0;
            let r = spec_handle_event(t1, tab, mode_static).1;
            &&& t1.active
            &&& !r.forward
            &&& spec_flags_contain(flags_event.flags, FLAG_SHIFT) ==> r.action == Some(
                if mode_static { HotkeyAction::StaticNavigatePrev } else { HotkeyAction::DynamicNavigatePrev },
            )
            &&& !spec_flags_contain(flags_event.flags, FLAG_SHIFT) ==> r.action == Some(
                if mode_static { HotkeyAction::StaticNavigateNext } else { HotkeyAction::DynamicNavigateNext },
            )
        }),
{
    lemma_gate_engages_on_either_modifier(flags_event.flags);
    let c1 = spec_sync_modifiers(t.chord, flags_event.flags);
    assert(view_cmd(c1) && view_opt(c1));
    assert(!c1.tab_consumed);
    assert(!c1.held.contains(Key::Escape));
    assert(spec_flags_contain(flags_event.flags, FLAG_SHIFT) <==> view_shift(c1));
    let c2 = spec_key_down(c1, Key::Tab);
    assert(view_cmd(c2) && view_opt(c2));
    assert(!c2.held.contains(Key::Escape));
    assert(view_shift(c2) == view_shift(c1));
}

} // verus!
