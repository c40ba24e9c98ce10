//! The keystrokes ClipWallet injects: Cmd+C, Cmd+X and Cmd+V, each a
//! key-down and a key-up carrying the Command flag and stamped with
//! [`SYNTHETIC_TAG`] so the event tap lets them through.

use vstd::prelude::*;
use crate::tap::{FLAG_COMMAND, SYNTHETIC_TAG, TapEvent, TapEventKind, TapView, pass, spec_handle_event};

verus! {

/// macOS virtual keycode of C (layout-independent).
pub const KEYCODE_C: u16 = 8;

/// macOS virtual keycode of X.
pub const KEYCODE_X: u16 = 7;

/// macOS virtual keycode of V.
pub const KEYCODE_V: u16 = 9;

/// Milliseconds between the key-down and the key-up of an injected chord.
pub const KEY_EVENT_GAP_MS: u64 = 20;

/// Milliseconds the foreground application is given to service a copy or
/// cut before the clipboard is read.
pub const CLIPBOARD_SETTLE_MS: u64 = 150;

/// Milliseconds before a delayed paste, so the user's own modifiers are
/// released first.
pub const PASTE_PREDELAY_MS: u64 = 350;

/// One keyboard event to post at the HID tap point.
#[derive(Debug, Clone, Copy, PartialEq, Eq, Structural)]
pub struct SyntheticKeyEvent {
    pub keycode: u16,
    pub key_down: bool,
    /// Modifier flags of the event.
    pub flags: u64,
    /// Value of the event's source user-data field.
    pub user_data: i64,
}

/// A tagged Command-key event.
pub open spec fn tagged(keycode: u16, key_down: bool) -> SyntheticKeyEvent {
    SyntheticKeyEvent { keycode, key_down, flags: FLAG_COMMAND, user_data: SYNTHETIC_TAG }
}

/// A tagged Cmd+<key> chord: key-down, then (after [`KEY_EVENT_GAP_MS`])
/// key-up.
pub open spec fn tagged_chord(keycode: u16) -> Seq<SyntheticKeyEvent> {
    seq![tagged(keycode, true), tagged(keycode, false)]
}

/// The events of a tagged Cmd+<key> chord, in posting order.
pub fn tagged_cmd_chord(keycode: u16) -> (r: Vec<SyntheticKeyEvent>)
    ensures
        r@ == tagged_chord(keycode),
{
    let mut v: Vec<SyntheticKeyEvent> = Vec::new();
    v.push(SyntheticKeyEvent { keycode, key_down: true, flags: FLAG_COMMAND, user_data: SYNTHETIC_TAG });
    v.push(SyntheticKeyEvent { keycode, key_down: false, flags: FLAG_COMMAND, user_data: SYNTHETIC_TAG });
    assert(v@ =~= tagged_chord(keycode));
    v
}

/// The Cmd+C chord injected to copy the foreground selection (the
/// clipboard is read [`CLIPBOARD_SETTLE_MS`] after it).
pub fn simulate_copy() -> (r: Vec<SyntheticKeyEvent>)
    ensures
        r@ == tagged_chord(KEYCODE_C),
{
    tagged_cmd_chord(KEYCODE_C)
}

/// The Cmd+X chord injected to cut the foreground selection.
pub fn simulate_cut() -> (r: Vec<SyntheticKeyEvent>)
    ensures
        r@ == tagged_chord(KEYCODE_X),
{
    tagged_cmd_chord(KEYCODE_X)
}

/// The Cmd+V chord injected to paste.
pub fn simulate_paste() -> (r: Vec<SyntheticKeyEvent>)
    ensures
        r@ == tagged_chord(KEYCODE_V),
{
    tagged_cmd_chord(KEYCODE_V)
}

/// The event tap sees an injected keystroke as it was posted.
pub open spec fn as_tapped(e: SyntheticKeyEvent) -> TapEvent {
    TapEvent {
        kind: if e.key_down { TapEventKind::KeyDown } else { TapEventKind::KeyUp },
        user_data: e.user_data,
        flags: e.flags,
        keycode: e.keycode,
        autorepeat: 0,
    }
}

/// Every injected keystroke passes the event tap untouched: the tap neither
/// swallows it nor changes its state, so ClipWallet's own copy, cut and
/// paste can never trigger a chord.
pub proof fn lemma_injected_keystrokes_pass_the_tap(keycode: u16, i: int, t: TapView, mode_static: bool)
    requires
        0 <= i < 2,
    ensures
        spec_handle_event(t, as_tapped(tagged_chord(keycode)[i]), mode_static) == (t, pass()),
{
}

} // verus!
