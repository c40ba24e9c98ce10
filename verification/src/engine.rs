//! What each hotkey action does to the store, and what it asks of the
//! outside world: a clipboard write, a paste, a notification.
//!
//! Copy and cut actions first have the foreground application copy (or cut)
//! its selection and read the clipboard; [`capture_for`] says which. The
//! captured payload, the capture time and the monotonic clock then go to
//! [`handle`], which updates the store and returns the [`Effects`] to carry
//! out.

use vstd::prelude::*;
use vstd::string::*;
use crate::chord::{
    ChordView, HotkeyAction, digit_in_range, empty_chord_view, lemma_digit_stays_in_range, spec_key_down,
    spec_key_up, spec_release,
};
use crate::keys::Key;
use crate::tap::{
    FLAG_ALTERNATE, FLAG_COMMAND, TapEvent, TapView, spec_flags_contain, spec_handle_event, spec_keycode_to_key,
    spec_sync_modifiers,
};
use crate::clipboard::{opt_data_view, spec_sync_write, spec_write_for};
use crate::notify::{
    Notification, NotificationView, banner, dec, fraction, notify_dynamic_copy, notify_dynamic_cut,
    notify_dynamic_delete, notify_dynamic_nav, notify_dynamic_paste, notify_static_copy,
    notify_static_cut, notify_static_delete, notify_static_nav, notify_static_paste,
};
use crate::preview::{short_preview, spec_short_preview};
use crate::spill::{lemma_spill_then_hydrate, maybe_spill, spec_restore, spec_spill_target, spill_bytes_of, spilled_descriptor};
use crate::ram::{
    IdSource, RamStore, RamView, first_occupied_from, lemma_static_nav_lands_on_occupied, spec_delete_at_cursor, spec_push,
    step_index, view_wf,
};
use crate::types::{ClipData, ClipDataView, ClipEntry, ClipEntryView, EntryId, lemma_content_eq_is_equivalence, spec_content_eq};

verus! {

/// What the foreground application is asked to do before an action reads
/// the clipboard.
#[derive(Debug, Clone, Copy, PartialEq, Eq, Structural)]
pub enum Capture {
    /// Cmd+C.
    Copy,
    /// Cmd+X.
    Cut,
}

/// Copy actions capture with Cmd+C, cut actions with Cmd+X; no other action
/// captures.
pub open spec fn spec_capture_for(a: HotkeyAction) -> Option<Capture> {
    match a {
        HotkeyAction::StaticCopy(_) | HotkeyAction::DynamicCopy => Some(Capture::Copy),
        HotkeyAction::StaticCut(_) | HotkeyAction::DynamicCut => Some(Capture::Cut),
        _ => None,
    }
}

/// Which keystroke, if any, must be injected before `action` is handled.
pub fn capture_for(action: HotkeyAction) -> (r: Option<Capture>)
    ensures
        r == spec_capture_for(action),
{
    match action {
        HotkeyAction::StaticCopy(_) | HotkeyAction::DynamicCopy => Some(Capture::Copy),
        HotkeyAction::StaticCut(_) | HotkeyAction::DynamicCut => Some(Capture::Cut),
        _ => None,
    }
}

/// What the outside world is asked to do after an action.
pub struct Effects {
    /// Payload to put on the system clipboard.
    pub sync: Option<ClipData>,
    /// Inject a (delayed) Cmd+V once the clipboard write succeeded.
    pub paste: bool,
    /// Banner to show.
    pub notification: Option<Notification>,
}

/// The mathematical value of [`Effects`].
pub struct EffectsView {
    pub sync: Option<ClipDataView>,
    pub paste: bool,
    pub notification: Option<NotificationView>,
}

impl View for Effects {
    type V = EffectsView;

    open spec fn view(&self) -> EffectsView {
        EffectsView {
            sync: opt_data_view(self.sync),
            paste: self.paste,
            notification: match self.notification {
                Some(n) => Some(n@),
                None => None,
            },
        }
    }
}

pub open spec fn no_effects() -> EffectsView {
    EffectsView { sync: None, paste: false, notification: None }
}

fn nothing() -> (r: Effects)
    ensures
        r@ == no_effects(),
{
    Effects { sync: None, paste: false, notification: None }
}

/// How a captured payload is spilled: at which threshold (`0` disables
/// spilling), and whether its bytes were written to the blob file of the id
/// the entry receives (one more than the last id handed out).
#[derive(Debug, Clone, Copy, PartialEq, Eq, Structural)]
pub struct SpillPolicy {
    pub threshold: usize,
    pub blob_written: bool,
}

/// Slot numbers carried by static actions are 1-9.
pub open spec fn action_ok(a: HotkeyAction) -> bool {
    match a {
        HotkeyAction::StaticCopy(s) | HotkeyAction::StaticCut(s) | HotkeyAction::StaticPaste(s) => 1 <= s
            <= 9,
        _ => true,
    }
}

/// A fresh entry as the store receives it.
pub open spec fn fresh_entry(id: EntryId, d: ClipDataView, ts: i64) -> ClipEntryView {
    ClipEntryView { id, timestamp: ts, data: d, encrypted: false, label: None }
}

/// A fresh entry after spilling: its payload is replaced by the spilled
/// descriptor when it is a spill target at `threshold` and its blob was
/// written (see [`crate::spill::maybe_spill`]).
pub open spec fn stored_entry(id: EntryId, d: ClipDataView, ts: i64, threshold: usize, blob_written: bool) -> ClipEntryView {
    if spec_spill_target(d, threshold) && blob_written {
        fresh_entry(id, spilled_descriptor(id, d), ts)
    } else {
        fresh_entry(id, d, ts)
    }
}

/// The ring cursor after one step older (`forward`) or newer, wrapping; the
/// store is unchanged on an empty ring.
pub open spec fn spec_ring_step(v: RamView, forward: bool, now: u64) -> RamView {
    if v.ring.len() == 0 {
        v
    } else {
        RamView {
            dynamic_cursor: if forward {
                (v.dynamic_cursor + 1) % v.ring.len() as int
            } else if v.dynamic_cursor == 0 {
                v.ring.len() - 1
            } else {
                v.dynamic_cursor - 1
            },
            last_nav: now,
            ..v
        }
    }
}

/// The payload at the ring cursor, if the ring holds any.
pub open spec fn at_cursor(v: RamView) -> Option<ClipDataView> {
    if v.ring.len() > 0 {
        Some(v.ring[v.dynamic_cursor].data)
    } else {
        None
    }
}

/// Storing a captured payload in a static slot.
pub open spec fn spec_static_store(v: RamView, last: u64, slot: usize, cut: bool, cap: Option<ClipDataView>, ts: i64, sp: SpillPolicy) -> (RamView, u64, EffectsView) {
    match cap {
        None => (v, last, no_effects()),
        Some(d) => (
            RamView {
                slots: v.slots.update(slot - 1, Some(stored_entry((last + 1) as u64, d, ts, sp.threshold, sp.blob_written))),
                dirty: true,
                ..v
            },
            (last + 1) as u64,
            EffectsView {
                sync: None,
                paste: false,
                notification: Some(
                    banner(
                        (if cut { "Cut → Slot "@ } else { "Copied → Slot "@ }) + dec(slot),
                        spec_short_preview(d),
                    ),
                ),
            },
        ),
    }
}

/// Pushing a captured payload onto the ring; it is also put back on the
/// system clipboard.
pub open spec fn spec_ring_store(v: RamView, last: u64, cut: bool, cap: Option<ClipDataView>, ts: i64, sp: SpillPolicy) -> (RamView, u64, EffectsView) {
    match cap {
        None => (v, last, no_effects()),
        Some(d) => {
            let v2 = spec_push(v, stored_entry((last + 1) as u64, d, ts, sp.threshold, sp.blob_written)).0;
            (
                v2,
                (last + 1) as u64,
                EffectsView {
                    sync: Some(d),
                    paste: false,
                    notification: Some(
                        banner(
                            (if cut { "Cut  "@ } else { "Copied  "@ }) + fraction(
                                (v2.dynamic_cursor + 1) as usize,
                                v2.ring.len() as usize,
                            ),
                            spec_short_preview(d),
                        ),
                    ),
                },
            )
        },
    }
}

/// Moving the Tab cursor to the next (or previous) occupied slot and putting
/// its payload on the clipboard.
pub open spec fn spec_static_nav(v: RamView, last: u64, forward: bool) -> (RamView, u64, EffectsView) {
    match first_occupied_from(v.slots, v.static_cursor, forward, 1) {
        Some(i) => {
            let d = v.slots[i]->0.data;
            (
                RamView { static_cursor: i, ..v },
                last,
                EffectsView {
                    sync: Some(d),
                    paste: false,
                    notification: Some(
                        banner(
                            "Tab → Slot "@ + dec((i + 1) as usize) + "  (Cmd+V ready)"@,
                            spec_short_preview(d),
                        ),
                    ),
                },
            )
        },
        None => (v, last, no_effects()),
    }
}

/// Moving the ring cursor and putting the payload it lands on on the
/// clipboard.
pub open spec fn spec_ring_nav(v: RamView, last: u64, forward: bool, now: u64) -> (RamView, u64, EffectsView) {
    let v2 = spec_ring_step(v, forward, now);
    match at_cursor(v2) {
        Some(d) => (
            v2,
            last,
            EffectsView {
                sync: Some(d),
                paste: false,
                notification: Some(
                    banner(
                        "Tab  "@ + fraction((v2.dynamic_cursor + 1) as usize, v2.ring.len() as usize)
                            + "  Cmd+V ready"@,
                        spec_short_preview(d),
                    ),
                ),
            },
        ),
        None => (v2, last, no_effects()),
    }
}

/// The effect of one action on the store (its view), on the last id handed
/// out, and on the outside world. `cap` is the payload captured for a copy
/// or cut; `ts` its capture time; `now` the monotonic clock in seconds.
pub open spec fn spec_handle(v: RamView, last: u64, a: HotkeyAction, cap: Option<ClipDataView>, ts: i64, sp: SpillPolicy, now: u64) -> (RamView, u64, EffectsView) {
    match a {
        HotkeyAction::StaticCopy(slot) => spec_static_store(v, last, slot, false, cap, ts, sp),
        HotkeyAction::StaticCut(slot) => spec_static_store(v, last, slot, true, cap, ts, sp),
        HotkeyAction::StaticPaste(slot) => match v.slots[slot - 1] {
            Some(e) => (
                v,
                last,
                EffectsView {
                    sync: Some(e.data),
                    paste: true,
                    notification: Some(banner("Pasted from Slot "@ + dec(slot), Seq::empty())),
                },
            ),
            None => (v, last, no_effects()),
        },
        HotkeyAction::StaticNavigateNext => spec_static_nav(v, last, true),
        HotkeyAction::StaticNavigatePrev => spec_static_nav(v, last, false),
        HotkeyAction::StaticDeleteCurrent => if v.slots[v.static_cursor] is Some {
            (
                RamView { slots: v.slots.update(v.static_cursor, None), dirty: true, ..v },
                last,
                EffectsView {
                    sync: None,
                    paste: false,
                    notification: Some(
                        banner("Slot "@ + dec((v.static_cursor + 1) as usize) + " cleared"@, Seq::empty()),
                    ),
                },
            )
        } else {
            (v, last, no_effects())
        },
        HotkeyAction::DynamicCopy => spec_ring_store(v, last, false, cap, ts, sp),
        HotkeyAction::DynamicCut => spec_ring_store(v, last, true, cap, ts, sp),
        HotkeyAction::DynamicPaste => match at_cursor(v) {
            Some(d) => (
                v,
                last,
                EffectsView {
                    sync: Some(d),
                    paste: true,
                    notification: Some(
                        banner(
                            "Paste ready  "@ + fraction((v.dynamic_cursor + 1) as usize, v.ring.len() as usize),
                            "Press Cmd+V"@,
                        ),
                    ),
                },
            ),
            None => (v, last, no_effects()),
        },
        HotkeyAction::DynamicNavigateNext => spec_ring_nav(v, last, true, now),
        HotkeyAction::DynamicNavigatePrev => spec_ring_nav(v, last, false, now),
        HotkeyAction::DynamicDeleteCurrent => {
            let v2 = spec_delete_at_cursor(v);
            (
                v2,
                last,
                EffectsView {
                    sync: at_cursor(v2),
                    paste: false,
                    notification: Some(
                        banner("Deleted ring["@ + dec(v.dynamic_cursor as usize) + "]"@, Seq::empty()),
                    ),
                },
            )
        },
        HotkeyAction::CursorReset => if v.dynamic_cursor != 0 {
            let v2 = RamView { dynamic_cursor: 0, ..v };
            (v2, last, EffectsView { sync: at_cursor(v2), paste: false, notification: None })
        } else {
            (v, last, no_effects())
        },
    }
}

fn current_data(ram: &RamStore) -> (r: Option<ClipData>)
    requires
        ram.wf(),
    ensures
        opt_data_view(r) == at_cursor(ram@),
{
    match ram.current_dynamic() {
        Some(e) => Some(e.data.duplicate()),
        None => None,
    }
}

fn static_store(ram: &mut RamStore, ids: &mut IdSource, slot: usize, cut: bool, captured: Option<ClipData>, timestamp: i64, sp: SpillPolicy) -> (r: Effects)
    requires
        old(ram).wf(),
        1 <= slot <= 9,
        old(ids).last_id() < u64::MAX,
    ensures
        final(ram).wf(),
        (final(ram)@, final(ids).last_id(), r@) == spec_static_store(
            old(ram)@,
            old(ids).last_id(),
            slot,
            cut,
            opt_data_view(captured),
            timestamp,
            sp,
        ),
{
    match captured {
        None => nothing(),
        Some(data) => {
            let preview = short_preview(&data);
            let entry = maybe_spill(ClipEntry::new(ids.next_id(), data, timestamp), sp.threshold, sp.blob_written);
            ram.set_static(slot, entry);
            let n = if cut {
                notify_static_cut(slot, preview.as_str())
            } else {
                notify_static_copy(slot, preview.as_str())
            };
            Effects { sync: None, paste: false, notification: Some(n) }
        },
    }
}

fn ring_store(ram: &mut RamStore, ids: &mut IdSource, cut: bool, captured: Option<ClipData>, timestamp: i64, sp: SpillPolicy) -> (r: Effects)
    requires
        old(ram).wf(),
        old(ids).last_id() < u64::MAX,
    ensures
        final(ram).wf(),
        (final(ram)@, final(ids).last_id(), r@) == spec_ring_store(
            old(ram)@,
            old(ids).last_id(),
            cut,
            opt_data_view(captured),
            timestamp,
            sp,
        ),
{
    match captured {
        None => nothing(),
        Some(data) => {
            let preview = short_preview(&data);
            let sync = data.duplicate();
            let entry = maybe_spill(ClipEntry::new(ids.next_id(), data, timestamp), sp.threshold, sp.blob_written);
            let _evicted = ram.push_dynamic(entry);
            let pos = ram.dynamic_cursor() + 1;
            let total = ram.ring_len();
            let n = if cut {
                notify_dynamic_cut(pos, total, preview.as_str())
            } else {
                notify_dynamic_copy(pos, total, preview.as_str())
            };
            Effects { sync: Some(sync), paste: false, notification: Some(n) }
        },
    }
}

fn static_nav(ram: &mut RamStore, forward: bool) -> (r: Effects)
    requires
        old(ram).wf(),
    ensures
        final(ram).wf(),
        (final(ram)@, r@) == ({
            let t = spec_static_nav(old(ram)@, 0, forward);
            (t.0, t.2)
        }),
{
    proof {
        lemma_static_nav_lands_on_occupied(ram@, forward);
    }
    let landed = if forward {
        ram.static_cursor_next()
    } else {
        ram.static_cursor_prev()
    };
    match landed {
        Some(slot) => match ram.static_cursor_entry() {
            Some(e) => {
                let d = e.data.duplicate();
                let preview = short_preview(&d);
                let n = notify_static_nav(slot, preview.as_str());
                Effects { sync: Some(d), paste: false, notification: Some(n) }
            },
            None => nothing(),
        },
        None => nothing(),
    }
}

fn ring_nav(ram: &mut RamStore, forward: bool, now_secs: u64) -> (r: Effects)
    requires
        old(ram).wf(),
    ensures
        final(ram).wf(),
        (final(ram)@, r@) == ({
            let t = spec_ring_nav(old(ram)@, 0, forward, now_secs);
            (t.0, t.2)
        }),
{
    if forward {
        ram.cursor_next(now_secs);
    } else {
        ram.cursor_prev(now_secs);
    }
    match ram.current_dynamic() {
        Some(e) => {
            let d = e.data.duplicate();
            let preview = short_preview(&d);
            let total = ram.ring_len();
            let pos = ram.dynamic_cursor() + 1;
            let n = notify_dynamic_nav(pos, total, preview.as_str());
            Effects { sync: Some(d), paste: false, notification: Some(n) }
        },
        None => nothing(),
    }
}

/// Carries out one action on the store (see [`spec_handle`]). `captured` is
/// what the clipboard held after the keystroke [`capture_for`] asked for
/// (ignored by the other actions); `timestamp` is the capture time in
/// nanoseconds since the Unix epoch; `spill` says whether the captured
/// payload's blob was written under the next id; `now_secs` is the
/// monotonic clock.
pub fn handle(
    ram: &mut RamStore,
    ids: &mut IdSource,
    action: HotkeyAction,
    captured: Option<ClipData>,
    timestamp: i64,
    spill: SpillPolicy,
    now_secs: u64,
) -> (r: Effects)
    requires
        old(ram).wf(),
        action_ok(action),
        old(ids).last_id() < u64::MAX,
    ensures
        final(ram).wf(),
        (final(ram)@, final(ids).last_id(), r@) == spec_handle(
            old(ram)@,
            old(ids).last_id(),
            action,
            opt_data_view(captured),
            timestamp,
            spill,
            now_secs,
        ),
{
    match action {
        HotkeyAction::StaticCopy(slot) => static_store(ram, ids, slot, false, captured, timestamp, spill),
        HotkeyAction::StaticCut(slot) => static_store(ram, ids, slot, true, captured, timestamp, spill),
        HotkeyAction::StaticPaste(slot) => match ram.get_static(slot) {
            Some(e) => {
                let d = e.data.duplicate();
                Effects { sync: Some(d), paste: true, notification: Some(notify_static_paste(slot)) }
            },
            None => nothing(),
        },
        HotkeyAction::StaticNavigateNext => static_nav(ram, true),
        HotkeyAction::StaticNavigatePrev => static_nav(ram, false),
        HotkeyAction::StaticDeleteCurrent => {
            let slot = ram.static_cursor_slot();
            if ram.static_cursor_entry().is_some() {
                ram.static_delete_at_cursor();
                Effects { sync: None, paste: false, notification: Some(notify_static_delete(slot)) }
            } else {
                nothing()
            }
        },
        HotkeyAction::DynamicCopy => ring_store(ram, ids, false, captured, timestamp, spill),
        HotkeyAction::DynamicCut => ring_store(ram, ids, true, captured, timestamp, spill),
        HotkeyAction::DynamicPaste => match ram.current_dynamic() {
            Some(e) => {
                let d = e.data.duplicate();
                let total = ram.ring_len();
                let pos = ram.dynamic_cursor() + 1;
                let n = notify_dynamic_paste(pos, total);
                Effects { sync: Some(d), paste: true, notification: Some(n) }
            },
            None => nothing(),
        },
        HotkeyAction::DynamicNavigateNext => ring_nav(ram, true, now_secs),
        HotkeyAction::DynamicNavigatePrev => ring_nav(ram, false, now_secs),
        HotkeyAction::DynamicDeleteCurrent => {
            let cursor = ram.dynamic_cursor();
            ram.delete_at_cursor();
            let next = current_data(ram);
            Effects { sync: next, paste: false, notification: Some(notify_dynamic_delete(cursor)) }
        },
        HotkeyAction::CursorReset => {
            if ram.dynamic_cursor() != 0 {
                ram.reset_cursor();
                let d = current_data(ram);
                Effects { sync: d, paste: false, notification: None }
            } else {
                nothing()
            }
        },
    }
}

} // verus!

verus! {

/// Copying into a slot and then pasting from it puts the copied payload
/// back on the clipboard and pastes it: the very payload when it stayed
/// resident, and, when it was spilled, a descriptor whose blob bytes
/// rebuild it.
pub proof fn lemma_static_copy_then_paste(
    v: RamView,
    last: u64,
    slot: usize,
    cut: bool,
    d: ClipDataView,
    ts: i64,
    sp: SpillPolicy,
    now1: u64,
    now2: u64,
)
    requires
        view_wf(v),
        1 <= slot <= 9,
        last < u64::MAX,
    ensures
        ({
            let a = if cut { HotkeyAction::StaticCut(slot) } else { HotkeyAction::StaticCopy(slot) };
            let (v1, last1, _) = spec_handle(v, last, a, Some(d), ts, sp, now1);
            let (v2, last2, fx) = spec_handle(v1, last1, HotkeyAction::StaticPaste(slot), None, 0, sp, now2);
            &&& v2 == v1
            &&& last2 == last + 1
            &&& fx.paste
            &&& fx.sync == Some(stored_entry((last + 1) as u64, d, ts, sp.threshold, sp.blob_written).data)
            &&& !(spec_spill_target(d, sp.threshold) && sp.blob_written) ==> fx.sync == Some(d)
            &&& (spec_spill_target(d, sp.threshold) && sp.blob_written) ==> (fx.sync matches Some(
                ClipDataView::Spilled { blob_id, kind, .. },
            ) && blob_id == last + 1 && spec_restore(kind, spill_bytes_of(d).unwrap()) == d
                && spec_sync_write(fx.sync->0, spill_bytes_of(d)) == spec_write_for(d))
        }),
{
    if spec_spill_target(d, sp.threshold) && sp.blob_written {
        lemma_spill_then_hydrate((last + 1) as u64, d);
    }
}

/// Copying into the ring and then pasting puts on the clipboard a payload
/// with the content that was copied: the new entry, or the newest entry it
/// duplicated.
pub proof fn lemma_ring_copy_then_paste(
    v: RamView,
    last: u64,
    cut: bool,
    d: ClipDataView,
    ts: i64,
    sp: SpillPolicy,
    now1: u64,
    now2: u64,
)
    requires
        view_wf(v),
        last < u64::MAX,
    ensures
        ({
            let a = if cut { HotkeyAction::DynamicCut } else { HotkeyAction::DynamicCopy };
            let e = stored_entry((last + 1) as u64, d, ts, sp.threshold, sp.blob_written);
            let (v1, last1, fx1) = spec_handle(v, last, a, Some(d), ts, sp, now1);
            let (v2, _, fx) = spec_handle(v1, last1, HotkeyAction::DynamicPaste, None, 0, sp, now2);
            &&& fx1.sync == Some(d)
            &&& v2 == v1
            &&& fx.paste
            &&& fx.sync matches Some(p) && spec_content_eq(p, e.data)
        }),
{
    let e = stored_entry((last + 1) as u64, d, ts, sp.threshold, sp.blob_written);
    lemma_content_eq_is_equivalence(v.ring[0].data, e.data, e.data);
    lemma_content_eq_is_equivalence(e.data, e.data, e.data);
}

} // verus!

verus! {

proof fn lemma_sync_keeps_digit(c: ChordView, flags: u64)
    requires
        digit_in_range(c),
    ensures
        digit_in_range(spec_sync_modifiers(c, flags)),
{
    lemma_digit_stays_in_range(c, Key::MetaLeft, false);
    let u1 = spec_key_up(c, Key::MetaLeft);
    lemma_digit_stays_in_range(u1, Key::MetaRight, false);
    let v1 = if spec_flags_contain(flags, FLAG_COMMAND) {
        spec_key_down(c, Key::MetaLeft)
    } else {
        spec_key_up(u1, Key::MetaRight)
    };
    lemma_digit_stays_in_range(v1, Key::Alt, false);
    let u2 = spec_key_up(v1, Key::Alt);
    lemma_digit_stays_in_range(u2, Key::AltGr, false);
    let v2 = if spec_flags_contain(flags, FLAG_ALTERNATE) {
        spec_key_down(v1, Key::Alt)
    } else {
        spec_key_up(u2, Key::AltGr)
    };
    lemma_digit_stays_in_range(v2, Key::ShiftLeft, false);
    let u3 = spec_key_up(v2, Key::ShiftLeft);
    lemma_digit_stays_in_range(u3, Key::ShiftRight, false);
}

/// Every action the key listener sends can be handled: a static action
/// addresses a slot 1-9. The listener starts with no digit and keeps any
/// digit in 1-9 through every event, including a resync after the tap was
/// disabled.
pub proof fn lemma_listener_actions_can_be_handled(t: TapView, e: TapEvent, mode_static: bool, live_flags: u64)
    requires
        digit_in_range(t.chord),
    ensures
        digit_in_range(empty_chord_view()),
        digit_in_range(spec_sync_modifiers(empty_chord_view(), live_flags)),
        digit_in_range(spec_handle_event(t, e, mode_static).0.chord),
        spec_handle_event(t, e, mode_static).1.action matches Some(a) ==> action_ok(a),
{
    lemma_sync_keeps_digit(empty_chord_view(), live_flags);
    lemma_sync_keeps_digit(t.chord, e.flags);
    if let Some(key) = spec_keycode_to_key(e.keycode) {
        lemma_digit_stays_in_range(t.chord, key, mode_static);
        let c1 = spec_key_down(t.chord, key);
        lemma_digit_stays_in_range(c1, key, mode_static);
        let r = spec_release(t.chord, key, mode_static).0;
        lemma_digit_stays_in_range(r, key, mode_static);
    }
}

} // verus!

verus! {

/// Dynamic Tab navigation on a non-empty ring: Next moves the cursor one
/// entry older, wrapping from the oldest to the newest; Prev moves it one
/// entry newer, wrapping from the newest to the oldest. The entry landed on
/// is put on the clipboard and its position announced as `[pos/len]`.
pub proof fn lemma_ring_navigation_direction(v: RamView, last: u64, now: u64, sp: SpillPolicy)
    requires
        view_wf(v),
        v.ring.len() > 0,
    ensures
        ({
            let len = v.ring.len() as int;
            let c = v.dynamic_cursor;
            let next = if c + 1 == len { 0 } else { c + 1 };
            let prev = if c == 0 { len - 1 } else { c - 1 };
            let (vn, _, fxn) = spec_handle(v, last, HotkeyAction::DynamicNavigateNext, None, 0, sp, now);
            let (vp, _, fxp) = spec_handle(v, last, HotkeyAction::DynamicNavigatePrev, None, 0, sp, now);
            &&& vn.dynamic_cursor == next
            &&& vn.ring == v.ring
            &&& fxn.sync == Some(v.ring[next].data)
            &&& fxn.notification matches Some(n) && n.subtitle == "Tab  "@ + fraction((next + 1) as usize, len as usize)
                + "  Cmd+V ready"@
            &&& vp.dynamic_cursor == prev
            &&& vp.ring == v.ring
            &&& fxp.sync == Some(v.ring[prev].data)
        }),
{
    let len = v.ring.len() as int;
    let c = v.dynamic_cursor;
    if c + 1 < len {
        vstd::arithmetic::div_mod::lemma_small_mod((c + 1) as nat, len as nat);
    } else {
        vstd::arithmetic::div_mod::lemma_mod_self_0(len);
    }
}

/// Deleting at the ring cursor removes exactly that entry and leaves the
/// cursor on the entry that followed it (one older), or on the new oldest
/// entry when the deleted one was the oldest; that entry goes on the
/// clipboard.
pub proof fn lemma_ring_delete_keeps_position(v: RamView, last: u64, now: u64, sp: SpillPolicy)
    requires
        view_wf(v),
        v.ring.len() > 1,
    ensures
        ({
            let n = v.ring.len() as int;
            let k = v.dynamic_cursor;
            let (v2, _, fx) = spec_handle(v, last, HotkeyAction::DynamicDeleteCurrent, None, 0, sp, now);
            &&& v2.ring == v.ring.remove(k)
            &&& v2.dynamic_cursor == (if k < n - 1 { k } else { n - 2 })
            &&& (k < n - 1 ==> fx.sync == Some(v.ring[k + 1].data))
            &&& (k == n - 1 ==> fx.sync == Some(v.ring[n - 2].data))
        }),
{
    let k = v.dynamic_cursor;
    let r = v.ring.remove(k);
    if k < v.ring.len() - 1 {
        assert(r[k] == v.ring[k + 1]);
    } else {
        assert(r[k - 1] == v.ring[k - 1]);
    }
}

} // verus!

verus! {

/// Steps from slot index `from` to slot index `to`, one slot at a time:
/// upwards when `forward`, wrapping after the ninth slot, else downwards;
/// from a slot back to itself is a full turn of nine steps.
pub open spec fn slot_distance(from: int, to: int, forward: bool) -> int {
    if forward {
        if to > from { to - from } else { to - from + 9 }
    } else {
        if from > to { from - to } else { from - to + 9 }
    }
}

proof fn lemma_first_occupied_is_nearest(slots: Seq<Option<ClipEntryView>>, s: int, forward: bool, k: int)
    requires
        slots.len() == 9,
        0 <= s < 9,
        1 <= k,
    ensures
        first_occupied_from(slots, s, forward, k) matches Some(i) ==> {
            &&& 0 <= i < 9
            &&& k <= slot_distance(s, i, forward) <= 9
            &&& forall|j: int|
                k <= j < slot_distance(s, i, forward) ==> slots[#[trigger] step_index(s, j, forward)] is None
        },
    decreases 10 - k,
{
    if 1 <= k <= 9 && slots[step_index(s, k, forward)] is None {
        lemma_first_occupied_is_nearest(slots, s, forward, k + 1);
    }
}

/// Static Tab navigation moves the cursor to the nearest occupied slot
/// above the current one (below it with Shift), wrapping around the nine
/// slots and coming back to the current slot only when no other slot is
/// occupied. That slot's payload goes on the clipboard and its number is
/// announced. With every slot empty nothing happens.
pub proof fn lemma_static_tab_goes_to_nearest_occupied(v: RamView, last: u64, forward: bool, sp: SpillPolicy, now: u64)
    requires
        view_wf(v),
    ensures
        ({
            let a = if forward { HotkeyAction::StaticNavigateNext } else { HotkeyAction::StaticNavigatePrev };
            let (v2, last2, fx) = spec_handle(v, last, a, None, 0, sp, now);
            let c = v2.static_cursor;
            &&& last2 == last
            &&& v2.slots == v.slots
            &&& v2.ring == v.ring
            &&& v2.dynamic_cursor == v.dynamic_cursor
            &&& (exists|p: int| 0 <= p < 9 && #[trigger] v.slots[p] is Some) ==> {
                &&& 0 <= c < 9
                &&& v.slots[c] is Some
                &&& forall|p: int|
                    0 <= p < 9 && #[trigger] v.slots[p] is Some ==> slot_distance(v.static_cursor, c, forward)
                        <= slot_distance(v.static_cursor, p, forward)
                &&& fx.sync == Some(v.slots[c]->0.data)
                &&& fx.notification matches Some(m) && m.subtitle == "Tab → Slot "@ + dec((c + 1) as usize)
                    + "  (Cmd+V ready)"@
            }
            &&& (forall|p: int| 0 <= p < 9 ==> #[trigger] v.slots[p] is None) ==> v2 == v && fx == no_effects()
        }),
{
    let s = v.static_cursor;
    lemma_static_nav_lands_on_occupied(v, forward);
    lemma_first_occupied_is_nearest(v.slots, s, forward, 1);
    if let Some(c) = first_occupied_from(v.slots, s, forward, 1) {
        assert forall|p: int| 0 <= p < 9 && #[trigger] v.slots[p] is Some implies slot_distance(s, c, forward)
            <= slot_distance(s, p, forward) by {
            let m = slot_distance(s, p, forward);
            assert(step_index(s, m, forward) == p);
        }
    }
}

/// Copying or cutting into slot `n` fills slot `n` (index `n - 1`) with the
/// captured payload under the next id and leaves every other slot, the
/// ring and both cursors as they were; the banner names slot `n`. With
/// nothing captured nothing changes.
pub proof fn lemma_slot_store_fills_only_that_slot(
    v: RamView,
    last: u64,
    n: usize,
    cut: bool,
    d: ClipDataView,
    ts: i64,
    sp: SpillPolicy,
    now: u64,
)
    requires
        view_wf(v),
        1 <= n <= 9,
        last < u64::MAX,
    ensures
        ({
            let a = if cut { HotkeyAction::StaticCut(n) } else { HotkeyAction::StaticCopy(n) };
            let (v2, last2, fx) = spec_handle(v, last, a, Some(d), ts, sp, now);
            &&& v2.slots.len() == 9
            &&& v2.slots[n - 1] == Some(stored_entry((last + 1) as u64, d, ts, sp.threshold, sp.blob_written))
            &&& forall|j: int| 0 <= j < 9 && j != n - 1 ==> #[trigger] v2.slots[j] == v.slots[j]
            &&& v2.ring == v.ring
            &&& v2.static_cursor == v.static_cursor
            &&& v2.dynamic_cursor == v.dynamic_cursor
            &&& last2 == last + 1
            &&& fx.notification matches Some(m) && m.subtitle == (if cut { "Cut → Slot "@ } else {
                "Copied → Slot "@
            }) + dec(n)
            &&& spec_handle(v, last, a, None, ts, sp, now) == (v, last, no_effects())
        }),
{
}

/// Pasting from slot `n` puts slot `n`'s payload on the clipboard and
/// pastes it; an empty slot pastes nothing. The store is left as it was.
pub proof fn lemma_slot_paste_reads_that_slot(v: RamView, last: u64, n: usize, sp: SpillPolicy, now: u64)
    requires
        view_wf(v),
        1 <= n <= 9,
    ensures
        ({
            let (v2, last2, fx) = spec_handle(v, last, HotkeyAction::StaticPaste(n), None, 0, sp, now);
            &&& v2 == v
            &&& last2 == last
            &&& (v.slots[n - 1] matches Some(e) ==> fx.sync == Some(e.data) && fx.paste)
            &&& (v.slots[n - 1] is None ==> fx == no_effects())
        }),
{
}

/// Deleting in static mode empties the slot under the Tab cursor and no
/// other, and the cursor stays; an empty slot under the cursor leaves
/// everything as it was.
pub proof fn lemma_slot_delete_clears_cursor_slot(v: RamView, last: u64, sp: SpillPolicy, now: u64)
    requires
        view_wf(v),
    ensures
        ({
            let (v2, last2, fx) = spec_handle(v, last, HotkeyAction::StaticDeleteCurrent, None, 0, sp, now);
            let c = v.static_cursor;
            &&& v2.slots.len() == 9
            &&& v2.slots[c] is None
            &&& forall|j: int| 0 <= j < 9 && j != c ==> #[trigger] v2.slots[j] == v.slots[j]
            &&& v2.static_cursor == c
            &&& v2.ring == v.ring
            &&& last2 == last
            &&& (v.slots[c] is None ==> v2 == v && fx == no_effects())
            &&& (v.slots[c] is Some ==> (fx.notification matches Some(m) && m.subtitle == "Slot "@ + dec(
                (c + 1) as usize,
            ) + " cleared"@))
        }),
{
}

/// Pasting in dynamic mode puts the entry under the ring cursor on the
/// clipboard and pastes it, announcing its position; the store is left as
/// it was.
pub proof fn lemma_ring_paste_reads_cursor_entry(v: RamView, last: u64, sp: SpillPolicy, now: u64)
    requires
        view_wf(v),
        v.ring.len() > 0,
    ensures
        ({
            let (v2, last2, fx) = spec_handle(v, last, HotkeyAction::DynamicPaste, None, 0, sp, now);
            &&& v2 == v
            &&& last2 == last
            &&& fx.sync == Some(v.ring[v.dynamic_cursor].data)
            &&& fx.paste
            &&& fx.notification matches Some(m) && m.subtitle == "Paste ready  "@ + fraction(
                (v.dynamic_cursor + 1) as usize,
                v.ring.len() as usize,
            )
        }),
{
}

/// An idle reset returns the ring cursor to the newest entry and puts that
/// entry on the clipboard; when the cursor is already there it does
/// nothing.
pub proof fn lemma_cursor_reset_returns_to_newest(v: RamView, last: u64, sp: SpillPolicy, now: u64)
    requires
        view_wf(v),
    ensures
        ({
            let (v2, last2, fx) = spec_handle(v, last, HotkeyAction::CursorReset, None, 0, sp, now);
            &&& v2.dynamic_cursor == 0
            &&& v2.ring == v.ring
            &&& v2.slots == v.slots
            &&& last2 == last
            &&& (v.dynamic_cursor != 0 ==> fx.sync == Some(v.ring[0].data) && !fx.paste)
            &&& (v.dynamic_cursor == 0 ==> v2 == v && fx == no_effects())
        }),
{
}

} // verus!
