//! The in-memory store: nine addressed static slots with a Tab cursor, and a
//! recency-ordered dynamic ring (newest first) with its own cursor.

use vstd::prelude::*;
use vstd::string::*;
use crate::decimal::{push_decimal, spec_decimal};
use crate::types::{ClipEntry, ClipEntryView, EntryId, spec_content_eq, spec_data_label};

verus! {

/// Number of static slots.
pub const STATIC_SLOTS: usize = 9;

/// Idle seconds after which the dynamic cursor returns to the newest entry.
pub const CURSOR_TIMEOUT_SECS: u64 = 10;

/// Seconds between periodic flushes of a dirty store to disk.
pub const FLUSH_INTERVAL_SECS: u64 = 60;

/// Hands out entry ids: 1, 2, 3, …
pub struct IdSource {
    last: EntryId,
}

impl IdSource {
    /// No id handed out yet.
    pub fn new() -> (r: Self)
        ensures
            r.last_id() == 0,
    {
        IdSource { last: 0 }
    }

    /// The last id handed out (0 before the first).
    pub closed spec fn last_id(&self) -> EntryId {
        self.last
    }

    /// The last id handed out (0 before the first).
    pub fn last(&self) -> (r: EntryId)
        ensures
            r == self.last_id(),
    {
        self.last
    }

    /// The next id: one more than the last.
    pub fn next_id(&mut self) -> (r: EntryId)
        requires
            old(self).last_id() < u64::MAX,
        ensures
            r == old(self).last_id() + 1,
            final(self).last_id() == r,
    {
        self.last = self.last + 1;
        self.last
    }
}

pub open spec fn opt_entry_view(o: Option<ClipEntry>) -> Option<ClipEntryView> {
    match o {
        Some(e) => Some(e@),
        None => None,
    }
}

pub open spec fn opt_ref_view(o: Option<&ClipEntry>) -> Option<ClipEntryView> {
    match o {
        Some(e) => Some(e@),
        None => None,
    }
}

/// The abstract state of a [`RamStore`].
pub struct RamView {
    /// Slot `n` (1-9) is `slots[n - 1]`.
    pub slots: Seq<Option<ClipEntryView>>,
    /// 0-based index of the static Tab cursor.
    pub static_cursor: int,
    /// Newest first.
    pub ring: Seq<ClipEntryView>,
    /// Index into `ring` of the dynamic cursor.
    pub dynamic_cursor: int,
    /// When the dynamic cursor last moved (seconds, monotonic clock).
    pub last_nav: u64,
    /// Changed since the last flush.
    pub dirty: bool,
    /// Maximum ring length kept by pushes.
    pub capacity: int,
}

/// The label an evicted entry is reported under: `id=<id> (<type>)`.
pub open spec fn evicted_label(e: ClipEntryView) -> Seq<char> {
    "id="@ + spec_decimal(e.id as nat) + " ("@ + spec_data_label(e.data) + ")"@
}

/// The ring and result after pushing `e` to the front. A duplicate of the
/// newest entry is not pushed again; otherwise a ring at capacity drops its
/// oldest entry first.
pub open spec fn spec_push(v: RamView, e: ClipEntryView) -> (RamView, Option<Seq<char>>) {
    if v.ring.len() > 0 && spec_content_eq(v.ring[0].data, e.data) {
        (RamView { dynamic_cursor: 0, ..v }, None)
    } else if v.ring.len() >= v.capacity && v.ring.len() > 0 {
        (
            RamView { ring: seq![e] + v.ring.drop_last(), dynamic_cursor: 0, dirty: true, ..v },
            Some(evicted_label(v.ring.last())),
        )
    } else {
        (RamView { ring: seq![e] + v.ring, dynamic_cursor: 0, dirty: true, ..v }, None)
    }
}

/// The slot index reached after `k` steps from `start`, forwards or
/// backwards, wrapping around the nine slots.
/// (For `start` in 0..9 and `k` in 0..=9.)
pub open spec fn step_index(start: int, k: int, forward: bool) -> int {
    if forward {
        if start + k >= 9 { start + k - 9 } else { start + k }
    } else {
        if start - k < 0 { start - k + 9 } else { start - k }
    }
}

/// The first occupied slot index among steps `k..=9` from `start`.
pub open spec fn first_occupied_from(slots: Seq<Option<ClipEntryView>>, start: int, forward: bool, k: int) -> Option<int>
    decreases 10 - k,
{
    if k > 9 || k < 1 {
        None
    } else if slots[step_index(start, k, forward)] is Some {
        Some(step_index(start, k, forward))
    } else {
        first_occupied_from(slots, start, forward, k + 1)
    }
}

/// Number of occupied slots.
pub open spec fn count_occupied(slots: Seq<Option<ClipEntryView>>) -> nat
    decreases slots.len(),
{
    if slots.len() == 0 {
        0
    } else {
        count_occupied(slots.drop_last()) + if slots.last() is Some { 1nat } else { 0nat }
    }
}

/// The dynamic cursor is on an entry, or at 0 when the ring is empty.
pub open spec fn cursor_ok(v: RamView) -> bool {
    if v.ring.len() == 0 {
        v.dynamic_cursor == 0
    } else {
        0 <= v.dynamic_cursor < v.ring.len()
    }
}

/// Well-formed store state.
pub open spec fn view_wf(v: RamView) -> bool {
    &&& v.slots.len() == 9
    &&& 0 <= v.static_cursor < 9
    &&& cursor_ok(v)
}

/// The ring after removing the entry at the cursor, and the new cursor.
pub open spec fn spec_delete_at_cursor(v: RamView) -> RamView {
    if v.dynamic_cursor < v.ring.len() {
        let ring = v.ring.remove(v.dynamic_cursor);
        RamView {
            ring,
            dynamic_cursor: if v.dynamic_cursor >= ring.len() && v.dynamic_cursor > 0 {
                v.dynamic_cursor - 1
            } else {
                v.dynamic_cursor
            },
            dirty: true,
            ..v
        }
    } else {
        v
    }
}

/// Timestamp-descending insertion position: after every entry at least as
/// new as `t`.
pub open spec fn insert_pos(r: Seq<ClipEntryView>, t: i64) -> int
    decreases r.len(),
{
    if r.len() == 0 {
        0
    } else if r.last().timestamp < t {
        insert_pos(r.drop_last(), t)
    } else {
        r.len() as int
    }
}

/// A stable sort of entries, newest first.
pub open spec fn sort_newest_first(s: Seq<ClipEntryView>) -> Seq<ClipEntryView>
    decreases s.len(),
{
    if s.len() == 0 {
        s
    } else {
        let r = sort_newest_first(s.drop_last());
        r.insert(insert_pos(r, s.last().timestamp), s.last())
    }
}

/// The store.
pub struct RamStore {
    static_slots: Vec<Option<ClipEntry>>,
    static_cursor: usize,
    dynamic_ring: Vec<ClipEntry>,
    dynamic_cursor: usize,
    last_nav_secs: u64,
    dirty: bool,
    capacity: usize,
}

impl View for RamStore {
    type V = RamView;

    closed spec fn view(&self) -> RamView {
        RamView {
            slots: self.static_slots@.map_values(|o: Option<ClipEntry>| opt_entry_view(o)),
            static_cursor: self.static_cursor as int,
            ring: self.dynamic_ring@.map_values(|e: ClipEntry| e@),
            dynamic_cursor: self.dynamic_cursor as int,
            last_nav: self.last_nav_secs,
            dirty: self.dirty,
            capacity: self.capacity as int,
        }
    }
}

fn first_lt_position(r: &Vec<ClipEntry>, t: i64) -> (p: usize)
    ensures
        p == insert_pos(r@.map_values(|e: ClipEntry| e@), t),
        p <= r.len(),
{
    let ghost rv = r@.map_values(|e: ClipEntry| e@);
    let mut p: usize = r.len();
    assert(rv.subrange(0, p as int) =~= rv);
    while p > 0 && r[p - 1].timestamp < t
        invariant
            0 <= p <= r.len(),
            rv == r@.map_values(|e: ClipEntry| e@),
            insert_pos(rv, t) == insert_pos(rv.subrange(0, p as int), t),
        decreases p,
    {
        proof {
            assert(rv.subrange(0, p as int).drop_last() =~= rv.subrange(0, p - 1));
        }
        p = p - 1;
    }
    proof {
        if p > 0 {
            assert(rv.subrange(0, p as int).last() == rv[p - 1]);
        }
    }
    p
}

/// Sorts entries newest first; entries with equal timestamps keep their
/// order.
pub fn sort_newest_first_vec(entries: Vec<ClipEntry>) -> (r: Vec<ClipEntry>)
    ensures
        r@.map_values(|e: ClipEntry| e@) == sort_newest_first(entries@.map_values(|e: ClipEntry| e@)),
{
    let ghost sv = entries@.map_values(|e: ClipEntry| e@);
    let mut input = entries;
    let mut out: Vec<ClipEntry> = Vec::new();
    let ghost mut k: int = 0;
    while input.len() > 0
        invariant
            0 <= k <= sv.len(),
            input@.map_values(|e: ClipEntry| e@) == sv.skip(k),
            out@.map_values(|e: ClipEntry| e@) == sort_newest_first(sv.take(k)),
        decreases input.len(),
    {
        let ghost iv = input@.map_values(|x: ClipEntry| x@);
        let ghost old_input = input@;
        assert(iv.len() == sv.len() - k);
        let e = input.remove(0);
        assert forall|j: int| 0 <= j < input@.len() implies input@[j]@ == sv[k + 1 + j] by {
            assert(input@[j] == old_input[j + 1]);
            assert(iv[j + 1] == sv.skip(k)[j + 1]);
        }
        proof {
            assert(iv[0] == e@);
            assert(sv.skip(k)[0] == e@);
            assert(sv.take(k + 1).drop_last() =~= sv.take(k));
            assert(sv.take(k + 1).last() == e@);
        }
        let p = first_lt_position(&out, e.timestamp);
        let ghost ov = out@.map_values(|x: ClipEntry| x@);
        out.insert(p, e);
        proof {
            assert(out@.map_values(|x: ClipEntry| x@) =~= ov.insert(p as int, e@));
            k = k + 1;
            assert(input@.map_values(|x: ClipEntry| x@) =~= sv.skip(k));
        }
    }
    proof {
        assert(sv.take(k) =~= sv);
    }
    out
}

impl RamStore {
    /// Well-formed: nine slots, both cursors in range.
    pub open spec fn wf(&self) -> bool {
        view_wf(self@)
    }

    /// An empty store whose ring keeps at most `capacity` entries, created at
    /// `now_secs`.
    pub fn new(capacity: usize, now_secs: u64) -> (r: Self)
        ensures
            r.wf(),
            r@.slots == Seq::new(9, |i: int| None::<ClipEntryView>),
            r@.static_cursor == 0,
            r@.ring == Seq::<ClipEntryView>::empty(),
            r@.dynamic_cursor == 0,
            r@.last_nav == now_secs,
            !r@.dirty,
            r@.capacity == capacity,
    {
        let mut slots: Vec<Option<ClipEntry>> = Vec::new();
        let mut i: usize = 0;
        while i < STATIC_SLOTS
            invariant
                0 <= i <= 9,
                slots@.len() == i,
                forall|j: int| 0 <= j < i ==> slots@[j] is None,
            decreases 9 - i,
        {
            slots.push(None);
            i += 1;
        }
        let r = RamStore {
            static_slots: slots,
            static_cursor: 0,
            dynamic_ring: Vec::new(),
            dynamic_cursor: 0,
            last_nav_secs: now_secs,
            dirty: false,
            capacity,
        };
        assert(r@.slots =~= Seq::new(9, |i: int| None::<ClipEntryView>));
        assert(r@.ring =~= Seq::<ClipEntryView>::empty());
        r
    }

    // ── Static slots ──────────────────────────────────────────────────

    /// Stores `entry` in slot `slot` (1-9).
    pub fn set_static(&mut self, slot: usize, entry: ClipEntry)
        requires
            old(self).wf(),
            1 <= slot <= 9,
        ensures
            final(self).wf(),
            final(self)@ == (RamView {
                slots: old(self)@.slots.update(slot - 1, Some(entry@)),
                dirty: true,
                ..old(self)@
            }),
    {
        self.static_slots.set(slot - 1, Some(entry));
        self.dirty = true;
        assert(self@.slots =~= old(self)@.slots.update(slot - 1, Some(entry@)));
    }

    /// The entry in slot `slot` (1-9).
    pub fn get_static(&self, slot: usize) -> (r: Option<&ClipEntry>)
        requires
            self.wf(),
            1 <= slot <= 9,
        ensures
            opt_ref_view(r) == self@.slots[slot - 1],
    {
        self.static_slots[slot - 1].as_ref()
    }

    /// Empties slot `slot` (1-9).
    pub fn clear_static(&mut self, slot: usize)
        requires
            old(self).wf(),
            1 <= slot <= 9,
        ensures
            final(self).wf(),
            final(self)@ == (RamView {
                slots: old(self)@.slots.update(slot - 1, None),
                dirty: true,
                ..old(self)@
            }),
    {
        self.static_slots.set(slot - 1, None);
        self.dirty = true;
        assert(self@.slots =~= old(self)@.slots.update(slot - 1, None));
    }

    // ── Static cursor navigation ──────────────────────────────────────

    fn static_move_cursor(&mut self, forward: bool) -> (r: Option<usize>)
        requires
            old(self).wf(),
        ensures
            final(self).wf(),
            ({
                let found = first_occupied_from(old(self)@.slots, old(self)@.static_cursor, forward, 1);
                &&& r == (match found { Some(i) => Some((i + 1) as usize), None => None::<usize> })
                &&& final(self)@ == (RamView {
                    static_cursor: match found { Some(i) => i, None => old(self)@.static_cursor },
                    ..old(self)@
                })
            }),
    {
        let ghost slots = self@.slots;
        let start = self.static_cursor;
        let mut cur = self.static_cursor;
        let mut k: usize = 0;
        while k < STATIC_SLOTS
            invariant
                self == old(self),
                self.wf(),
                slots == self@.slots,
                start == self.static_cursor,
                0 <= k <= 9,
                cur == step_index(start as int, k as int, forward),
                0 <= cur < 9,
                first_occupied_from(slots, start as int, forward, 1)
                    == first_occupied_from(slots, start as int, forward, k as int + 1),
            decreases 9 - k,
        {
            let next = if forward {
                (cur + 1) % STATIC_SLOTS
            } else {
                if cur == 0 { STATIC_SLOTS - 1 } else { cur - 1 }
            };
            cur = next;
            k += 1;
            if self.static_slots[cur].is_some() {
                self.static_cursor = cur;
                return Some(cur + 1);
            }
        }
        None
    }

    /// Moves the Tab cursor forward to the next occupied slot, wrapping;
    /// returns that slot (1-9), or `None` when every slot is empty.
    pub fn static_cursor_next(&mut self) -> (r: Option<usize>)
        requires
            old(self).wf(),
        ensures
            final(self).wf(),
            ({
                let found = first_occupied_from(old(self)@.slots, old(self)@.static_cursor, true, 1);
                &&& r == (match found { Some(i) => Some((i + 1) as usize), None => None::<usize> })
                &&& final(self)@ == (RamView {
                    static_cursor: match found { Some(i) => i, None => old(self)@.static_cursor },
                    ..old(self)@
                })
            }),
    {
        self.static_move_cursor(true)
    }

    /// Moves the Tab cursor backward to the previous occupied slot, wrapping;
    /// returns that slot (1-9), or `None` when every slot is empty.
    pub fn static_cursor_prev(&mut self) -> (r: Option<usize>)
        requires
            old(self).wf(),
        ensures
            final(self).wf(),
            ({
                let found = first_occupied_from(old(self)@.slots, old(self)@.static_cursor, false, 1);
                &&& r == (match found { Some(i) => Some((i + 1) as usize), None => None::<usize> })
                &&& final(self)@ == (RamView {
                    static_cursor: match found { Some(i) => i, None => old(self)@.static_cursor },
                    ..old(self)@
                })
            }),
    {
        self.static_move_cursor(false)
    }

    /// The cursor position as a slot number (1-9).
    pub fn static_cursor_slot(&self) -> (r: usize)
        requires
            self.wf(),
        ensures
            r == self@.static_cursor + 1,
    {
        self.static_cursor + 1
    }

    /// The entry at the cursor.
    pub fn static_cursor_entry(&self) -> (r: Option<&ClipEntry>)
        requires
            self.wf(),
        ensures
            opt_ref_view(r) == self@.slots[self@.static_cursor],
    {
        self.static_slots[self.static_cursor].as_ref()
    }

    /// Empties the slot at the cursor.
    pub fn static_delete_at_cursor(&mut self)
        requires
            old(self).wf(),
        ensures
            final(self).wf(),
            final(self)@ == (RamView {
                slots: old(self)@.slots.update(old(self)@.static_cursor, None),
                dirty: true,
                ..old(self)@
            }),
    {
        let c = self.static_cursor;
        self.static_slots.set(c, None);
        self.dirty = true;
        assert(self@.slots =~= old(self)@.slots.update(old(self)@.static_cursor, None));
    }

    /// How many static slots are occupied.
    pub fn static_occupied_count(&self) -> (r: usize)
        requires
            self.wf(),
        ensures
            r == count_occupied(self@.slots),
    {
        let ghost slots = self@.slots;
        let mut n: usize = 0;
        let mut i: usize = 0;
        while i < self.static_slots.len()
            invariant
                self.wf(),
                slots == self@.slots,
                0 <= i <= 9,
                n == count_occupied(slots.subrange(0, i as int)),
                n <= i,
            decreases 9 - i,
        {
            assert(slots.subrange(0, i as int + 1).drop_last() =~= slots.subrange(0, i as int));
            if self.static_slots[i].is_some() {
                n = n + 1;
            }
            i += 1;
        }
        assert(slots.subrange(0, 9) =~= slots);
        n
    }

    // ── Dynamic ring ──────────────────────────────────────────────────

    /// Pushes `entry` to the front of the ring and moves the cursor to it.
    /// A ring at capacity first drops its oldest entry, whose label is
    /// returned. An entry with the same content as the newest one is not
    /// pushed again.
    pub fn push_dynamic(&mut self, entry: ClipEntry) -> (r: Option<String>)
        requires
            old(self).wf(),
        ensures
            final(self).wf(),
            (final(self)@, opt_string_view(r)) == spec_push(old(self)@, entry@),
    {
        if self.dynamic_ring.len() > 0 && self.dynamic_ring[0].data.content_eq(&entry.data) {
            self.dynamic_cursor = 0;
            return None;
        }
        let ghost before = self@.ring;
        let mut evicted: Option<String> = None;
        if self.dynamic_ring.len() >= self.capacity && self.dynamic_ring.len() > 0 {
            if let Some(old) = self.dynamic_ring.pop() {
                let mut s = String::new();
                s.append("id=");
                push_decimal(&mut s, old.id);
                s.append(" (");
                s.append(old.data.type_label());
                s.append(")");
                evicted = Some(s);
                proof {
                    assert(old@ == before.last());
                }
            }
        }
        let ghost mid = self.dynamic_ring@;
        self.dynamic_ring.insert(0, entry);
        self.dynamic_cursor = 0;
        self.dirty = true;
        proof {
            if before.len() >= self.capacity && before.len() > 0 {
                assert(self@.ring =~= seq![entry@] + before.drop_last());
            } else {
                assert(self@.ring =~= seq![entry@] + before);
            }
        }
        evicted
    }

    /// The entry at the dynamic cursor.
    pub fn current_dynamic(&self) -> (r: Option<&ClipEntry>)
        requires
            self.wf(),
        ensures
            self@.ring.len() == 0 ==> r is None,
            self@.ring.len() > 0 ==> (r matches Some(e) && e@ == self@.ring[self@.dynamic_cursor]),
    {
        if self.dynamic_cursor < self.dynamic_ring.len() {
            Some(&self.dynamic_ring[self.dynamic_cursor])
        } else {
            None
        }
    }

    /// Moves the cursor one entry older, wrapping to the newest; records
    /// `now_secs` as the last navigation. Does nothing on an empty ring.
    pub fn cursor_next(&mut self, now_secs: u64)
        requires
            old(self).wf(),
        ensures
            final(self).wf(),
            old(self)@.ring.len() == 0 ==> final(self)@ == old(self)@,
            old(self)@.ring.len() > 0 ==> final(self)@ == (RamView {
                dynamic_cursor: (old(self)@.dynamic_cursor + 1) % old(self)@.ring.len() as int,
                last_nav: now_secs,
                ..old(self)@
            }),
    {
        if self.dynamic_ring.len() == 0 {
            return;
        }
        self.dynamic_cursor = (self.dynamic_cursor + 1) % self.dynamic_ring.len();
        self.last_nav_secs = now_secs;
    }

    /// Moves the cursor one entry newer, wrapping to the oldest; records
    /// `now_secs` as the last navigation. Does nothing on an empty ring.
    pub fn cursor_prev(&mut self, now_secs: u64)
        requires
            old(self).wf(),
        ensures
            final(self).wf(),
            old(self)@.ring.len() == 0 ==> final(self)@ == old(self)@,
            old(self)@.ring.len() > 0 ==> final(self)@ == (RamView {
                dynamic_cursor: if old(self)@.dynamic_cursor == 0 {
                    old(self)@.ring.len() - 1
                } else {
                    old(self)@.dynamic_cursor - 1
                },
                last_nav: now_secs,
                ..old(self)@
            }),
    {
        if self.dynamic_ring.len() == 0 {
            return;
        }
        let len = self.dynamic_ring.len();
        self.dynamic_cursor = if self.dynamic_cursor == 0 { len - 1 } else { self.dynamic_cursor - 1 };
        self.last_nav_secs = now_secs;
    }

    /// Removes the entry at the cursor; the cursor stays put, or steps back
    /// when it was on the last entry.
    pub fn delete_at_cursor(&mut self)
        requires
            old(self).wf(),
        ensures
            final(self).wf(),
            final(self)@ == spec_delete_at_cursor(old(self)@),
    {
        if self.dynamic_cursor < self.dynamic_ring.len() {
            let ghost before = self@.ring;
            let _removed = self.dynamic_ring.remove(self.dynamic_cursor);
            if self.dynamic_cursor >= self.dynamic_ring.len() && self.dynamic_cursor > 0 {
                self.dynamic_cursor = self.dynamic_cursor - 1;
            }
            self.dirty = true;
            assert(self@.ring =~= before.remove(old(self)@.dynamic_cursor));
        }
    }

    /// Moves the cursor back to the newest entry.
    pub fn reset_cursor(&mut self)
        requires
            old(self).wf(),
        ensures
            final(self).wf(),
            final(self)@ == (RamView { dynamic_cursor: 0, ..old(self)@ }),
    {
        self.dynamic_cursor = 0;
    }

    /// The cursor has been idle for at least [`CURSOR_TIMEOUT_SECS`] at
    /// `now_secs`.
    pub fn cursor_timed_out(&self, now_secs: u64) -> (r: bool)
        ensures
            r == (now_secs >= self@.last_nav + CURSOR_TIMEOUT_SECS),
            r == (now_secs >= self@.last_nav + 10),
    {
        now_secs >= self.last_nav_secs && now_secs - self.last_nav_secs >= CURSOR_TIMEOUT_SECS
    }

    /// Number of entries in the ring.
    pub fn ring_len(&self) -> (r: usize)
        ensures
            r == self@.ring.len(),
    {
        self.dynamic_ring.len()
    }

    /// Index of the dynamic cursor.
    pub fn dynamic_cursor(&self) -> (r: usize)
        ensures
            r == self@.dynamic_cursor,
    {
        self.dynamic_cursor
    }

    /// The ring's capacity.
    pub fn capacity(&self) -> (r: usize)
        ensures
            r == self@.capacity,
    {
        self.capacity
    }

    /// The ring's entries, newest first.
    pub fn dynamic_ring(&self) -> (r: &Vec<ClipEntry>)
        ensures
            r@.map_values(|e: ClipEntry| e@) == self@.ring,
    {
        &self.dynamic_ring
    }

    /// The nine slots, slot 1 first.
    pub fn static_slots(&self) -> (r: &Vec<Option<ClipEntry>>)
        ensures
            r@.map_values(|o: Option<ClipEntry>| opt_entry_view(o)) == self@.slots,
    {
        &self.static_slots
    }

    /// Marks the store as flushed.
    pub fn clear_dirty(&mut self)
        requires
            old(self).wf(),
        ensures
            final(self).wf(),
            final(self)@ == (RamView { dirty: false, ..old(self)@ }),
    {
        self.dirty = false;
    }

    /// Marks the store as needing a flush.
    pub fn mark_dirty(&mut self)
        requires
            old(self).wf(),
        ensures
            final(self).wf(),
            final(self)@ == (RamView { dirty: true, ..old(self)@ }),
    {
        self.dirty = true;
    }

    /// Whether the store changed since the last flush.
    pub fn is_dirty(&self) -> (r: bool)
        ensures
            r == self@.dirty,
    {
        self.dirty
    }

    /// Puts an entry read back from disk into slot index `index` (0-8),
    /// without marking the store dirty.
    pub fn load_static_slot(&mut self, index: usize, entry: ClipEntry)
        requires
            old(self).wf(),
            index < 9,
        ensures
            final(self).wf(),
            final(self)@ == (RamView {
                slots: old(self)@.slots.update(index as int, Some(entry@)),
                ..old(self)@
            }),
    {
        self.static_slots.set(index, Some(entry));
        assert(self@.slots =~= old(self)@.slots.update(index as int, Some(entry@)));
    }

    /// Appends ring entries read back from disk, newest first. A validated
    /// file is cut to the ring's capacity; a legacy one is kept whole.
    /// Returns how many entries were appended.
    pub fn load_ring(&mut self, entries: Vec<ClipEntry>, validated: bool) -> (r: usize)
        requires
            old(self).wf(),
        ensures
            final(self).wf(),
            ({
                let sorted = sort_newest_first(entries@.map_values(|e: ClipEntry| e@));
                let kept = if validated && sorted.len() > old(self)@.capacity {
                    sorted.take(old(self)@.capacity)
                } else {
                    sorted
                };
                &&& r == kept.len()
                &&& final(self)@ == (RamView { ring: old(self)@.ring + kept, ..old(self)@ })
            }),
    {
        let mut sorted = sort_newest_first_vec(entries);
        let ghost sv = sorted@.map_values(|e: ClipEntry| e@);
        if validated {
            sorted.truncate(self.capacity);
            proof {
                if sv.len() > self.capacity {
                    assert(sorted@.map_values(|e: ClipEntry| e@) =~= sv.take(self.capacity as int));
                } else {
                    assert(sorted@.map_values(|e: ClipEntry| e@) =~= sv);
                }
            }
        }
        let n = sorted.len();
        let ghost before = self@.ring;
        let ghost kept = sorted@.map_values(|e: ClipEntry| e@);
        self.dynamic_ring.append(&mut sorted);
        assert(self@.ring =~= before + kept);
        n
    }
}

pub open spec fn opt_string_view(o: Option<String>) -> Option<Seq<char>> {
    match o {
        Some(s) => Some(s@),
        None => None,
    }
}

} // verus!

verus! {

/// Pushing a new entry makes it the newest and puts the cursor on it.
pub proof fn lemma_push_puts_entry_first(v: RamView, e: ClipEntryView)
    requires
        view_wf(v),
        !(v.ring.len() > 0 && spec_content_eq(v.ring[0].data, e.data)),
    ensures
        spec_push(v, e).0.ring[0] == e,
        spec_push(v, e).0.dynamic_cursor == 0,
        spec_push(v, e).0.dirty,
        view_wf(spec_push(v, e).0),
{
}

/// Pushing the same content as the newest entry leaves the ring as it was
/// and returns the cursor to the newest entry.
pub proof fn lemma_push_duplicate_is_not_stored(v: RamView, e: ClipEntryView)
    requires
        view_wf(v),
        v.ring.len() > 0,
        spec_content_eq(v.ring[0].data, e.data),
    ensures
        spec_push(v, e).0.ring == v.ring,
        spec_push(v, e).0.dynamic_cursor == 0,
        spec_push(v, e).1 is None,
{
}

/// A ring never grows past its capacity by pushing: a full ring drops
/// exactly its oldest entry, keeping the others in order behind the new one.
pub proof fn lemma_push_respects_capacity(v: RamView, e: ClipEntryView)
    requires
        view_wf(v),
        v.capacity >= 1,
        v.ring.len() <= v.capacity,
    ensures
        spec_push(v, e).0.ring.len() <= v.capacity,
        v.ring.len() == v.capacity && !spec_content_eq(v.ring[0].data, e.data) ==> {
            &&& spec_push(v, e).0.ring == seq![e] + v.ring.drop_last()
            &&& spec_push(v, e).1 == Some(evicted_label(v.ring.last()))
        },
        v.ring.len() < v.capacity && !(v.ring.len() > 0 && spec_content_eq(v.ring[0].data, e.data)) ==> {
            &&& spec_push(v, e).0.ring == seq![e] + v.ring
            &&& spec_push(v, e).1 is None
        },
{
}

proof fn lemma_first_occupied_sound(slots: Seq<Option<ClipEntryView>>, start: int, forward: bool, k: int)
    requires
        slots.len() == 9,
        0 <= start < 9,
        1 <= k,
    ensures
        first_occupied_from(slots, start, forward, k) matches Some(i) ==> 0 <= i < 9 && slots[i] is Some,
        first_occupied_from(slots, start, forward, k) is None ==> forall|j: int|
            k <= j <= 9 ==> slots[#[trigger] step_index(start, j, forward)] is None,
    decreases 10 - k,
{
    if k <= 9 {
        lemma_first_occupied_sound(slots, start, forward, k + 1);
    }
}

/// Tab navigation through the static slots lands only on an occupied slot,
/// and finds nothing only when every slot is empty.
pub proof fn lemma_static_nav_lands_on_occupied(v: RamView, forward: bool)
    requires
        view_wf(v),
    ensures
        first_occupied_from(v.slots, v.static_cursor, forward, 1) matches Some(i) ==> 0 <= i < 9
            && v.slots[i] is Some,
        first_occupied_from(v.slots, v.static_cursor, forward, 1) is None <==> forall|i: int|
            0 <= i < 9 ==> v.slots[i] is None,
{
    lemma_first_occupied_sound(v.slots, v.static_cursor, forward, 1);
    if first_occupied_from(v.slots, v.static_cursor, forward, 1) is None {
        assert forall|i: int| 0 <= i < 9 implies v.slots[i] is None by {
            let s = v.static_cursor;
            let j = if forward {
                if i > s { i - s } else { i - s + 9 }
            } else {
                if s > i { s - i } else { s - i + 9 }
            };
            assert(1 <= j <= 9);
            assert(step_index(s, j, forward) == i);
        }
    }
}

/// Moving the dynamic cursor one step older and then one step newer returns
/// it to where it was.
pub proof fn lemma_cursor_next_then_prev(v: RamView, now1: u64, now2: u64)
    requires
        view_wf(v),
        v.ring.len() > 0,
    ensures
        ({
            let len = v.ring.len() as int;
            let next = (v.dynamic_cursor + 1) % len;
            let back = if next == 0 { len - 1 } else { next - 1 };
            back == v.dynamic_cursor
        }),
{
    let len = v.ring.len() as int;
    let c = v.dynamic_cursor;
    if c + 1 < len {
        vstd::arithmetic::div_mod::lemma_small_mod((c + 1) as nat, len as nat);
    } else {
        vstd::arithmetic::div_mod::lemma_mod_self_0(len);
    }
}

/// Deleting at the cursor removes exactly that entry and leaves the cursor
/// on an entry (or at 0 on an empty ring).
pub proof fn lemma_delete_at_cursor(v: RamView)
    requires
        view_wf(v),
        v.ring.len() > 0,
    ensures
        spec_delete_at_cursor(v).ring == v.ring.remove(v.dynamic_cursor),
        spec_delete_at_cursor(v).ring.len() == v.ring.len() - 1,
        view_wf(spec_delete_at_cursor(v)),
{
}

/// At most nine static slots are occupied.
pub proof fn lemma_count_occupied_bounded(slots: Seq<Option<ClipEntryView>>)
    ensures
        count_occupied(slots) <= slots.len(),
    decreases slots.len(),
{
    if slots.len() > 0 {
        lemma_count_occupied_bounded(slots.drop_last());
    }
}

/// Entries loaded from disk come out newest first.
pub proof fn lemma_sort_newest_first_sorted(s: Seq<ClipEntryView>)
    ensures
        sort_newest_first(s).len() == s.len(),
        forall|i: int, j: int|
            0 <= i < j < s.len() ==> sort_newest_first(s)[i].timestamp >= sort_newest_first(s)[j].timestamp,
        sort_newest_first(s).to_multiset() == s.to_multiset(),
    decreases s.len(),
{
    if s.len() > 0 {
        let r0 = sort_newest_first(s.drop_last());
        lemma_sort_newest_first_sorted(s.drop_last());
        let x = s.last();
        let p = insert_pos(r0, x.timestamp);
        lemma_insert_pos(r0, x.timestamp);
        let r = r0.insert(p, x);
        assert forall|i: int, j: int| 0 <= i < j < r.len() implies r[i].timestamp >= r[j].timestamp by {
            if j < p {
            } else if j == p {
                assert(r[i] == r0[i]);
            } else if i == p {
                assert(r[j] == r0[j - 1]);
            } else if i < p {
                assert(r[i] == r0[i]);
                assert(r[j] == r0[j - 1]);
            } else {
                assert(r[i] == r0[i - 1]);
                assert(r[j] == r0[j - 1]);
            }
        }
        broadcast use vstd::seq_lib::group_to_multiset_ensures;
        assert(s =~= s.drop_last().push(x));
    }
}

proof fn lemma_insert_pos(r: Seq<ClipEntryView>, t: i64)
    requires
        forall|i: int, j: int| 0 <= i < j < r.len() ==> r[i].timestamp >= r[j].timestamp,
    ensures
        0 <= insert_pos(r, t) <= r.len(),
        forall|i: int| 0 <= i < insert_pos(r, t) ==> r[i].timestamp >= t,
        forall|i: int| insert_pos(r, t) <= i < r.len() ==> r[i].timestamp < t,
    decreases r.len(),
{
    if r.len() > 0 {
        let last = r.len() - 1;
        if r.last().timestamp < t {
            let d = r.drop_last();
            assert forall|i: int, j: int| 0 <= i < j < d.len() implies d[i].timestamp >= d[j].timestamp by {
                assert(d[i] == r[i] && d[j] == r[j]);
            }
            lemma_insert_pos(d, t);
            assert forall|i: int| insert_pos(r, t) <= i < r.len() implies r[i].timestamp < t by {
                if i < last {
                    assert(d[i] == r[i]);
                }
            }
            assert forall|i: int| 0 <= i < insert_pos(r, t) implies r[i].timestamp >= t by {
                assert(d[i] == r[i]);
            }
        } else {
            assert forall|i: int| 0 <= i < insert_pos(r, t) implies r[i].timestamp >= t by {
                if i < last {
                    assert(r[i].timestamp >= r[last].timestamp);
                }
            }
        }
    }
}

} // verus!

verus! {

/// Deleting at the ring cursor in a ring of `n > 1` entries removes the
/// entry at the cursor `k`; the cursor stays at `k` (now on the entry that
/// was one older) unless `k` was the oldest, when it moves to `n - 2`.
pub proof fn lemma_delete_cursor_position(v: RamView)
    requires
        view_wf(v),
        v.ring.len() > 1,
    ensures
        spec_delete_at_cursor(v).ring == v.ring.remove(v.dynamic_cursor),
        spec_delete_at_cursor(v).dynamic_cursor == (if v.dynamic_cursor < v.ring.len() - 1 {
            v.dynamic_cursor
        } else {
            v.ring.len() - 2
        }),
        v.dynamic_cursor < v.ring.len() - 1 ==> spec_delete_at_cursor(v).ring[v.dynamic_cursor]
            == v.ring[v.dynamic_cursor + 1],
{
}

} // verus!
