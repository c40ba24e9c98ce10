//! Spilling large payloads to blob files, loading them back at paste time,
//! and finding the blob files no live entry references.
//!
//! An entry whose byte payload (rich text, image or binary) is at least the
//! configured threshold is replaced in memory by a small
//! [`ClipData::Spilled`] descriptor once its bytes are safely in a blob file
//! named after the entry's id. Blob lifetime is managed by reference: any
//! blob whose id no live entry names is an orphan to delete.

use vstd::prelude::*;
use vstd::string::*;
use crate::disk::{crc32, crc32_of};
use crate::names::{blob_id_of, spec_blob_id_of};
use crate::ram::{RamStore, RamView, opt_entry_view};
use crate::types::{ClipData, ClipDataView, ClipEntry, ClipEntryView, EntryId, SpilledKind, copy_bytes};
use crate::keyset::set_contains;

verus! {

/// The bytes a payload would spill, if it is a byte payload (rich text,
/// image or binary).
pub open spec fn spill_bytes_of(d: ClipDataView) -> Option<Seq<u8>> {
    match d {
        ClipDataView::RichText(b) => Some(b),
        ClipDataView::Binary(b) => Some(b),
        ClipDataView::Image { bytes, .. } => Some(bytes),
        _ => None,
    }
}

/// The kind a byte payload spills as.
pub open spec fn spill_kind_of(d: ClipDataView) -> SpilledKind {
    match d {
        ClipDataView::RichText(_) => SpilledKind::RichText,
        ClipDataView::Image { width, height, .. } => SpilledKind::Image { width, height },
        _ => SpilledKind::Binary,
    }
}

/// Whether a payload is spilled at `threshold`: spilling is on (threshold
/// above 0) and it is a byte payload of at least `threshold` bytes. Plain
/// text, file paths and descriptors never spill.
pub open spec fn spec_spill_target(d: ClipDataView, threshold: usize) -> bool {
    threshold != 0 && match spill_bytes_of(d) {
        Some(b) => b.len() >= threshold,
        None => false,
    }
}

/// The descriptor that replaces a spilled payload of entry `id`.
pub open spec fn spilled_descriptor(id: EntryId, d: ClipDataView) -> ClipDataView {
    let b = spill_bytes_of(d).unwrap();
    ClipDataView::Spilled { blob_id: id, kind: spill_kind_of(d), size: b.len() as usize, hash: crc32_of(b) }
}

/// The payload a blob's bytes restore, given the kind it was spilled from.
pub open spec fn spec_restore(kind: SpilledKind, bytes: Seq<u8>) -> ClipDataView {
    match kind {
        SpilledKind::RichText => ClipDataView::RichText(bytes),
        SpilledKind::Binary => ClipDataView::Binary(bytes),
        SpilledKind::Image { width, height } => ClipDataView::Image { bytes, width, height },
    }
}

/// The bytes a payload would spill, if it is a byte payload.
pub fn spill_bytes(data: &ClipData) -> (r: Option<&Vec<u8>>)
    ensures
        match r {
            Some(b) => spill_bytes_of(data@) == Some(b@),
            None => spill_bytes_of(data@) is None,
        },
{
    match data {
        ClipData::RichText(b) => Some(b),
        ClipData::Binary(b) => Some(b),
        ClipData::Image { bytes, .. } => Some(bytes),
        _ => None,
    }
}

/// Whether `entry`'s payload is to be spilled at `threshold`. When it is,
/// the caller writes [`spill_bytes`] to the entry's blob file and passes the
/// outcome to [`maybe_spill`].
pub fn spill_target(entry: &ClipEntry, threshold: usize) -> (r: bool)
    ensures
        r == spec_spill_target(entry.data@, threshold),
{
    is_spill_target(&entry.data, threshold)
}

/// Whether a payload is to be spilled at `threshold`.
pub fn is_spill_target(data: &ClipData, threshold: usize) -> (r: bool)
    ensures
        r == spec_spill_target(data@, threshold),
{
    if threshold == 0 {
        return false;
    }
    match spill_bytes(data) {
        Some(b) => b.len() >= threshold,
        None => false,
    }
}

/// Replaces a spill target's payload by its descriptor once its bytes are
/// in the blob file (`blob_written`). Any other entry, and a target whose
/// blob write failed, is returned unchanged: a transient memory cost beats
/// losing the clipboard.
pub fn maybe_spill(entry: ClipEntry, threshold: usize, blob_written: bool) -> (r: ClipEntry)
    ensures
        r@ == if spec_spill_target(entry.data@, threshold) && blob_written {
            ClipEntryView { data: spilled_descriptor(entry.id, entry.data@), ..entry@ }
        } else {
            entry@
        },
{
    if !blob_written || !spill_target(&entry, threshold) {
        return entry;
    }
    let ClipEntry { id, timestamp, data, encrypted, label } = entry;
    let ghost dv = data@;
    let (size, hash, kind) = match &data {
        ClipData::RichText(b) => (b.len(), crc32(b.as_slice()), SpilledKind::RichText),
        ClipData::Binary(b) => (b.len(), crc32(b.as_slice()), SpilledKind::Binary),
        ClipData::Image { bytes, width, height } => (
            bytes.len(),
            crc32(bytes.as_slice()),
            SpilledKind::Image { width: *width, height: *height },
        ),
        _ => {
            return ClipEntry { id, timestamp, data, encrypted, label };
        },
    };
    ClipEntry { id, timestamp, data: ClipData::Spilled { blob_id: id, kind, size, hash }, encrypted, label }
}

/// A payload with its bytes in memory: the original when it was resident,
/// or one rebuilt from its blob.
#[derive(Debug)]
pub enum Hydrated<'a> {
    Borrowed(&'a ClipData),
    Owned(ClipData),
}

impl<'a> Hydrated<'a> {
    /// The payload.
    pub fn data(&self) -> (r: &ClipData)
        ensures
            r@ == hydrated_view(*self),
    {
        match self {
            Hydrated::Borrowed(d) => d,
            Hydrated::Owned(d) => d,
        }
    }
}

pub open spec fn hydrated_view(h: Hydrated) -> ClipDataView {
    match h {
        Hydrated::Borrowed(d) => d@,
        Hydrated::Owned(d) => d@,
    }
}

/// Why a spilled payload could not be loaded back.
#[derive(Debug, Clone, Copy, PartialEq, Eq, Structural)]
pub enum HydrateError {
    /// The blob file of this id could not be read.
    BlobUnreadable(EntryId),
}

/// Returns `data` with its bytes in memory. A resident payload is borrowed
/// unchanged; a spilled descriptor is rebuilt as its original variant from
/// `blob`, the bytes read from its blob file (`None` when they could not be
/// read).
pub fn hydrate<'a>(data: &'a ClipData, blob: Option<Vec<u8>>) -> (r: Result<Hydrated<'a>, HydrateError>)
    ensures
        match data@ {
            ClipDataView::Spilled { blob_id, kind, .. } => match blob {
                None => r == Err::<Hydrated<'a>, HydrateError>(HydrateError::BlobUnreadable(blob_id)),
                Some(b) => r matches Ok(Hydrated::Owned(d)) && d@ == spec_restore(kind, b@),
            },
            _ => r matches Ok(Hydrated::Borrowed(d)) && d == data,
        },
{
    match data {
        ClipData::Spilled { blob_id, kind, .. } => match blob {
            None => Err(HydrateError::BlobUnreadable(*blob_id)),
            Some(bytes) => {
                let restored = match kind {
                    SpilledKind::RichText => ClipData::RichText(bytes),
                    SpilledKind::Binary => ClipData::Binary(bytes),
                    SpilledKind::Image { width, height } => ClipData::Image {
                        bytes,
                        width: *width,
                        height: *height,
                    },
                };
                Ok(Hydrated::Owned(restored))
            },
        },
        other => Ok(Hydrated::Borrowed(other)),
    }
}

/// Spilling a payload and loading it back from the bytes that were written
/// gives the original payload: same variant, same bytes, same dimensions.
pub proof fn lemma_spill_then_hydrate(id: EntryId, d: ClipDataView)
    requires
        spill_bytes_of(d) is Some,
    ensures
        spilled_descriptor(id, d) matches ClipDataView::Spilled { blob_id, kind, .. }
            && blob_id == id && spec_restore(kind, spill_bytes_of(d).unwrap()) == d,
{
}

/// The blob id a payload references, if it is a descriptor.
pub open spec fn blob_ref(d: ClipDataView) -> Option<EntryId> {
    match d {
        ClipDataView::Spilled { blob_id, .. } => Some(blob_id),
        _ => None,
    }
}

/// A slot holds an entry referencing blob `id`.
pub open spec fn slot_references(o: Option<ClipEntryView>, id: EntryId) -> bool {
    o matches Some(e) && blob_ref(e.data) == Some(id)
}

/// Ids of every blob a live entry references, in the static slots or the
/// ring.
pub open spec fn spec_live_blob_ids(v: RamView) -> Set<EntryId> {
    Set::new(|id: EntryId|
        (exists|i: int| 0 <= i < v.slots.len() && slot_references(v.slots[i], id))
        || (exists|j: int| 0 <= j < v.ring.len() && blob_ref(v.ring[j].data) == Some(id)))
}

fn blob_ref_of(d: &ClipData) -> (r: Option<EntryId>)
    ensures
        r == blob_ref(d@),
{
    match d {
        ClipData::Spilled { blob_id, .. } => Some(*blob_id),
        _ => None,
    }
}

fn id_vec_contains(v: &Vec<EntryId>, id: EntryId) -> (r: bool)
    ensures
        r == v@.contains(id),
{
    let mut i: usize = 0;
    while i < v.len()
        invariant
            0 <= i <= v.len(),
            forall|j: int| 0 <= j < i ==> v@[j] != id,
        decreases v.len() - i,
    {
        if v[i] == id {
            assert(v@[i as int] == id);
            return true;
        }
        i += 1;
    }
    false
}

/// Collects the ids of every blob referenced by a live entry, across the
/// static slots and the ring.
pub fn live_blob_ids(ram: &RamStore) -> (r: Vec<EntryId>)
    requires
        ram.wf(),
    ensures
        r@.to_set() == spec_live_blob_ids(ram@),
{
    let ghost v = ram@;
    let slots = ram.static_slots();
    let ring = ram.dynamic_ring();
    let mut live: Vec<EntryId> = Vec::new();
    let mut i: usize = 0;
    while i < slots.len()
        invariant
            v == ram@,
            slots@.map_values(|o: Option<ClipEntry>| opt_entry_view(o)) == v.slots,
            0 <= i <= slots.len(),
            forall|id: EntryId| live@.contains(id) <==>
                (exists|k: int| 0 <= k < i && slot_references(v.slots[k], id)),
        decreases slots.len() - i,
    {
        let ghost before = live@;
        assert(v.slots[i as int] == opt_entry_view(slots@[i as int]));
        if let Some(e) = &slots[i] {
            if let Some(id) = blob_ref_of(&e.data) {
                live.push(id);
                assert(slot_references(v.slots[i as int], id));
                assert forall|x: EntryId| live@.contains(x) <==>
                    (exists|k: int| 0 <= k < i + 1 && slot_references(v.slots[k], x)) by {
                    if live@.contains(x) && x != id {
                        let m = choose|m: int| 0 <= m < live@.len() && live@[m] == x;
                        assert(before[m] == x);
                        assert(before.contains(x));
                    }
                    if (exists|k: int| 0 <= k < i + 1 && slot_references(v.slots[k], x)) {
                        let k = choose|k: int| 0 <= k < i + 1 && slot_references(v.slots[k], x);
                        if k < i {
                            assert(before.contains(x));
                            let m = choose|m: int| 0 <= m < before.len() && before[m] == x;
                            assert(live@[m] == x);
                        } else {
                            assert(x == id);
                            assert(live@[before.len() as int] == id);
                        }
                    }
                }
            } else {
                assert forall|x: EntryId| live@.contains(x) <==>
                    (exists|k: int| 0 <= k < i + 1 && slot_references(v.slots[k], x)) by {
                    if (exists|k: int| 0 <= k < i + 1 && slot_references(v.slots[k], x)) {
                        let k = choose|k: int| 0 <= k < i + 1 && slot_references(v.slots[k], x);
                        assert(k != i);
                    }
                }
            }
        } else {
            assert forall|x: EntryId| live@.contains(x) <==>
                (exists|k: int| 0 <= k < i + 1 && slot_references(v.slots[k], x)) by {
                if (exists|k: int| 0 <= k < i + 1 && slot_references(v.slots[k], x)) {
                    let k = choose|k: int| 0 <= k < i + 1 && slot_references(v.slots[k], x);
                    assert(k != i);
                }
            }
        }
        i += 1;
    }
    let mut j: usize = 0;
    while j < ring.len()
        invariant
            v == ram@,
            ring@.map_values(|e: ClipEntry| e@) == v.ring,
            slots@.len() == v.slots.len(),
            0 <= j <= ring.len(),
            forall|id: EntryId| live@.contains(id) <==>
                ((exists|k: int| 0 <= k < v.slots.len() && slot_references(v.slots[k], id))
                || (exists|k: int| 0 <= k < j && blob_ref(v.ring[k].data) == Some(id))),
        decreases ring.len() - j,
    {
        let ghost before = live@;
        assert(v.ring[j as int] == ring@[j as int]@);
        if let Some(id) = blob_ref_of(&ring[j].data) {
            live.push(id);
            assert forall|x: EntryId| live@.contains(x) <==>
                ((exists|k: int| 0 <= k < v.slots.len() && slot_references(v.slots[k], x))
                || (exists|k: int| 0 <= k < j + 1 && blob_ref(v.ring[k].data) == Some(x))) by {
                if live@.contains(x) && x != id {
                    let m = choose|m: int| 0 <= m < live@.len() && live@[m] == x;
                    assert(before[m] == x);
                }
                if x == id {
                    assert(live@[before.len() as int] == id);
                }
                if before.contains(x) {
                    let m = choose|m: int| 0 <= m < before.len() && before[m] == x;
                    assert(live@[m] == x);
                }
            }
        } else {
            assert forall|x: EntryId| live@.contains(x) <==>
                ((exists|k: int| 0 <= k < v.slots.len() && slot_references(v.slots[k], x))
                || (exists|k: int| 0 <= k < j + 1 && blob_ref(v.ring[k].data) == Some(x))) by {
                if (exists|k: int| 0 <= k < j + 1 && blob_ref(v.ring[k].data) == Some(x)) {
                    let k = choose|k: int| 0 <= k < j + 1 && blob_ref(v.ring[k].data) == Some(x);
                    assert(k != j);
                }
            }
        }
        j += 1;
    }
    assert(live@.to_set() =~= spec_live_blob_ids(v));
    live
}

/// A blob file name names an orphan: it is a `<id>.blob` file whose id is
/// not live.
pub open spec fn is_orphan_name(name: Seq<char>, live: Set<EntryId>) -> bool {
    match spec_blob_id_of(vstd::utf8::encode_utf8(name)) {
        Some(id) => !live.contains(id),
        None => false,
    }
}

/// The names of `names` that are orphan blobs, in their order.
pub open spec fn select_orphans(names: Seq<Seq<char>>, live: Set<EntryId>) -> Seq<Seq<char>>
    decreases names.len(),
{
    if names.len() == 0 {
        names
    } else {
        let rest = select_orphans(names.drop_last(), live);
        if is_orphan_name(names.last(), live) {
            rest.push(names.last())
        } else {
            rest
        }
    }
}

/// Blob collection deletes exactly the orphans: every name it selects is a
/// finished blob file that no live entry references, and every such file
/// among `names` is selected. A blob a live entry references is never
/// deleted.
pub proof fn lemma_gc_deletes_exactly_orphans(names: Seq<Seq<char>>, live: Set<EntryId>)
    ensures
        forall|n: Seq<char>| #[trigger] select_orphans(names, live).contains(n) ==> names.contains(n)
            && is_orphan_name(n, live),
        forall|i: int| 0 <= i < names.len() && is_orphan_name(names[i], live) ==> #[trigger] select_orphans(
            names,
            live,
        ).contains(names[i]),
    decreases names.len(),
{
    if names.len() > 0 {
        let init = names.drop_last();
        lemma_gc_deletes_exactly_orphans(init, live);
        let rest = select_orphans(init, live);
        let sel = select_orphans(names, live);
        assert forall|n: Seq<char>| #[trigger] sel.contains(n) implies names.contains(n) && is_orphan_name(n, live) by {
            if rest.contains(n) {
                let j = choose|j: int| 0 <= j < init.len() && init[j] == n;
                assert(names[j] == n);
            } else {
                assert(sel == rest.push(names.last()));
                let j = choose|j: int| 0 <= j < sel.len() && sel[j] == n;
                assert(j == rest.len());
                assert(names[names.len() - 1] == n);
            }
        }
        assert forall|i: int| 0 <= i < names.len() && is_orphan_name(names[i], live) implies #[trigger] sel.contains(
            names[i],
        ) by {
            if i < names.len() - 1 {
                assert(init[i] == names[i]);
                assert(rest.contains(init[i]));
                if is_orphan_name(names.last(), live) {
                    let j = choose|j: int| 0 <= j < rest.len() && rest[j] == names[i];
                    assert(sel[j] == names[i]);
                }
            } else {
                assert(sel[sel.len() - 1] == names.last());
            }
        }
    }
}

/// Of the file names in the blob directory, those to delete: every finished
/// blob file (`<id>.blob`) whose id is not in `live`. `.tmp` files and
/// other names are left alone.
pub fn gc(live: &Vec<EntryId>, names: &Vec<String>) -> (r: Vec<String>)
    ensures
        crate::types::strings_view(r@) == select_orphans(crate::types::strings_view(names@), live@.to_set()),
{
    let ghost nv = crate::types::strings_view(names@);
    let mut out: Vec<String> = Vec::new();
    let mut i: usize = 0;
    while i < names.len()
        invariant
            nv == crate::types::strings_view(names@),
            0 <= i <= names.len(),
            crate::types::strings_view(out@) == select_orphans(nv.take(i as int), live@.to_set()),
        decreases names.len() - i,
    {
        let ghost before = crate::types::strings_view(out@);
        assert(nv.take(i as int + 1).drop_last() =~= nv.take(i as int));
        assert(nv.take(i as int + 1).last() == names@[i as int]@);
        let orphan = match blob_id_of(names[i].as_str()) {
            Some(id) => !id_vec_contains(live, id),
            None => false,
        };
        if orphan {
            out.push(names[i].clone());
            assert(crate::types::strings_view(out@) =~= before.push(names@[i as int]@));
        }
        i += 1;
    }
    assert(nv.take(names.len() as int) =~= nv);
    out
}

/// The blob files to delete given the live entries in `ram`.
pub fn gc_orphans(ram: &RamStore, names: &Vec<String>) -> (r: Vec<String>)
    requires
        ram.wf(),
    ensures
        crate::types::strings_view(r@) == select_orphans(crate::types::strings_view(names@), spec_live_blob_ids(ram@)),
{
    let live = live_blob_ids(ram);
    gc(&live, names)
}

} // verus!
