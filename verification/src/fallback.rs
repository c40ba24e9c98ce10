//! Looking an entry up by id through the storage layers, fastest first: the
//! in-memory store, the disk store, the encrypted vault. An entry found in a
//! slower layer is promoted into the dynamic ring.

use vstd::prelude::*;
use vstd::string::*;
use crate::ram::{RamStore, RamView, opt_entry_view, spec_push};
use crate::types::{ClipEntry, ClipEntryView, EntryId};

verus! {

/// A storage layer.
#[derive(Debug, Clone, Copy, PartialEq, Eq, Structural)]
pub enum LayerKind {
    Ram,
    Disk,
    Vault,
}

pub open spec fn spec_layer_name(l: LayerKind) -> Seq<char> {
    match l {
        LayerKind::Ram => "RAM Cache"@,
        LayerKind::Disk => "Disk Cache"@,
        LayerKind::Vault => "Encrypted Vault"@,
    }
}

impl LayerKind {
    /// The layer's display name.
    pub fn name(&self) -> (r: &'static str)
        ensures
            r@ == spec_layer_name(*self),
    {
        match self {
            LayerKind::Ram => "RAM Cache",
            LayerKind::Disk => "Disk Cache",
            LayerKind::Vault => "Encrypted Vault",
        }
    }
}

/// The first entry of `s` with id `id`.
pub open spec fn find_in_ring(s: Seq<ClipEntryView>, id: EntryId) -> Option<ClipEntryView>
    decreases s.len(),
{
    if s.len() == 0 {
        None
    } else if s[0].id == id {
        Some(s[0])
    } else {
        find_in_ring(s.drop_first(), id)
    }
}

/// The entry with id `id` in the first slot that holds one.
pub open spec fn find_in_slots(s: Seq<Option<ClipEntryView>>, id: EntryId) -> Option<ClipEntryView>
    decreases s.len(),
{
    if s.len() == 0 {
        None
    } else if s[0] matches Some(e) && e.id == id {
        s[0]
    } else {
        find_in_slots(s.drop_first(), id)
    }
}

/// What the in-memory layer holds under `id`: the ring is searched first,
/// newest to oldest, then the slots in order.
pub open spec fn spec_ram_lookup(v: RamView, id: EntryId) -> Option<ClipEntryView> {
    match find_in_ring(v.ring, id) {
        Some(e) => Some(e),
        None => find_in_slots(v.slots, id),
    }
}

/// The in-memory layer, over a store.
pub struct RamLayer<'a> {
    ram: &'a RamStore,
}

impl<'a> RamLayer<'a> {
    /// The layer over `ram`.
    pub fn new(ram: &'a RamStore) -> (r: Self)
        ensures
            r.store() == ram,
    {
        RamLayer { ram }
    }

    /// The store the layer reads.
    pub closed spec fn store(&self) -> &'a RamStore {
        self.ram
    }

    /// `"RAM Cache"`.
    pub fn name(&self) -> (r: &'static str)
        ensures
            r@ == spec_layer_name(LayerKind::Ram),
    {
        LayerKind::Ram.name()
    }

    /// A copy of the entry with id `id` (see [`spec_ram_lookup`]).
    pub fn retrieve(&self, id: EntryId) -> (r: Option<ClipEntry>)
        ensures
            opt_entry_view(r) == spec_ram_lookup(self.store()@, id),
    {
        let ring = self.ram.dynamic_ring();
        let ghost rv = self.ram@.ring;
        assert(rv.skip(0) =~= rv);
        let mut i: usize = 0;
        while i < ring.len()
            invariant
                0 <= i <= ring.len(),
                ring@.map_values(|e: ClipEntry| e@) == rv,
                rv == self.store()@.ring,
                find_in_ring(rv, id) == find_in_ring(rv.skip(i as int), id),
            decreases ring.len() - i,
        {
            proof {
                assert(rv.skip(i as int)[0] == rv[i as int]);
                assert(rv.skip(i as int).drop_first() =~= rv.skip(i + 1));
            }
            if ring[i].id == id {
                let found = ring[i].duplicate();
                assert(found@ == rv[i as int]);
                assert(rv.skip(i as int).len() > 0);
                assert(find_in_ring(rv.skip(i as int), id) == Some(rv[i as int]));
                assert(spec_ram_lookup(self.store()@, id) == Some(rv[i as int]));
                return Some(found);
            }
            i += 1;
        }
        let slots = self.ram.static_slots();
        let ghost sv = self.ram@.slots;
        assert(sv.skip(0) =~= sv);
        assert(rv.skip(ring.len() as int) =~= Seq::<ClipEntryView>::empty());
        let mut j: usize = 0;
        while j < slots.len()
            invariant
                0 <= j <= slots.len(),
                slots@.map_values(|o: Option<ClipEntry>| opt_entry_view(o)) == sv,
                sv == self.store()@.slots,
                rv == self.store()@.ring,
                find_in_ring(rv, id) is None,
                find_in_slots(sv, id) == find_in_slots(sv.skip(j as int), id),
            decreases slots.len() - j,
        {
            proof {
                assert(sv.skip(j as int)[0] == sv[j as int]);
                assert(sv.skip(j as int).drop_first() =~= sv.skip(j + 1));
            }
            if let Some(e) = &slots[j] {
                if e.id == id {
                    let found = e.duplicate();
                    assert(sv[j as int] == Some(e@));
                    assert(sv.skip(j as int).len() > 0);
                    assert(sv.skip(j as int)[0] == Some(e@));
                    assert(find_in_slots(sv.skip(j as int), id) == Some(e@));
                    assert(spec_ram_lookup(self.store()@, id) == Some(e@));
                    return Some(found);
                }
            }
            j += 1;
        }
        assert(sv.skip(slots.len() as int) =~= Seq::<Option<ClipEntryView>>::empty());
        None
    }
}

/// The disk layer: entries in the store files on disk.
pub struct DiskLayer;

impl DiskLayer {
    /// `"Disk Cache"`.
    pub fn name(&self) -> (r: &'static str)
        ensures
            r@ == spec_layer_name(LayerKind::Disk),
    {
        LayerKind::Disk.name()
    }
}

/// The vault layer: encrypted entries, one file each.
pub struct VaultLayer;

impl VaultLayer {
    /// `"Encrypted Vault"`.
    pub fn name(&self) -> (r: &'static str)
        ensures
            r@ == spec_layer_name(LayerKind::Vault),
    {
        LayerKind::Vault.name()
    }

    /// What the vault layer answers for an entry loaded from the vault
    /// (`None` when it could not be loaded): the entry, marked as no longer
    /// encrypted.
    pub fn accept(loaded: Option<ClipEntry>) -> (r: Option<ClipEntry>)
        ensures
            opt_entry_view(r) == (match loaded {
                Some(e) => Some(ClipEntryView { encrypted: false, ..e@ }),
                None => None,
            }),
    {
        match loaded {
            Some(mut e) => {
                e.encrypted = false;
                Some(e)
            },
            None => None,
        }
    }
}

/// The layers in the order they are asked.
pub struct FallbackChain {
    layers: Vec<LayerKind>,
}

pub open spec fn layer_order() -> Seq<LayerKind> {
    seq![LayerKind::Ram, LayerKind::Disk, LayerKind::Vault]
}

/// The store after a layer answered: an entry from a layer other than the
/// in-memory one is pushed onto the ring.
pub open spec fn spec_after_answer(v: RamView, layer: LayerKind, answer: Option<ClipEntryView>) -> RamView {
    match answer {
        Some(e) => if layer != LayerKind::Ram {
            spec_push(v, e).0
        } else {
            v
        },
        None => v,
    }
}

impl FallbackChain {
    /// In-memory, then disk, then vault.
    pub fn new() -> (r: Self)
        ensures
            r.layer_seq() == layer_order(),
    {
        FallbackChain { layers: vec![LayerKind::Ram, LayerKind::Disk, LayerKind::Vault] }
    }

    /// The layers in the order they are asked.
    pub closed spec fn layer_seq(&self) -> Seq<LayerKind> {
        self.layers@
    }

    /// The layers in the order they are asked.
    pub fn layers(&self) -> (r: &Vec<LayerKind>)
        ensures
            r@ == self.layer_seq(),
    {
        &self.layers
    }

    /// Takes the answer of `layer` (`None` for a miss or a failure, which
    /// both move the lookup on to the next layer). A hit ends the lookup
    /// and is returned; when it came from a slower layer a copy is first
    /// promoted into the ring.
    pub fn accept_answer(ram: &mut RamStore, layer: LayerKind, answer: Option<ClipEntry>) -> (r: Option<ClipEntry>)
        requires
            old(ram).wf(),
        ensures
            final(ram).wf(),
            opt_entry_view(r) == opt_entry_view(answer),
            final(ram)@ == spec_after_answer(old(ram)@, layer, opt_entry_view(answer)),
    {
        match answer {
            Some(entry) => {
                if layer != LayerKind::Ram {
                    let _evicted = ram.push_dynamic(entry.duplicate());
                }
                Some(entry)
            },
            None => None,
        }
    }
}

} // verus!
