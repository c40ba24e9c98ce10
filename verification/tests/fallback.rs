use clipwallet::fallback::{DiskLayer, FallbackChain, LayerKind, RamLayer, VaultLayer};
use clipwallet::ram::RamStore;
use clipwallet::types::{ClipData, ClipEntry};

#[test]
fn test_fallback_chain_initialization() {
    let chain = FallbackChain::new();
    assert_eq!(chain.layers().len(), 3);
    assert_eq!(chain.layers()[0].name(), "RAM Cache");
    assert_eq!(chain.layers()[1].name(), "Disk Cache");
    assert_eq!(chain.layers()[2].name(), "Encrypted Vault");
}

fn entry(id: u64, text: &str) -> ClipEntry {
    ClipEntry::new(id, ClipData::PlainText(text.to_string()), id as i64)
}

#[test]
fn ram_layer_finds_ring_before_slots() {
    let mut ram = RamStore::new(10, 0);
    ram.set_static(2, entry(5, "slot"));
    ram.push_dynamic(entry(6, "ring"));
    let layer = RamLayer::new(&ram);
    assert_eq!(layer.name(), "RAM Cache");
    assert_eq!(layer.retrieve(6).unwrap().data, ClipData::PlainText("ring".into()));
    assert_eq!(layer.retrieve(5).unwrap().data, ClipData::PlainText("slot".into()));
    assert!(layer.retrieve(7).is_none());
    assert_eq!(DiskLayer.name(), "Disk Cache");
    assert_eq!(VaultLayer.name(), "Encrypted Vault");
}

#[test]
fn hits_from_slower_layers_are_promoted() {
    let mut ram = RamStore::new(10, 0);
    let mut from_vault = entry(9, "vaulted");
    from_vault.encrypted = true;
    let answer = VaultLayer::accept(Some(from_vault));
    assert!(!answer.as_ref().unwrap().encrypted);
    let hit = FallbackChain::accept_answer(&mut ram, LayerKind::Vault, answer).unwrap();
    assert_eq!(hit.id, 9);
    assert_eq!(ram.ring_len(), 1);
    assert_eq!(ram.dynamic_ring()[0].id, 9);

    let hit = FallbackChain::accept_answer(&mut ram, LayerKind::Ram, Some(entry(10, "resident"))).unwrap();
    assert_eq!(hit.id, 10);
    assert_eq!(ram.ring_len(), 1);
    assert!(FallbackChain::accept_answer(&mut ram, LayerKind::Disk, None).is_none());
    assert!(VaultLayer::accept(None).is_none());
}
