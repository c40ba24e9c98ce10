use clipwallet::ram::{sort_newest_first_vec, IdSource, RamStore, CURSOR_TIMEOUT_SECS, FLUSH_INTERVAL_SECS, STATIC_SLOTS};
use clipwallet::types::{ClipData, ClipEntry};

fn entry(id: u64, text: &str, ts: i64) -> ClipEntry {
    ClipEntry::new(id, ClipData::PlainText(text.to_string()), ts)
}

#[test]
fn ring_keeps_newest_first_and_evicts_oldest() {
    let mut ram = RamStore::new(2, 0);
    assert_eq!(ram.push_dynamic(entry(1, "a", 1)), None);
    assert_eq!(ram.push_dynamic(entry(2, "b", 2)), None);
    let evicted = ram.push_dynamic(ClipEntry::new(3, ClipData::Binary(vec![1]), 3));
    assert_eq!(evicted, Some("id=1 (PlainText)".to_string()));
    let ids: Vec<u64> = ram.dynamic_ring().iter().map(|e| e.id).collect();
    assert_eq!(ids, vec![3, 2]);
    assert_eq!(ram.capacity(), 2);
    assert!(ram.is_dirty());
}

#[test]
fn duplicate_of_newest_is_not_stored_again() {
    let mut ram = RamStore::new(5, 0);
    ram.push_dynamic(entry(1, "same", 1));
    ram.push_dynamic(entry(2, "other", 2));
    ram.cursor_next(3);
    assert_eq!(ram.dynamic_cursor(), 1);
    assert_eq!(ram.push_dynamic(entry(3, "other", 4)), None);
    assert_eq!(ram.ring_len(), 2);
    assert_eq!(ram.dynamic_cursor(), 0);
    assert_eq!(ram.current_dynamic().unwrap().id, 2);
}

#[test]
fn cursor_wraps_both_ways() {
    let mut ram = RamStore::new(5, 0);
    ram.cursor_next(1);
    assert_eq!(ram.dynamic_cursor(), 0);
    for i in 0..3 {
        ram.push_dynamic(entry(i, &i.to_string(), i as i64));
    }
    ram.cursor_prev(10);
    assert_eq!(ram.dynamic_cursor(), 2);
    ram.cursor_next(11);
    assert_eq!(ram.dynamic_cursor(), 0);
    ram.cursor_next(12);
    ram.cursor_prev(13);
    assert_eq!(ram.dynamic_cursor(), 0);
    assert!(!ram.cursor_timed_out(13 + CURSOR_TIMEOUT_SECS - 1));
    assert!(ram.cursor_timed_out(13 + CURSOR_TIMEOUT_SECS));
    assert_eq!(CURSOR_TIMEOUT_SECS, 10);
    assert_eq!(FLUSH_INTERVAL_SECS, 60);
}

#[test]
fn static_slots_and_tab_cursor() {
    let mut ram = RamStore::new(5, 0);
    assert_eq!(STATIC_SLOTS, 9);
    assert_eq!(ram.static_cursor_next(), None);
    ram.set_static(9, entry(1, "nine", 1));
    ram.set_static(2, entry(2, "two", 2));
    assert_eq!(ram.static_occupied_count(), 2);
    assert_eq!(ram.static_cursor_next(), Some(2));
    assert_eq!(ram.static_cursor_next(), Some(9));
    assert_eq!(ram.static_cursor_next(), Some(2));
    assert_eq!(ram.static_cursor_prev(), Some(9));
    assert_eq!(ram.static_cursor_entry().unwrap().id, 1);
    ram.static_delete_at_cursor();
    assert_eq!(ram.static_occupied_count(), 1);
    ram.clear_static(2);
    assert_eq!(ram.static_occupied_count(), 0);
    ram.clear_dirty();
    assert!(!ram.is_dirty());
}

#[test]
fn delete_at_cursor_keeps_cursor_on_an_entry() {
    let mut ram = RamStore::new(5, 0);
    ram.push_dynamic(entry(1, "a", 1));
    ram.push_dynamic(entry(2, "b", 2));
    ram.cursor_prev(0);
    assert_eq!(ram.dynamic_cursor(), 1);
    ram.delete_at_cursor();
    assert_eq!(ram.dynamic_cursor(), 0);
    assert_eq!(ram.current_dynamic().unwrap().id, 2);
    ram.delete_at_cursor();
    assert!(ram.current_dynamic().is_none());
    ram.delete_at_cursor();
    assert_eq!(ram.ring_len(), 0);
}

#[test]
fn sort_is_newest_first_and_stable() {
    let sorted = sort_newest_first_vec(vec![entry(1, "a", 5), entry(2, "b", 9), entry(3, "c", 5), entry(4, "d", 1)]);
    let ids: Vec<u64> = sorted.iter().map(|e| e.id).collect();
    assert_eq!(ids, vec![2, 1, 3, 4]);
}

#[test]
fn ids_count_up_from_one() {
    let mut ids = IdSource::new();
    assert_eq!(ids.last(), 0);
    assert_eq!(ids.next_id(), 1);
    assert_eq!(ids.next_id(), 2);
    assert_eq!(ids.last(), 2);
}
