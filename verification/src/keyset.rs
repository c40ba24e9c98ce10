//! Small finite sets of keys, held in a `Vec` and read through `to_set`.

use vstd::prelude::*;
use crate::keys::Key;

verus! {

/// Whether `k` is in the set that `v` holds.
pub fn set_contains(v: &Vec<Key>, k: Key) -> (r: bool)
    ensures
        r == v@.to_set().contains(k),
{
    let mut i: usize = 0;
    while i < v.len()
        invariant
            0 <= i <= v.len(),
            forall|j: int| 0 <= j < i ==> v@[j] != k,
        decreases v.len() - i,
    {
        if v[i] == k {
            assert(v@.contains(k));
            return true;
        }
        i += 1;
    }
    assert(!v@.contains(k));
    false
}

/// Adds `k` to the set.
pub fn set_insert(v: &mut Vec<Key>, k: Key)
    ensures
        final(v)@.to_set() == old(v)@.to_set().insert(k),
{
    if !set_contains(v, k) {
        let ghost before = v@;
        v.push(k);
        assert(v@.to_set() =~= before.to_set().insert(k)) by {
            assert forall|x: Key| v@.contains(x) <==> before.contains(x) || x == k by {
                if v@.contains(x) {
                    let j = choose|j: int| 0 <= j < v@.len() && v@[j] == x;
                    if j < before.len() {
                        assert(before[j] == x);
                    }
                }
                if before.contains(x) {
                    let j = choose|j: int| 0 <= j < before.len() && before[j] == x;
                    assert(v@[j] == x);
                }
                if x == k {
                    assert(v@[before.len() as int] == k);
                }
            }
        }
    } else {
        assert(v@.to_set() =~= v@.to_set().insert(k));
    }
}

/// The set without `k`, as a new vector.
fn set_filter_out(v: &Vec<Key>, k: Key) -> (r: Vec<Key>)
    ensures
        r@.to_set() == v@.to_set().remove(k),
{
    let mut out: Vec<Key> = Vec::new();
    let mut i: usize = 0;
    while i < v.len()
        invariant
            0 <= i <= v.len(),
            forall|x: Key| out@.contains(x) <==> (x != k && exists|j: int| 0 <= j < i && v@[j] == x),
        decreases v.len() - i,
    {
        let ghost before = out@;
        let x = v[i];
        if x != k {
            out.push(x);
            assert forall|y: Key| out@.contains(y) <==> (y != k && exists|j: int| 0 <= j < i + 1 && v@[j] == y) by {
                if out@.contains(y) {
                    let j = choose|j: int| 0 <= j < out@.len() && out@[j] == y;
                    if j < before.len() {
                        assert(before[j] == y);
                        assert(before.contains(y));
                    } else {
                        assert(v@[i as int] == y);
                    }
                }
                if y != k && exists|j: int| 0 <= j < i + 1 && v@[j] == y {
                    let j = choose|j: int| 0 <= j < i + 1 && v@[j] == y;
                    if j < i {
                        assert(before.contains(y));
                        let m = choose|m: int| 0 <= m < before.len() && before[m] == y;
                        assert(out@[m] == y);
                    } else {
                        assert(out@[before.len() as int] == y);
                    }
                }
            }
        } else {
            assert forall|y: Key| out@.contains(y) <==> (y != k && exists|j: int| 0 <= j < i + 1 && v@[j] == y) by {
                if y != k && exists|j: int| 0 <= j < i + 1 && v@[j] == y {
                    let j = choose|j: int| 0 <= j < i + 1 && v@[j] == y;
                    assert(j < i);
                }
            }
        }
        i += 1;
    }
    assert(out@.to_set() =~= v@.to_set().remove(k)) by {
        assert forall|x: Key| out@.contains(x) <==> (v@.contains(x) && x != k) by {
            if v@.contains(x) && x != k {
                let j = choose|j: int| 0 <= j < v@.len() && v@[j] == x;
                assert(exists|j: int| 0 <= j < i && v@[j] == x);
            }
        }
    }
    out
}

/// Removes `k` from the set.
pub fn set_remove(v: &mut Vec<Key>, k: Key)
    ensures
        final(v)@.to_set() == old(v)@.to_set().remove(k),
{
    let out = set_filter_out(v, k);
    *v = out;
}

/// Keeps only the keys that are also in `other`.
pub fn set_retain_in(v: &mut Vec<Key>, other: &Vec<Key>)
    ensures
        final(v)@.to_set() == old(v)@.to_set().intersect(other@.to_set()),
{
    let mut out: Vec<Key> = Vec::new();
    let mut i: usize = 0;
    while i < v.len()
        invariant
            0 <= i <= v.len(),
            forall|x: Key| out@.contains(x) <==> (other@.contains(x) && exists|j: int| 0 <= j < i && v@[j] == x),
        decreases v.len() - i,
    {
        let ghost before = out@;
        let x = v[i];
        if set_contains(other, x) {
            out.push(x);
            assert forall|y: Key| out@.contains(y) <==> (other@.contains(y) && exists|j: int| 0 <= j < i + 1 && v@[j] == y) by {
                if out@.contains(y) {
                    let j = choose|j: int| 0 <= j < out@.len() && out@[j] == y;
                    if j < before.len() {
                        assert(before[j] == y);
                        assert(before.contains(y));
                    } else {
                        assert(v@[i as int] == y);
                    }
                }
                if other@.contains(y) && exists|j: int| 0 <= j < i + 1 && v@[j] == y {
                    let j = choose|j: int| 0 <= j < i + 1 && v@[j] == y;
                    if j < i {
                        assert(before.contains(y));
                        let m = choose|m: int| 0 <= m < before.len() && before[m] == y;
                        assert(out@[m] == y);
                    } else {
                        assert(out@[before.len() as int] == y);
                    }
                }
            }
        } else {
            assert forall|y: Key| out@.contains(y) <==> (other@.contains(y) && exists|j: int| 0 <= j < i + 1 && v@[j] == y) by {
                if other@.contains(y) && exists|j: int| 0 <= j < i + 1 && v@[j] == y {
                    let j = choose|j: int| 0 <= j < i + 1 && v@[j] == y;
                    if j == i {
                        assert(other@.to_set().contains(y));
                    }
                }
            }
        }
        i += 1;
    }
    assert(out@.to_set() =~= v@.to_set().intersect(other@.to_set())) by {
        assert forall|x: Key| out@.contains(x) <==> (v@.contains(x) && other@.contains(x)) by {
            if v@.contains(x) && other@.contains(x) {
                let j = choose|j: int| 0 <= j < v@.len() && v@[j] == x;
                assert(exists|j: int| 0 <= j < i && v@[j] == x);
            }
        }
    }
    *v = out;
}

/// Whether the set is empty.
pub fn set_is_empty(v: &Vec<Key>) -> (r: bool)
    ensures
        r == (v@.to_set() == Set::<Key>::empty()),
{
    if v.len() == 0 {
        assert(v@.to_set() =~= Set::<Key>::empty());
        true
    } else {
        assert(v@.to_set().contains(v@[0]));
        false
    }
}

} // verus!
