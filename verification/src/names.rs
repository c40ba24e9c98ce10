//! File names of the on-disk store: slot files, the ring file, blob files,
//! vault files and interrupted-write `.tmp` files.

use vstd::prelude::*;
use vstd::string::*;
use crate::decimal::{push_decimal, spec_decimal, parse_u64, spec_parse_u64};
use vstd::utf8::encode_utf8;

verus! {

/// `b` ends with `suffix`.
pub open spec fn ends_with(b: Seq<u8>, suffix: Seq<u8>) -> bool {
    b.len() >= suffix.len() && b.skip(b.len() - suffix.len()) == suffix
}

/// `b` without its last `n` bytes.
pub open spec fn drop_suffix(b: Seq<u8>, n: nat) -> Seq<u8> {
    b.take(b.len() - n)
}

fn bytes_end_with(b: &[u8], suffix: &[u8]) -> (r: bool)
    ensures
        r == ends_with(b@, suffix@),
{
    if b.len() < suffix.len() {
        return false;
    }
    let off = b.len() - suffix.len();
    let mut i: usize = 0;
    while i < suffix.len()
        invariant
            off == b.len() - suffix.len(),
            0 <= i <= suffix.len(),
            forall|j: int| 0 <= j < i ==> b@[off + j] == suffix@[j],
        decreases suffix.len() - i,
    {
        if b[off + i] != suffix[i] {
            assert(b@.skip(off as int)[i as int] != suffix@[i as int]);
            return false;
        }
        i += 1;
    }
    assert(b@.skip(off as int) =~= suffix@);
    true
}

fn prefix_of(b: &[u8], n: usize) -> (r: Vec<u8>)
    requires
        n <= b.len(),
    ensures
        r@ == b@.take(n as int),
{
    let mut out: Vec<u8> = Vec::new();
    let mut i: usize = 0;
    while i < n
        invariant
            n <= b.len(),
            0 <= i <= n,
            out@ == b@.take(i as int),
        decreases n - i,
    {
        out.push(b[i]);
        i += 1;
        assert(out@ =~= b@.take(i as int));
    }
    out
}

/// `.blob` as bytes.
pub open spec fn blob_ext() -> Seq<u8> {
    seq![46u8, 98u8, 108u8, 111u8, 98u8]
}

/// `.vlt` as bytes.
pub open spec fn vault_ext() -> Seq<u8> {
    seq![46u8, 118u8, 108u8, 116u8]
}

/// `.tmp` as bytes.
pub open spec fn tmp_ext() -> Seq<u8> {
    seq![46u8, 116u8, 109u8, 112u8]
}

/// Name of the file of slot `slot`: `slot_<n>.mpk`.
pub fn slot_file_name(slot: usize) -> (r: String)
    ensures
        r@ == "slot_"@ + spec_decimal(slot as nat) + ".mpk"@,
{
    let mut s = String::new();
    s.append("slot_");
    push_decimal(&mut s, slot as u64);
    s.append(".mpk");
    s
}

/// Name of the dynamic ring's file.
pub fn ring_file_name() -> (r: &'static str)
    ensures
        r@ == "dynamic_ring.mpk"@,
{
    "dynamic_ring.mpk"
}

/// Name of the blob file of entry `id`: `<id>.blob`.
pub fn blob_file_name(id: u64) -> (r: String)
    ensures
        r@ == spec_decimal(id as nat) + ".blob"@,
{
    let mut s = String::new();
    push_decimal(&mut s, id);
    s.append(".blob");
    s
}

/// Name of the vault file of entry `id`: `<id>.vlt`.
pub fn vault_file_name(id: u64) -> (r: String)
    ensures
        r@ == spec_decimal(id as nat) + ".vlt"@,
{
    let mut s = String::new();
    push_decimal(&mut s, id);
    s.append(".vlt");
    s
}

/// The id a blob file name carries: a name `<stem>.blob` whose stem parses
/// as a `u64`. Files with another extension are not blobs.
pub open spec fn spec_blob_id_of(name: Seq<u8>) -> Option<u64> {
    if ends_with(name, blob_ext()) {
        spec_parse_u64(drop_suffix(name, 5))
    } else {
        None
    }
}

/// The id a blob file name carries, if it is `<u64>.blob`.
pub fn blob_id_of(name: &str) -> (r: Option<u64>)
    ensures
        r == spec_blob_id_of(name.spec_bytes()),
{
    let b = name.as_bytes();
    let ext: [u8; 5] = [46u8, 98u8, 108u8, 111u8, 98u8];
    assert(ext@ =~= blob_ext());
    if !bytes_end_with(b, ext.as_slice()) {
        return None;
    }
    let stem = prefix_of(b, b.len() - 5);
    parse_u64(stem.as_slice())
}

/// `b` with every trailing repetition of `suffix` removed (as
/// `str::trim_end_matches` does).
pub open spec fn trim_end_all(b: Seq<u8>, suffix: Seq<u8>) -> Seq<u8>
    decreases b.len(),
{
    if suffix.len() > 0 && ends_with(b, suffix) {
        trim_end_all(drop_suffix(b, suffix.len()), suffix)
    } else {
        b
    }
}

/// The id a vault file name carries: a name ending in `.vlt`, with every
/// trailing `.vlt` trimmed, that parses as a `u64`.
pub open spec fn spec_vault_id_of(name: Seq<u8>) -> Option<u64> {
    if ends_with(name, vault_ext()) {
        spec_parse_u64(trim_end_all(name, vault_ext()))
    } else {
        None
    }
}

/// The id a vault file name carries, if it is `<u64>.vlt`.
pub fn vault_id_of(name: &str) -> (r: Option<u64>)
    ensures
        r == spec_vault_id_of(name.spec_bytes()),
{
    let b = name.as_bytes();
    let ext: [u8; 4] = [46u8, 118u8, 108u8, 116u8];
    assert(ext@ =~= vault_ext());
    if !bytes_end_with(b, ext.as_slice()) {
        return None;
    }
    let mut n: usize = b.len();
    let ghost full = b@;
    assert(full.take(n as int) =~= full);
    loop
        invariant
            full == b@,
            ext@ == vault_ext(),
            n <= b.len(),
            trim_end_all(full, vault_ext()) == trim_end_all(full.take(n as int), vault_ext()),
        ensures
            n <= b.len(),
            trim_end_all(full, vault_ext()) == full.take(n as int),
        decreases n,
    {
        let t = prefix_of(b, n);
        let more = bytes_end_with(t.as_slice(), ext.as_slice());
        if !more {
            assert(trim_end_all(t@, vault_ext()) == t@);
            break;
        }
        assert(drop_suffix(t@, 4) =~= full.take(n - 4));
        assert(trim_end_all(t@, vault_ext()) == trim_end_all(drop_suffix(t@, 4), vault_ext()));
        n = n - 4;
    }
    let stem = prefix_of(b, n);
    parse_u64(stem.as_slice())
}

/// The ids of the vault files among `names`, in their order; other names
/// are skipped.
pub open spec fn spec_vault_ids(names: Seq<Seq<char>>) -> Seq<u64>
    decreases names.len(),
{
    if names.len() == 0 {
        Seq::empty()
    } else {
        let rest = spec_vault_ids(names.drop_last());
        match spec_vault_id_of(encode_utf8(names.last())) {
            Some(id) => rest.push(id),
            None => rest,
        }
    }
}

/// The ids of the vault entries, given the file names in the vault
/// directory.
pub fn list_vault_ids(names: &Vec<String>) -> (r: Vec<u64>)
    ensures
        r@ == spec_vault_ids(crate::types::strings_view(names@)),
{
    let ghost nv = crate::types::strings_view(names@);
    let mut out: Vec<u64> = Vec::new();
    let mut i: usize = 0;
    while i < names.len()
        invariant
            nv == crate::types::strings_view(names@),
            0 <= i <= names.len(),
            out@ == spec_vault_ids(nv.take(i as int)),
        decreases names.len() - i,
    {
        assert(nv.take(i as int + 1).drop_last() =~= nv.take(i as int));
        assert(nv.take(i as int + 1).last() == names@[i as int]@);
        if let Some(id) = vault_id_of(names[i].as_str()) {
            out.push(id);
        }
        i += 1;
    }
    assert(nv.take(names.len() as int) =~= nv);
    out
}

/// A finished-write leftover: the name has the extension `tmp` (it ends in
/// `.tmp` and is more than just `.tmp`).
pub open spec fn spec_is_tmp_file_name(name: Seq<u8>) -> bool {
    ends_with(name, tmp_ext()) && name.len() > 4
}

/// Whether a file name has the `tmp` extension of an interrupted write.
pub fn is_tmp_file_name(name: &str) -> (r: bool)
    ensures
        r == spec_is_tmp_file_name(name.spec_bytes()),
{
    let b = name.as_bytes();
    let ext: [u8; 4] = [46u8, 116u8, 109u8, 112u8];
    assert(ext@ =~= tmp_ext());
    b.len() > 4 && bytes_end_with(b, ext.as_slice())
}

} // verus!

verus! {

/// The bytes of the decimal representation of `n`.
pub open spec fn decimal_bytes(n: nat) -> Seq<u8> {
    spec_decimal(n).map_values(|c: char| c as u8)
}

proof fn lemma_decimal_ascii(n: nat)
    ensures
        vstd::utf8::is_ascii_chars(spec_decimal(n)),
        spec_decimal(n).len() >= 1,
        forall|i: int| 0 <= i < spec_decimal(n).len() ==> 48 <= #[trigger] (spec_decimal(n)[i] as u32) <= 57,
        all_ascii_digits(decimal_bytes(n)),
        crate::decimal::all_digits(decimal_bytes(n)),
        crate::decimal::digits_value(decimal_bytes(n)) == n,
    decreases n,
{
    let d = n % 10;
    assert((((d + 48) as u8) as char) as u32 == d + 48) by {
        assert(d < 10);
    }
    if n >= 10 {
        lemma_decimal_ascii(n / 10);
        let prev = spec_decimal(n / 10);
        let cur = spec_decimal(n);
        assert(cur == prev.push(crate::decimal::spec_digit_char(d)));
        assert forall|i: int| 0 <= i < cur.len() implies 48 <= #[trigger] (cur[i] as u32) <= 57 by {
            if i < prev.len() {
                assert(cur[i] == prev[i]);
            }
        }
        assert(decimal_bytes(n).drop_last() =~= decimal_bytes(n / 10));
        assert(decimal_bytes(n).last() == (d + 48) as u8);
        let db = decimal_bytes(n);
        assert(crate::decimal::digits_value(db) == crate::decimal::digits_value(db.drop_last()) * 10
            + (db.last() - 48) as nat);
        assert(crate::decimal::digits_value(db) == (n / 10) * 10 + d);
        assert forall|i: int| 0 <= i < db.len() implies 48 <= #[trigger] db[i] <= 57 by {
            if i < db.len() - 1 {
                assert(db[i] == decimal_bytes(n / 10)[i]);
            }
        }
    } else {
        assert(decimal_bytes(n) =~= seq![(d + 48) as u8]);
        assert(decimal_bytes(n).drop_last() =~= Seq::<u8>::empty());
        assert(crate::decimal::digits_value(Seq::<u8>::empty()) == 0);
        assert(crate::decimal::digits_value(decimal_bytes(n)) == n);
    }
}

/// Every byte of `b` is an ASCII digit.
pub open spec fn all_ascii_digits(b: Seq<u8>) -> bool {
    forall|i: int| 0 <= i < b.len() ==> 48 <= #[trigger] b[i] <= 57
}

proof fn lemma_ascii_encode(c: Seq<char>)
    requires
        vstd::utf8::is_ascii_chars(c),
    ensures
        vstd::utf8::encode_utf8(c) == c.map_values(|x: char| x as u8),
{
    vstd::utf8::is_ascii_chars_encode_utf8(c);
    assert(vstd::utf8::encode_utf8(c) =~= c.map_values(|x: char| x as u8));
}

/// The id written into a vault file name is the id read back from it.
pub proof fn lemma_vault_name_roundtrip(id: u64)
    ensures
        spec_vault_id_of(vstd::utf8::encode_utf8(spec_decimal(id as nat) + ".vlt"@)) == Some(id),
{
    reveal_strlit(".vlt");
    lemma_decimal_ascii(id as nat);
    let dec = spec_decimal(id as nat);
    let full = dec + ".vlt"@;
    assert(vstd::utf8::is_ascii_chars(full));
    lemma_ascii_encode(full);
    let b = vstd::utf8::encode_utf8(full);
    let db = decimal_bytes(id as nat);
    assert(b =~= db + vault_ext());
    assert(ends_with(b, vault_ext())) by {
        assert(b.skip(b.len() - 4) =~= vault_ext());
    }
    assert(drop_suffix(b, 4) =~= db);
    assert(!ends_with(db, vault_ext())) by {
        assert(db[db.len() - 1] != 116u8);
        if ends_with(db, vault_ext()) {
            assert(db.skip(db.len() - 4)[3] == db[db.len() - 1]);
        }
    }
    assert(trim_end_all(db, vault_ext()) == db);
    assert(trim_end_all(b, vault_ext()) == trim_end_all(drop_suffix(b, 4), vault_ext()));
    assert(crate::decimal::digits_part(db) == db) by {
        assert(db[0] != 43u8);
    }
}

/// The id written into a blob file name is the id read back from it.
pub proof fn lemma_blob_name_roundtrip(id: u64)
    ensures
        spec_blob_id_of(vstd::utf8::encode_utf8(spec_decimal(id as nat) + ".blob"@)) == Some(id),
{
    reveal_strlit(".blob");
    lemma_decimal_ascii(id as nat);
    let dec = spec_decimal(id as nat);
    let full = dec + ".blob"@;
    assert(vstd::utf8::is_ascii_chars(full));
    lemma_ascii_encode(full);
    let b = vstd::utf8::encode_utf8(full);
    let db = decimal_bytes(id as nat);
    assert(b =~= db + blob_ext());
    assert(ends_with(b, blob_ext())) by {
        assert(b.skip(b.len() - 5) =~= blob_ext());
    }
    assert(drop_suffix(b, 5) =~= db);
    assert(crate::decimal::digits_part(db) == db) by {
        assert(db[0] != 43u8);
    }
}

} // verus!
