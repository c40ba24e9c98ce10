//! The on-disk envelope around each store file:
//! `[ "CW1\0" (4) | crc32 (4 LE) | entry_count (4 LE) | payload ]`.
//!
//! It catches what the payload encoding alone would not: truncated writes
//! and partial writes that still happen to decode. Files without the magic
//! are the older bare format and are accepted unchecked.

use vstd::prelude::*;
use vstd::string::*;
use crate::decimal::{push_decimal, spec_decimal, string_push};
use crate::ram::{RamStore, RamView, lemma_sort_newest_first_sorted, sort_newest_first, view_wf};
use crate::types::{ClipEntry, ClipEntryView};

verus! {

/// One bit step of the reflected CRC-32 (IEEE) register, polynomial
/// `0xEDB88320`.
pub open spec fn crc_round(c: u32) -> u32 {
    if c & 1 == 1 {
        (c >> 1u32) ^ 0xEDB8_8320u32
    } else {
        c >> 1u32
    }
}

/// The register after `n` bit steps.
pub open spec fn crc_rounds(c: u32, n: nat) -> u32
    decreases n,
{
    if n == 0 {
        c
    } else {
        crc_round(crc_rounds(c, (n - 1) as nat))
    }
}

/// The register after feeding one byte: eight bit steps.
pub open spec fn crc_byte(c: u32, b: u8) -> u32 {
    crc_rounds(c ^ (b as u32), 8)
}

/// The register after feeding `data`, starting from `init`.
pub open spec fn crc_register(init: u32, data: Seq<u8>) -> u32
    decreases data.len(),
{
    if data.len() == 0 {
        init
    } else {
        crc_byte(crc_register(init, data.drop_last()), data.last())
    }
}

/// The CRC-32 (IEEE) checksum of `data`: the register starts at all ones
/// and is inverted at the end.
pub open spec fn crc32_of(data: Seq<u8>) -> u32 {
    crc_register(0xFFFF_FFFFu32, data) ^ 0xFFFF_FFFFu32
}

/// `crc32fast::hash`: the CRC-32 (IEEE) checksum of `data`.
#[verifier::external_body]
pub(crate) fn crc32(data: &[u8]) -> (r: u32)
    ensures
        r == crc32_of(data@),
{
    crc32fast::hash(data)
}

/// The envelope magic, `CW1\0`.
pub open spec fn envelope_magic() -> Seq<u8> {
    seq![67u8, 87u8, 49u8, 0u8]
}

/// Length of the envelope header.
pub const ENVELOPE_HEADER_LEN: usize = 12;

/// Little-endian bytes of a `u32`.
pub open spec fn le32(x: u32) -> Seq<u8> {
    seq![(x & 0xff) as u8, ((x >> 8u32) & 0xff) as u8, ((x >> 16u32) & 0xff) as u8, ((x >> 24u32) & 0xff) as u8]
}

/// The `u32` whose little-endian bytes start at `b[i]`.
pub open spec fn read_le32(b: Seq<u8>, i: int) -> u32 {
    (b[i] as u32) | ((b[i + 1] as u32) << 8u32) | ((b[i + 2] as u32) << 16u32) | ((b[i + 3] as u32) << 24u32)
}

/// The envelope around `payload` recording `count` entries.
pub open spec fn spec_envelope(payload: Seq<u8>, count: u32) -> Seq<u8> {
    envelope_magic() + le32(crc32_of(payload)) + le32(count) + payload
}

fn push_le32(out: &mut Vec<u8>, x: u32)
    ensures
        final(out)@ == old(out)@ + le32(x),
{
    out.push((x & 0xff) as u8);
    out.push(((x >> 8u32) & 0xff) as u8);
    out.push(((x >> 16u32) & 0xff) as u8);
    out.push(((x >> 24u32) & 0xff) as u8);
    assert(out@ =~= old(out)@ + le32(x));
}

fn read_le32_at(b: &[u8], i: usize) -> (r: u32)
    requires
        i + 4 <= b@.len(),
    ensures
        r == read_le32(b@, i as int),
{
    (b[i] as u32) | ((b[i + 1] as u32) << 8u32) | ((b[i + 2] as u32) << 16u32) | ((b[i + 3] as u32)
        << 24u32)
}

/// Wraps `payload` in an envelope recording its CRC32 and `entry_count`.
pub fn wrap_envelope(payload: &[u8], entry_count: u32) -> (r: Vec<u8>)
    ensures
        r@ == spec_envelope(payload@, entry_count),
{
    let crc = crc32(payload);
    let mut out: Vec<u8> = Vec::new();
    out.push(67u8);
    out.push(87u8);
    out.push(49u8);
    out.push(0u8);
    assert(out@ =~= envelope_magic());
    push_le32(&mut out, crc);
    push_le32(&mut out, entry_count);
    let mut i: usize = 0;
    let ghost head = out@;
    while i < payload.len()
        invariant
            0 <= i <= payload.len(),
            out@ == head + payload@.take(i as int),
        decreases payload.len() - i,
    {
        out.push(payload[i]);
        i += 1;
        assert(out@ =~= head + payload@.take(i as int));
    }
    assert(payload@.take(payload.len() as int) =~= payload@);
    out
}

/// How an envelope read turned out.
#[derive(Debug)]
pub enum DecodeResult {
    /// New format with a matching checksum: the payload and the entry count
    /// the header records (checked against the caller's expectation once
    /// the payload has been decoded, by [`finish_enveloped`]).
    Enveloped { payload: Vec<u8>, count: u32 },
    /// Old bare format, without any integrity check. Holds the whole file.
    LegacyUnvalidated(Vec<u8>),
    /// Unusable, with the reason.
    Corrupt(String),
}

/// The abstract value of a [`DecodeResult`].
pub enum DecodeView {
    Enveloped { payload: Seq<u8>, count: u32 },
    LegacyUnvalidated(Seq<u8>),
    Corrupt(Seq<char>),
}

impl View for DecodeResult {
    type V = DecodeView;

    open spec fn view(&self) -> DecodeView {
        match self {
            DecodeResult::Enveloped { payload, count } => DecodeView::Enveloped {
                payload: payload@,
                count: *count,
            },
            DecodeResult::LegacyUnvalidated(p) => DecodeView::LegacyUnvalidated(p@),
            DecodeResult::Corrupt(s) => DecodeView::Corrupt(s@),
        }
    }
}

/// Lower-case hex digit.
pub open spec fn hex_digit(d: u32) -> char {
    if d < 10 { ((d + 48) as u8) as char } else { ((d + 87) as u8) as char }
}

/// Eight lower-case hex digits, zero-padded (`{:08x}`).
pub open spec fn hex8(x: u32) -> Seq<char> {
    Seq::new(8, |i: int| hex_digit((x >> ((28 - 4 * i) as u32)) & 0xf))
}

fn hex_digit_exec(d: u32) -> (c: char)
    requires
        d < 16,
    ensures
        c == hex_digit(d),
{
    if d < 10 {
        ((d as u8) + 48u8) as char
    } else {
        ((d as u8) + 87u8) as char
    }
}

fn push_hex8(out: &mut String, x: u32)
    ensures
        final(out)@ == old(out)@ + hex8(x),
{
    let mut i: u32 = 0;
    while i < 8
        invariant
            0 <= i <= 8,
            out@ == old(out)@ + hex8(x).take(i as int),
        decreases 8 - i,
    {
        let shift: u32 = 28 - 4 * i;
        let d = (x >> shift) & 0xf;
        assert(d < 16) by (bit_vector)
            requires
                d == (x >> shift) & 0xf,
        ;
        string_push(out, hex_digit_exec(d));
        i += 1;
        assert(out@ =~= old(out)@ + hex8(x).take(i as int));
    }
    assert(hex8(x).take(8) =~= hex8(x));
}

/// Reason for a file shorter than the header.
pub open spec fn truncated_reason() -> Seq<char> {
    "envelope truncated (< header)"@
}

/// Reason for a checksum mismatch.
pub open spec fn checksum_reason(stored: u32, computed: u32) -> Seq<char> {
    "checksum mismatch: stored=0x"@ + hex8(stored) + " computed=0x"@ + hex8(computed)
}

/// Reason for an entry count other than the caller expected.
pub open spec fn count_reason(stored: u32, expected: usize) -> Seq<char> {
    "envelope count "@ + spec_decimal(stored as nat) + " != caller expected "@ + spec_decimal(expected as nat)
}

/// What reading `bytes` as an envelope gives.
pub open spec fn spec_decode_envelope(bytes: Seq<u8>) -> DecodeView {
    if bytes.len() >= 4 && bytes.take(4) == envelope_magic() {
        if bytes.len() < 12 {
            DecodeView::Corrupt(truncated_reason())
        } else {
            let stored = read_le32(bytes, 4);
            let count = read_le32(bytes, 8);
            let payload = bytes.skip(12);
            if crc32_of(payload) != stored {
                DecodeView::Corrupt(checksum_reason(stored, crc32_of(payload)))
            } else {
                DecodeView::Enveloped { payload, count }
            }
        }
    } else {
        DecodeView::LegacyUnvalidated(bytes)
    }
}

fn copy_range(b: &[u8], from: usize) -> (r: Vec<u8>)
    requires
        from <= b@.len(),
    ensures
        r@ == b@.skip(from as int),
{
    let mut out: Vec<u8> = Vec::new();
    let mut i: usize = from;
    while i < b.len()
        invariant
            from <= i <= b.len(),
            out@ == b@.subrange(from as int, i as int),
        decreases b.len() - i,
    {
        out.push(b[i]);
        i += 1;
        assert(out@ =~= b@.subrange(from as int, i as int));
    }
    assert(b@.subrange(from as int, b.len() as int) =~= b@.skip(from as int));
    out
}

/// Reads an envelope: checks the header and the checksum, and hands back
/// the payload with the entry count the header records. A file without the
/// magic is handed back whole as the legacy format.
pub fn decode_envelope(bytes: &[u8]) -> (r: DecodeResult)
    ensures
        r@ == spec_decode_envelope(bytes@),
{
    let has_magic = bytes.len() >= 4 && bytes[0] == 67u8 && bytes[1] == 87u8 && bytes[2] == 49u8
        && bytes[3] == 0u8;
    proof {
        if bytes@.len() >= 4 {
            if has_magic {
                assert(bytes@.take(4) =~= envelope_magic());
            } else {
                assert(bytes@.take(4) != envelope_magic()) by {
                    if bytes@.take(4) == envelope_magic() {
                        assert(bytes@.take(4)[0] == bytes@[0]);
                        assert(bytes@.take(4)[1] == bytes@[1]);
                        assert(bytes@.take(4)[2] == bytes@[2]);
                        assert(bytes@.take(4)[3] == bytes@[3]);
                    }
                }
            }
        }
    }
    if has_magic {
        if bytes.len() < ENVELOPE_HEADER_LEN {
            let mut s = String::new();
            s.append("envelope truncated (< header)");
            assert(s@ =~= truncated_reason());
            return DecodeResult::Corrupt(s);
        }
        let crc_stored = read_le32_at(bytes, 4);
        let count_stored = read_le32_at(bytes, 8);
        let payload = copy_range(bytes, ENVELOPE_HEADER_LEN);
        let crc_computed = crc32(payload.as_slice());
        if crc_computed != crc_stored {
            let mut s = String::new();
            s.append("checksum mismatch: stored=0x");
            push_hex8(&mut s, crc_stored);
            s.append(" computed=0x");
            push_hex8(&mut s, crc_computed);
            assert(payload@ == bytes@.skip(12));
            assert(s@ =~= checksum_reason(crc_stored, crc_computed));
            return DecodeResult::Corrupt(s);
        }
        DecodeResult::Enveloped { payload, count: count_stored }
    } else {
        let whole = copy_range(bytes, 0);
        assert(whole@ =~= bytes@);
        DecodeResult::LegacyUnvalidated(whole)
    }
}

/// An envelope reads back as the payload it wraps, with the count it
/// records.
pub proof fn lemma_envelope_roundtrip(payload: Seq<u8>, count: u32)
    ensures
        spec_decode_envelope(spec_envelope(payload, count)) == (DecodeView::Enveloped { payload, count }),
{
    let b = spec_envelope(payload, count);
    assert(b.take(4) =~= envelope_magic());
    assert(b.skip(12) =~= payload);
    lemma_le32_roundtrip(crc32_of(payload));
    lemma_le32_roundtrip(count);
    assert(read_le32(b, 4) == read_le32(le32(crc32_of(payload)), 0));
    assert(read_le32(b, 8) == read_le32(le32(count), 0));
}

proof fn lemma_crc_round_linear(a: u32, b: u32)
    ensures
        crc_round(a) ^ crc_round(b) == crc_round(a ^ b),
{
    assert(crc_round(a) ^ crc_round(b) == crc_round(a ^ b)) by (bit_vector);
}

proof fn lemma_crc_round_nonzero(c: u32)
    ensures
        c != 0 ==> crc_round(c) != 0,
{
    assert(c != 0 ==> crc_round(c) != 0) by (bit_vector);
}

/// Bit steps are linear over exclusive or.
proof fn lemma_crc_rounds_linear(a: u32, b: u32, n: nat)
    ensures
        crc_rounds(a, n) ^ crc_rounds(b, n) == crc_rounds(a ^ b, n),
    decreases n,
{
    if n > 0 {
        lemma_crc_rounds_linear(a, b, (n - 1) as nat);
        lemma_crc_round_linear(crc_rounds(a, (n - 1) as nat), crc_rounds(b, (n - 1) as nat));
    }
}

/// Bit steps never turn a non-zero register into zero.
proof fn lemma_crc_rounds_nonzero(c: u32, n: nat)
    ensures
        c != 0 ==> crc_rounds(c, n) != 0,
    decreases n,
{
    if n > 0 {
        lemma_crc_rounds_nonzero(c, (n - 1) as nat);
        lemma_crc_round_nonzero(crc_rounds(c, (n - 1) as nat));
    }
}

proof fn lemma_crc_byte_linear(a: u32, b: u32, x: u8, y: u8)
    ensures
        crc_byte(a, x) ^ crc_byte(b, y) == crc_byte(a ^ b, x ^ y),
{
    let ca = a ^ (x as u32);
    let cb = b ^ (y as u32);
    assert((a ^ b) ^ ((x ^ y) as u32) == ca ^ cb) by (bit_vector)
        requires
            ca == a ^ (x as u32),
            cb == b ^ (y as u32),
    ;
    lemma_crc_rounds_linear(ca, cb, 8);
}

proof fn lemma_crc_byte_nonzero(c: u32, x: u8)
    requires
        c ^ (x as u32) != 0,
    ensures
        crc_byte(c, x) != 0,
{
    lemma_crc_rounds_nonzero(c ^ (x as u32), 8);
}

/// The registers of `p` and of `p` with byte `j` flipped by the non-zero
/// mask `m` differ after any prefix that reaches past byte `j`.
proof fn lemma_crc_flip_prefix(p: Seq<u8>, j: int, m: u8, k: int)
    requires
        0 <= j < p.len(),
        m != 0,
        j < k <= p.len(),
    ensures
        crc_register(0xFFFF_FFFFu32, p.take(k)) != crc_register(
            0xFFFF_FFFFu32,
            p.update(j, p[j] ^ m).take(k),
        ),
    decreases k,
{
    let q = p.update(j, p[j] ^ m);
    let a = crc_register(0xFFFF_FFFFu32, p.take(k - 1));
    let b = crc_register(0xFFFF_FFFFu32, q.take(k - 1));
    assert(p.take(k).drop_last() =~= p.take(k - 1));
    assert(q.take(k).drop_last() =~= q.take(k - 1));
    assert(p.take(k).last() == p[k - 1]);
    assert(q.take(k).last() == q[k - 1]);
    lemma_crc_byte_linear(a, b, p[k - 1], q[k - 1]);
    if k - 1 == j {
        assert(p.take(k - 1) =~= q.take(k - 1));
        let x = p[j];
        let y = q[j];
        assert(y == x ^ m);
        assert(a ^ b == 0u32 && x ^ y == m) by (bit_vector)
            requires
                a == b,
                y == x ^ m,
        ;
        assert(0u32 ^ (m as u32) != 0) by (bit_vector)
            requires
                m != 0,
        ;
        lemma_crc_byte_nonzero(0, m);
        let u = crc_byte(a, x);
        let w = crc_byte(b, y);
        let z = crc_byte(0, m);
        assert(u != w) by (bit_vector)
            requires
                u ^ w == z,
                z != 0,
        ;
    } else {
        lemma_crc_flip_prefix(p, j, m, k - 1);
        assert(q[k - 1] == p[k - 1]);
        let x = p[k - 1];
        assert(x ^ x == 0u8) by (bit_vector);
        assert((a ^ b) ^ ((0u8) as u32) == a ^ b) by (bit_vector);
        assert(a ^ b != 0) by (bit_vector)
            requires
                a != b,
        ;
        lemma_crc_byte_nonzero(a ^ b, 0);
        let u = crc_byte(a, x);
        let w = crc_byte(b, x);
        let z = crc_byte(a ^ b, 0);
        assert(u != w) by (bit_vector)
            requires
                u ^ w == z,
                z != 0,
        ;
    }
}

/// Flipping bits of one payload byte changes the checksum, so reading the
/// damaged envelope reports a checksum mismatch.
pub proof fn lemma_flipped_payload_byte_is_detected(payload: Seq<u8>, count: u32, j: int, m: u8)
    requires
        0 <= j < payload.len(),
        m != 0,
    ensures
        ({
            let env = spec_envelope(payload, count);
            let damaged = payload.update(j, payload[j] ^ m);
            &&& crc32_of(damaged) != crc32_of(payload)
            &&& spec_decode_envelope(env.update(12 + j, env[12 + j] ^ m)) == DecodeView::Corrupt(
                checksum_reason(crc32_of(payload), crc32_of(damaged)),
            )
        }),
{
    let env = spec_envelope(payload, count);
    let damaged = payload.update(j, payload[j] ^ m);
    lemma_crc_flip_prefix(payload, j, m, payload.len() as int);
    assert(payload.take(payload.len() as int) =~= payload);
    assert(damaged.take(damaged.len() as int) =~= damaged);
    let r1 = crc_register(0xFFFF_FFFFu32, payload);
    let r2 = crc_register(0xFFFF_FFFFu32, damaged);
    assert(r1 ^ 0xFFFF_FFFFu32 != r2 ^ 0xFFFF_FFFFu32) by (bit_vector)
        requires
            r1 != r2,
    ;
    let b = env.update(12 + j, env[12 + j] ^ m);
    assert(env.skip(12) =~= payload);
    assert(b.take(4) =~= envelope_magic());
    assert(b.skip(12) =~= damaged);
    assert(b.subrange(4, 12) =~= env.subrange(4, 12));
    assert(read_le32(b, 4) == read_le32(env, 4));
    lemma_le32_roundtrip(crc32_of(payload));
    assert(read_le32(env, 4) == read_le32(le32(crc32_of(payload)), 0));
}

proof fn lemma_le32_roundtrip(x: u32)
    ensures
        read_le32(le32(x), 0) == x,
{
    let b0 = (x & 0xff) as u8;
    let b1 = ((x >> 8u32) & 0xff) as u8;
    let b2 = ((x >> 16u32) & 0xff) as u8;
    let b3 = ((x >> 24u32) & 0xff) as u8;
    assert((b0 as u32) | ((b1 as u32) << 8u32) | ((b2 as u32) << 16u32) | ((b3 as u32) << 24u32) == x)
        by (bit_vector)
        requires
            b0 == (x & 0xff) as u8,
            b1 == ((x >> 8u32) & 0xff) as u8,
            b2 == ((x >> 16u32) & 0xff) as u8,
            b3 == ((x >> 24u32) & 0xff) as u8,
    ;
}

} // verus!

verus! {

/// A change to a file of the store directory.
pub enum StoreOp {
    /// Write `bytes` to `name`, durably: to a temporary file first, synced,
    /// then renamed over `name`.
    Write { name: String, bytes: Vec<u8> },
    /// Remove `name` if it exists.
    Remove { name: String },
}

/// The mathematical value of a [`StoreOp`].
pub enum StoreOpView {
    Write { name: Seq<char>, bytes: Seq<u8> },
    Remove { name: Seq<char> },
}

impl View for StoreOp {
    type V = StoreOpView;

    open spec fn view(&self) -> StoreOpView {
        match self {
            StoreOp::Write { name, bytes } => StoreOpView::Write { name: name@, bytes: bytes@ },
            StoreOp::Remove { name } => StoreOpView::Remove { name: name@ },
        }
    }
}

/// File name of slot `slot` (1-9).
pub open spec fn slot_name(slot: int) -> Seq<char> {
    "slot_"@ + spec_decimal(slot as nat) + ".mpk"@
}

/// The change to the file of slot index `i` (0-8): its encoded entry in an
/// envelope of one, or removal when the slot is empty.
pub open spec fn slot_op(i: int, payload: Option<Seq<u8>>) -> StoreOpView {
    match payload {
        Some(p) => StoreOpView::Write { name: slot_name(i + 1), bytes: spec_envelope(p, 1) },
        None => StoreOpView::Remove { name: slot_name(i + 1) },
    }
}

/// The changes a flush makes: one per slot, in slot order, then the ring
/// file, whose envelope records the number of ring entries.
pub open spec fn spec_flush_ops(payloads: Seq<Option<Seq<u8>>>, ring_payload: Seq<u8>, ring_count: u32) -> Seq<StoreOpView> {
    Seq::new(payloads.len(), |i: int| slot_op(i, payloads[i])).push(
        StoreOpView::Write { name: "dynamic_ring.mpk"@, bytes: spec_envelope(ring_payload, ring_count) },
    )
}

pub open spec fn opt_payload_view(o: Option<Vec<u8>>) -> Option<Seq<u8>> {
    match o {
        Some(b) => Some(b@),
        None => None,
    }
}

pub open spec fn payloads_view(v: Seq<Option<Vec<u8>>>) -> Seq<Option<Seq<u8>>> {
    v.map_values(|o: Option<Vec<u8>>| opt_payload_view(o))
}

pub open spec fn ops_view(v: Seq<StoreOp>) -> Seq<StoreOpView> {
    v.map_values(|o: StoreOp| o@)
}

/// One encoded payload per slot, present exactly when the slot holds an
/// entry.
pub open spec fn payloads_match(v: RamView, payloads: Seq<Option<Vec<u8>>>) -> bool {
    &&& payloads.len() == v.slots.len()
    &&& forall|i: int| 0 <= i < payloads.len() ==> (#[trigger] payloads[i] is Some) == (v.slots[i] is Some)
}

/// The changes that write the store to disk, whether or not it changed.
/// `slot_payloads[i]` is the encoded entry of slot `i + 1` (`None` for an
/// empty slot) and `ring_payload` the encoded ring. Once they are all done
/// the store is marked clean and orphaned blobs are collected.
pub fn flush_force(ram: &RamStore, slot_payloads: &Vec<Option<Vec<u8>>>, ring_payload: &[u8]) -> (r: Vec<StoreOp>)
    requires
        ram.wf(),
        payloads_match(ram@, slot_payloads@),
    ensures
        ops_view(r@) == spec_flush_ops(payloads_view(slot_payloads@), ring_payload@, ram@.ring.len() as u32),
        r@.len() == 10,
        forall|i: int| #![trigger r@[i]]
            0 <= i < 9 ==> (r@[i] is Write <==> ram@.slots[i] is Some),
{
    let ghost pv = payloads_view(slot_payloads@);
    let mut ops: Vec<StoreOp> = Vec::new();
    let mut i: usize = 0;
    while i < slot_payloads.len()
        invariant
            pv == payloads_view(slot_payloads@),
            0 <= i <= slot_payloads.len(),
            ops_view(ops@) == Seq::new(i as nat, |j: int| slot_op(j, pv[j])),
        decreases slot_payloads.len() - i,
    {
        let name = crate::names::slot_file_name(i + 1);
        let op = match &slot_payloads[i] {
            Some(p) => StoreOp::Write { name, bytes: wrap_envelope(p.as_slice(), 1) },
            None => StoreOp::Remove { name },
        };
        assert(pv[i as int] == opt_payload_view(slot_payloads@[i as int]));
        assert(op@ == slot_op(i as int, pv[i as int]));
        let ghost prev = ops_view(ops@);
        ops.push(op);
        assert(ops_view(ops@) =~= prev.push(slot_op(i as int, pv[i as int])));
        i += 1;
        assert(ops_view(ops@) =~= Seq::new(i as nat, |j: int| slot_op(j, pv[j])));
    }
    let count = ram.ring_len() as u32;
    let ring = StoreOp::Write {
        name: String::from_str(crate::names::ring_file_name()),
        bytes: wrap_envelope(ring_payload, count),
    };
    ops.push(ring);
    assert(ops_view(ops@) =~= spec_flush_ops(pv, ring_payload@, ram@.ring.len() as u32));
    assert forall|i: int| #![trigger ops@[i]] 0 <= i < 9 implies (ops@[i] is Write <==> ram@.slots[i] is Some) by {
        assert(ops_view(ops@)[i] == ops@[i]@);
        assert(ops_view(ops@)[i] == slot_op(i, pv[i]));
        assert(pv[i] == opt_payload_view(slot_payloads@[i]));
        assert((slot_payloads@[i] is Some) == (ram@.slots[i] is Some));
    }
    ops
}

/// The periodic flush: nothing when the store has not changed since the
/// last flush, else the changes of [`flush_force`].
pub fn flush(ram: &RamStore, slot_payloads: &Vec<Option<Vec<u8>>>, ring_payload: &[u8]) -> (r: Option<Vec<StoreOp>>)
    requires
        ram.wf(),
        payloads_match(ram@, slot_payloads@),
    ensures
        r is None <==> !ram@.dirty,
        r matches Some(ops) ==> ops_view(ops@) == spec_flush_ops(
            payloads_view(slot_payloads@),
            ring_payload@,
            ram@.ring.len() as u32,
        ),
{
    if !ram.is_dirty() {
        return None;
    }
    Some(flush_force(ram, slot_payloads, ring_payload))
}

/// Every file a flush writes reads back, with its checksum passing, as the
/// payload it was written from: each slot file as an envelope of one entry,
/// the ring file as an envelope of the ring's entry count.
pub proof fn lemma_flush_files_read_back(payloads: Seq<Option<Seq<u8>>>, ring_payload: Seq<u8>, ring_count: u32)
    ensures
        ({
            let ops = spec_flush_ops(payloads, ring_payload, ring_count);
            &&& ops.len() == payloads.len() + 1
            &&& forall|i: int| #![trigger ops[i]]
                0 <= i < payloads.len() ==> match payloads[i] {
                    Some(p) => ops[i] matches StoreOpView::Write { name, bytes } && name == slot_name(i + 1)
                        && spec_decode_envelope(bytes) == (DecodeView::Enveloped { payload: p, count: 1 }),
                    None => ops[i] == StoreOpView::Remove { name: slot_name(i + 1) },
                }
            &&& ops.last() matches StoreOpView::Write { name, bytes } && name == "dynamic_ring.mpk"@
                && spec_decode_envelope(bytes) == (DecodeView::Enveloped {
                payload: ring_payload,
                count: ring_count,
            })
        }),
{
    let ops = spec_flush_ops(payloads, ring_payload, ring_count);
    assert forall|i: int| #![trigger ops[i]] 0 <= i < payloads.len() implies match payloads[i] {
        Some(p) => ops[i] matches StoreOpView::Write { name, bytes } && name == slot_name(i + 1)
            && spec_decode_envelope(bytes) == (DecodeView::Enveloped { payload: p, count: 1 }),
        None => ops[i] == StoreOpView::Remove { name: slot_name(i + 1) },
    } by {
        if let Some(p) = payloads[i] {
            lemma_envelope_roundtrip(p, 1);
        }
    }
    lemma_envelope_roundtrip(ring_payload, ring_count);
}

/// Settles a flush once its file changes were carried out: the store is
/// marked clean only when every change succeeded, and stays as it was (so a
/// later flush retries) when any failed.
pub fn finish_flush(ram: &mut RamStore, all_written: bool)
    requires
        old(ram).wf(),
    ensures
        final(ram).wf(),
        final(ram)@ == (RamView { dirty: old(ram)@.dirty && !all_written, ..old(ram)@ }),
{
    if all_written {
        ram.clear_dirty();
    }
}

/// What reading one store file gave.
pub enum FileRead<T> {
    /// No such file, or it could not be read.
    Absent,
    /// An envelope whose checks passed, with the decoded value.
    Validated(T),
    /// The older bare format, decoded without checks.
    Legacy(T),
    /// Unusable, with the reason; the file is set aside.
    Corrupt(String),
}

/// The entry a slot file yielded.
pub open spec fn read_entry(r: FileRead<ClipEntry>) -> Option<ClipEntryView> {
    match r {
        FileRead::Validated(e) => Some(e@),
        FileRead::Legacy(e) => Some(e@),
        _ => None,
    }
}

pub open spec fn is_legacy<T>(r: FileRead<T>) -> bool {
    r is Legacy
}

/// What an enveloped file yields once its payload has been decoded
/// (`decoded` holds the decoder's error text on failure): a decoding
/// failure makes it corrupt; otherwise the recorded entry count must be the
/// one the caller expects, when it expects one.
pub open spec fn spec_finish_enveloped<T>(decoded: Result<T, String>, count: u32, expected_count: Option<usize>) -> FileReadView<T> {
    match decoded {
        Err(e) => FileReadView::Corrupt("decode failed: "@ + e@),
        Ok(v) => match expected_count {
            Some(x) => if x != count as usize {
                FileReadView::Corrupt(count_reason(count, x))
            } else {
                FileReadView::Validated(v)
            },
            None => FileReadView::Validated(v),
        },
    }
}

/// What a file in the older bare format yields once decoded.
pub open spec fn spec_finish_legacy<T>(decoded: Result<T, String>) -> FileReadView<T> {
    match decoded {
        Err(e) => FileReadView::Corrupt("legacy decode failed: "@ + e@),
        Ok(v) => FileReadView::Legacy(v),
    }
}

/// The mathematical value of a [`FileRead`]: its reason as text.
pub enum FileReadView<T> {
    Absent,
    Validated(T),
    Legacy(T),
    Corrupt(Seq<char>),
}

pub open spec fn file_read_view<T>(r: FileRead<T>) -> FileReadView<T> {
    match r {
        FileRead::Absent => FileReadView::Absent,
        FileRead::Validated(v) => FileReadView::Validated(v),
        FileRead::Legacy(v) => FileReadView::Legacy(v),
        FileRead::Corrupt(s) => FileReadView::Corrupt(s@),
    }
}

/// Completes reading an enveloped file from the decoded payload (see
/// [`spec_finish_enveloped`]).
pub fn finish_enveloped<T>(decoded: Result<T, String>, count: u32, expected_count: Option<usize>) -> (r: FileRead<T>)
    ensures
        file_read_view(r) == spec_finish_enveloped(decoded, count, expected_count),
{
    match decoded {
        Err(e) => {
            let mut s = String::from_str("decode failed: ");
            s.append(e.as_str());
            FileRead::Corrupt(s)
        },
        Ok(v) => {
            if let Some(expected) = expected_count {
                if expected as u64 != count as u64 {
                    let mut s = String::new();
                    s.append("envelope count ");
                    push_decimal(&mut s, count as u64);
                    s.append(" != caller expected ");
                    push_decimal(&mut s, expected as u64);
                    assert(s@ =~= count_reason(count, expected));
                    return FileRead::Corrupt(s);
                }
            }
            FileRead::Validated(v)
        },
    }
}

/// Completes reading a file in the older format from its decoded contents
/// (see [`spec_finish_legacy`]).
pub fn finish_legacy<T>(decoded: Result<T, String>) -> (r: FileRead<T>)
    ensures
        file_read_view(r) == spec_finish_legacy(decoded),
{
    match decoded {
        Err(e) => {
            let mut s = String::from_str("legacy decode failed: ");
            s.append(e.as_str());
            FileRead::Corrupt(s)
        },
        Ok(v) => FileRead::Legacy(v),
    }
}

/// A slot file written by a flush and decoded back to a value is validated,
/// whatever the value: its recorded count of one is what a slot expects.
/// A ring file is validated whether or not a count is expected, as long as
/// it is the one recorded.
pub proof fn lemma_flushed_file_is_validated<T>(v: T, count: u32)
    ensures
        spec_finish_enveloped(Ok::<T, String>(v), 1, Some(1)) == FileReadView::Validated(v),
        spec_finish_enveloped(Ok::<T, String>(v), count, None) == FileReadView::Validated(v),
        spec_finish_enveloped(Ok::<T, String>(v), count, Some(count as usize)) == FileReadView::Validated(v),
{
}

/// Number of slot files that yielded an entry.
pub open spec fn count_loaded(reads: Seq<FileRead<ClipEntry>>) -> nat
    decreases reads.len(),
{
    if reads.len() == 0 {
        0
    } else {
        count_loaded(reads.drop_last()) + if read_entry(reads.last()) is Some { 1nat } else { 0nat }
    }
}

/// What loading the store gave.
pub struct LoadReport {
    pub loaded_slots: usize,
    pub loaded_dynamic: usize,
    /// Some file was in the older format: the store has been marked changed
    /// and should be flushed at once so every file gets an envelope.
    pub needs_rewrite: bool,
}

/// The ring entries a ring file yielded, in file order, and whether they
/// are trimmed to the capacity.
pub open spec fn ring_read(r: FileRead<Vec<ClipEntry>>) -> Option<(Seq<ClipEntryView>, bool)> {
    match r {
        FileRead::Validated(es) => Some((es@.map_values(|e: ClipEntry| e@), true)),
        FileRead::Legacy(es) => Some((es@.map_values(|e: ClipEntry| e@), false)),
        _ => None,
    }
}

/// The ring entries kept from a ring file: newest first, trimmed to
/// `capacity` when the file was validated.
pub open spec fn ring_kept(r: FileRead<Vec<ClipEntry>>, capacity: int) -> Seq<ClipEntryView> {
    match ring_read(r) {
        Some((es, validated)) => {
            let sorted = sort_newest_first(es);
            if validated && sorted.len() > capacity {
                sorted.take(capacity)
            } else {
                sorted
            }
        },
        None => Seq::empty(),
    }
}

/// Loads what the store files yielded into a fresh store: each slot file's
/// entry into its slot, and the ring entries, newest first, after the
/// ring's current entries — trimmed to the capacity when the file was
/// validated. Files in the older format mark the store as changed.
pub fn load(ram: &mut RamStore, slots: Vec<FileRead<ClipEntry>>, ring: FileRead<Vec<ClipEntry>>) -> (r: LoadReport)
    requires
        old(ram).wf(),
        slots.len() == 9,
    ensures
        final(ram).wf(),
        r.loaded_slots == count_loaded(slots@),
        r.needs_rewrite == ((exists|i: int| 0 <= i < 9 && is_legacy(#[trigger] slots@[i])) || is_legacy(ring)),
        final(ram)@.slots == Seq::new(
            9,
            |i: int| match read_entry(slots@[i]) {
                Some(e) => Some(e),
                None => old(ram)@.slots[i],
            },
        ),
        final(ram)@.ring == old(ram)@.ring + ring_kept(ring, old(ram)@.capacity),
        r.loaded_dynamic == ring_kept(ring, old(ram)@.capacity).len(),
        final(ram)@.dirty == (old(ram)@.dirty || r.needs_rewrite),
        final(ram)@.static_cursor == old(ram)@.static_cursor,
        final(ram)@.dynamic_cursor == old(ram)@.dynamic_cursor,
        final(ram)@.capacity == old(ram)@.capacity,
        final(ram)@.last_nav == old(ram)@.last_nav,
{
    let ghost sv = slots@;
    let ghost v0 = ram@;
    let mut needs_rewrite = false;
    let mut loaded_slots: usize = 0;
    let mut reads = slots;
    let mut i: usize = 0;
    assert(sv.take(0) =~= Seq::<FileRead<ClipEntry>>::empty());
    while reads.len() > 0
        invariant
            ram.wf(),
            0 <= i <= 9,
            reads@ == sv.skip(i as int),
            sv.len() == 9,
            loaded_slots == count_loaded(sv.take(i as int)),
            loaded_slots <= i,
            needs_rewrite == (exists|j: int| 0 <= j < i && is_legacy(#[trigger] sv[j])),
            ram@.slots == Seq::new(
                9,
                |j: int| if j < i {
                    match read_entry(sv[j]) {
                        Some(e) => Some(e),
                        None => v0.slots[j],
                    }
                } else {
                    v0.slots[j]
                },
            ),
            ram@ == (RamView { slots: ram@.slots, ..v0 }),
        decreases reads.len(),
    {
        let ghost before = reads@;
        let read = reads.remove(0);
        assert(read == sv[i as int]);
        assert(reads@ =~= sv.skip(i + 1));
        assert(sv.take(i + 1).drop_last() =~= sv.take(i as int));
        assert(sv.take(i + 1).last() == sv[i as int]);
        match read {
            FileRead::Validated(e) => {
                ram.load_static_slot(i, e);
                loaded_slots += 1;
            },
            FileRead::Legacy(e) => {
                ram.load_static_slot(i, e);
                loaded_slots += 1;
                needs_rewrite = true;
            },
            _ => {},
        }
        i += 1;
        assert(ram@.slots =~= Seq::new(
            9,
            |j: int| if j < i {
                match read_entry(sv[j]) {
                    Some(e) => Some(e),
                    None => v0.slots[j],
                }
            } else {
                v0.slots[j]
            },
        ));
    }
    assert(sv.take(9) =~= sv);
    let mut loaded_dynamic: usize = 0;
    match ring {
        FileRead::Validated(entries) => {
            loaded_dynamic = ram.load_ring(entries, true);
        },
        FileRead::Legacy(entries) => {
            loaded_dynamic = ram.load_ring(entries, false);
            needs_rewrite = true;
        },
        _ => {},
    }
    if needs_rewrite {
        ram.mark_dirty();
    }
    LoadReport { loaded_slots, loaded_dynamic, needs_rewrite }
}

} // verus!

verus! {

/// A fresh store loaded from files that read back as what a flush wrote —
/// each slot file yielding its slot's entry (an empty slot, no file), the
/// ring file validated with the ring's entries — comes back as it was: the
/// same slots, and the same ring entries ordered newest first (entries with
/// equal timestamps keep their ring order), none dropped while the capacity
/// holds them, and the store not marked changed.
pub proof fn lemma_load_restores_flushed_store(
    v0: RamView,
    fresh: RamView,
    slots: Seq<FileRead<ClipEntry>>,
    ring: FileRead<Vec<ClipEntry>>,
)
    requires
        view_wf(v0),
        slots.len() == 9,
        fresh.slots == Seq::new(9, |i: int| None::<ClipEntryView>),
        fresh.ring.len() == 0,
        fresh.capacity >= v0.ring.len(),
        forall|i: int| 0 <= i < 9 ==> read_entry(#[trigger] slots[i]) == v0.slots[i],
        forall|i: int| 0 <= i < 9 ==> !is_legacy(#[trigger] slots[i]),
        ring_read(ring) == Some((v0.ring, true)),
    ensures
        Seq::new(
            9,
            |i: int| match read_entry(slots[i]) {
                Some(e) => Some(e),
                None => fresh.slots[i],
            },
        ) == v0.slots,
        fresh.ring + ring_kept(ring, fresh.capacity) == sort_newest_first(v0.ring),
        sort_newest_first(v0.ring).to_multiset() == v0.ring.to_multiset(),
        forall|i: int, j: int|
            0 <= i < j < v0.ring.len() ==> sort_newest_first(v0.ring)[i].timestamp >= sort_newest_first(
                v0.ring,
            )[j].timestamp,
        !((exists|i: int| 0 <= i < 9 && is_legacy(#[trigger] slots[i])) || is_legacy(ring)),
{
    lemma_sort_newest_first_sorted(v0.ring);
    assert(Seq::new(
        9,
        |i: int| match read_entry(slots[i]) {
            Some(e) => Some(e),
            None => fresh.slots[i],
        },
    ) =~= v0.slots);
    assert(fresh.ring + ring_kept(ring, fresh.capacity) =~= sort_newest_first(v0.ring));
}

} // verus!
