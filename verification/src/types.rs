//! Clipboard payloads and entries.

use vstd::prelude::*;
use vstd::std_specs::cmp::PartialEqSpecImpl;
use vstd::string::*;
use vstd::utf8::encode_utf8;

verus! {

pub type EntryId = u64;

/// Which byte-backed variant a spilled blob was produced from, with the
/// metadata needed to rebuild it when the blob is loaded back.
#[derive(Debug, Clone, Copy, PartialEq, Eq, Structural)]
pub enum SpilledKind {
    RichText,
    Image { width: usize, height: usize },
    Binary,
}

pub open spec fn spec_kind_label(kind: SpilledKind) -> Seq<char> {
    match kind {
        SpilledKind::RichText => "RichText"@,
        SpilledKind::Image { .. } => "Image"@,
        SpilledKind::Binary => "Binary"@,
    }
}

fn kinds_eq(a: &SpilledKind, b: &SpilledKind) -> (r: bool)
    ensures
        r == (*a == *b),
{
    match (a, b) {
        (SpilledKind::RichText, SpilledKind::RichText) => true,
        (SpilledKind::Binary, SpilledKind::Binary) => true,
        (SpilledKind::Image { width: aw, height: ah }, SpilledKind::Image { width: bw, height: bh }) => *aw
            == *bw && *ah == *bh,
        _ => false,
    }
}

impl SpilledKind {
    /// The name of the variant the blob was spilled from.
    pub fn type_label(&self) -> (r: &'static str)
        ensures
            r@ == spec_kind_label(*self),
    {
        match self {
            SpilledKind::RichText => "RichText",
            SpilledKind::Image { .. } => "Image",
            SpilledKind::Binary => "Binary",
        }
    }
}

/// A clipboard payload.
#[derive(Debug)]
pub enum ClipData {
    PlainText(String),
    RichText(Vec<u8>),
    /// PNG bytes and the original dimensions.
    Image { bytes: Vec<u8>, width: usize, height: usize },
    /// Pointer-style: the paths only, never the files' bytes.
    FilePath(Vec<String>),
    Binary(Vec<u8>),
    /// A large entry whose bytes live in a blob file on disk; only this small
    /// descriptor stays in memory. Must remain the last variant so stored
    /// data keeps its variant indices.
    Spilled {
        /// Id of the backing blob file, equal to the owning entry's id.
        blob_id: EntryId,
        /// Original variant and what is needed to rebuild it.
        kind: SpilledKind,
        /// Size of the spilled bytes.
        size: usize,
        /// CRC32 of the spilled bytes.
        hash: u32,
    },
}

/// The mathematical value of a [`ClipData`].
pub enum ClipDataView {
    PlainText(Seq<char>),
    RichText(Seq<u8>),
    Image { bytes: Seq<u8>, width: usize, height: usize },
    FilePath(Seq<Seq<char>>),
    Binary(Seq<u8>),
    Spilled { blob_id: EntryId, kind: SpilledKind, size: usize, hash: u32 },
}

pub open spec fn strings_view(v: Seq<String>) -> Seq<Seq<char>> {
    v.map_values(|s: String| s@)
}

impl View for ClipData {
    type V = ClipDataView;

    open spec fn view(&self) -> ClipDataView {
        match self {
            ClipData::PlainText(s) => ClipDataView::PlainText(s@),
            ClipData::RichText(b) => ClipDataView::RichText(b@),
            ClipData::Image { bytes, width, height } => ClipDataView::Image {
                bytes: bytes@,
                width: *width,
                height: *height,
            },
            ClipData::FilePath(p) => ClipDataView::FilePath(strings_view(p@)),
            ClipData::Binary(b) => ClipDataView::Binary(b@),
            ClipData::Spilled { blob_id, kind, size, hash } => ClipDataView::Spilled {
                blob_id: *blob_id,
                kind: *kind,
                size: *size,
                hash: *hash,
            },
        }
    }
}

pub open spec fn spec_data_label(d: ClipDataView) -> Seq<char> {
    match d {
        ClipDataView::PlainText(_) => "PlainText"@,
        ClipDataView::RichText(_) => "RichText"@,
        ClipDataView::Image { .. } => "Image"@,
        ClipDataView::FilePath(_) => "FilePath"@,
        ClipDataView::Binary(_) => "Binary"@,
        ClipDataView::Spilled { kind, .. } => spec_kind_label(kind),
    }
}

/// Number of UTF-8 bytes of a text.
pub open spec fn utf8_len(s: Seq<char>) -> nat {
    encode_utf8(s).len()
}

/// Total UTF-8 length of a list of paths.
pub open spec fn paths_len(p: Seq<Seq<char>>) -> nat
    decreases p.len(),
{
    if p.len() == 0 {
        0
    } else {
        paths_len(p.drop_last()) + utf8_len(p.last())
    }
}

/// The size an entry's payload occupies (or would occupy) in memory.
pub open spec fn spec_size_bytes(d: ClipDataView) -> nat {
    match d {
        ClipDataView::PlainText(s) => utf8_len(s),
        ClipDataView::RichText(b) => b.len(),
        ClipDataView::Image { bytes, .. } => bytes.len(),
        ClipDataView::Binary(b) => b.len(),
        ClipDataView::FilePath(p) => paths_len(p),
        ClipDataView::Spilled { size, .. } => size as nat,
    }
}

/// Content equality: two spilled descriptors are equal when they describe
/// the same content (kind, size and CRC), whichever blob backs them; every
/// other pair compares by value.
pub open spec fn spec_content_eq(a: ClipDataView, b: ClipDataView) -> bool {
    match (a, b) {
        (ClipDataView::PlainText(x), ClipDataView::PlainText(y)) => x == y,
        (ClipDataView::RichText(x), ClipDataView::RichText(y)) => x == y,
        (
            ClipDataView::Image { bytes: ab, width: aw, height: ah },
            ClipDataView::Image { bytes: bb, width: bw, height: bh },
        ) => ab == bb && aw == bw && ah == bh,
        (ClipDataView::FilePath(x), ClipDataView::FilePath(y)) => x == y,
        (ClipDataView::Binary(x), ClipDataView::Binary(y)) => x == y,
        (
            ClipDataView::Spilled { kind: ak, size: asz, hash: ah, .. },
            ClipDataView::Spilled { kind: bk, size: bsz, hash: bh, .. },
        ) => ak == bk && asz == bsz && ah == bh,
        _ => false,
    }
}

pub open spec fn spec_is_spilled(d: ClipDataView) -> bool {
    d is Spilled
}

/// Byte-for-byte equality of two byte vectors.
pub fn bytes_eq(a: &Vec<u8>, b: &Vec<u8>) -> (r: bool)
    ensures
        r == (a@ == b@),
{
    if a.len() != b.len() {
        return false;
    }
    let mut i: usize = 0;
    while i < a.len()
        invariant
            a.len() == b.len(),
            0 <= i <= a.len(),
            forall|j: int| 0 <= j < i ==> a@[j] == b@[j],
        decreases a.len() - i,
    {
        if a[i] != b[i] {
            return false;
        }
        i += 1;
    }
    assert(a@ =~= b@);
    true
}

fn strings_eq(a: &Vec<String>, b: &Vec<String>) -> (r: bool)
    ensures
        r == (strings_view(a@) == strings_view(b@)),
{
    if a.len() != b.len() {
        assert(strings_view(a@).len() != strings_view(b@).len());
        return false;
    }
    let mut i: usize = 0;
    while i < a.len()
        invariant
            a.len() == b.len(),
            0 <= i <= a.len(),
            forall|j: int| 0 <= j < i ==> a@[j]@ == b@[j]@,
        decreases a.len() - i,
    {
        if a[i] != b[i] {
            assert(strings_view(a@)[i as int] != strings_view(b@)[i as int]);
            return false;
        }
        i += 1;
    }
    assert(strings_view(a@) =~= strings_view(b@));
    true
}

/// A copy of a byte vector.
pub fn copy_bytes(b: &Vec<u8>) -> (r: Vec<u8>)
    ensures
        r@ == b@,
{
    let mut out: Vec<u8> = Vec::new();
    let mut i: usize = 0;
    while i < b.len()
        invariant
            0 <= i <= b.len(),
            out@ == b@.subrange(0, i as int),
        decreases b.len() - i,
    {
        out.push(b[i]);
        i += 1;
        assert(out@ =~= b@.subrange(0, i as int));
    }
    assert(b@.subrange(0, b.len() as int) =~= b@);
    out
}

fn copy_strings(p: &Vec<String>) -> (r: Vec<String>)
    ensures
        strings_view(r@) == strings_view(p@),
{
    let mut out: Vec<String> = Vec::new();
    let mut i: usize = 0;
    while i < p.len()
        invariant
            0 <= i <= p.len(),
            out.len() == i,
            forall|j: int| 0 <= j < i ==> out@[j]@ == p@[j]@,
        decreases p.len() - i,
    {
        out.push(p[i].clone());
        i += 1;
    }
    assert(strings_view(out@) =~= strings_view(p@));
    out
}

impl ClipData {
    /// The name of the payload's variant; a spilled descriptor reports the
    /// variant it was spilled from.
    pub fn type_label(&self) -> (r: &'static str)
        ensures
            r@ == spec_data_label(self@),
    {
        match self {
            ClipData::PlainText(_) => "PlainText",
            ClipData::RichText(_) => "RichText",
            ClipData::Image { .. } => "Image",
            ClipData::FilePath(_) => "FilePath",
            ClipData::Binary(_) => "Binary",
            ClipData::Spilled { kind, .. } => kind.type_label(),
        }
    }

    /// Payload size in bytes: text and path lengths in UTF-8 bytes, byte
    /// payloads by length, and a spilled descriptor by the size of the bytes
    /// it stands for.
    pub fn size_bytes(&self) -> (r: usize)
        requires
            spec_size_bytes(self@) <= usize::MAX,
        ensures
            r == spec_size_bytes(self@),
    {
        match self {
            ClipData::PlainText(s) => s.as_str().len(),
            ClipData::RichText(b) => b.len(),
            ClipData::Image { bytes, .. } => bytes.len(),
            ClipData::Binary(b) => b.len(),
            ClipData::FilePath(paths) => {
                let mut total: usize = 0;
                let mut i: usize = 0;
                let ghost pv = strings_view(paths@);
                while i < paths.len()
                    invariant
                        0 <= i <= paths.len(),
                        pv == strings_view(paths@),
                        paths_len(pv) <= usize::MAX,
                        total == paths_len(pv.subrange(0, i as int)),
                    decreases paths.len() - i,
                {
                    proof {
                        lemma_paths_len_prefix_monotone(pv, i as int + 1);
                        assert(pv.subrange(0, i as int + 1).drop_last() =~= pv.subrange(0, i as int));
                    }
                    total = total + paths[i].as_str().len();
                    i += 1;
                }
                assert(pv.subrange(0, paths.len() as int) =~= pv);
                total
            },
            ClipData::Spilled { size, .. } => *size,
        }
    }

    /// True when the payload lives on disk (a [`ClipData::Spilled`]
    /// descriptor).
    pub fn is_spilled(&self) -> (r: bool)
        ensures
            r == spec_is_spilled(self@),
    {
        match self {
            ClipData::Spilled { .. } => true,
            _ => false,
        }
    }

    /// Content equality (see [`spec_content_eq`]).
    pub fn content_eq(&self, other: &ClipData) -> (r: bool)
        ensures
            r == spec_content_eq(self@, other@),
    {
        match self {
            ClipData::PlainText(a) => match other {
                ClipData::PlainText(b) => a.eq(b),
                _ => false,
            },
            ClipData::RichText(a) => match other {
                ClipData::RichText(b) => bytes_eq(a, b),
                _ => false,
            },
            ClipData::Image { bytes: ab, width: aw, height: ah } => match other {
                ClipData::Image { bytes: bb, width: bw, height: bh } => bytes_eq(ab, bb) && *aw == *bw
                    && *ah == *bh,
                _ => false,
            },
            ClipData::FilePath(a) => match other {
                ClipData::FilePath(b) => strings_eq(a, b),
                _ => false,
            },
            ClipData::Binary(a) => match other {
                ClipData::Binary(b) => bytes_eq(a, b),
                _ => false,
            },
            ClipData::Spilled { kind: ak, size: asz, hash: ah, .. } => match other {
                ClipData::Spilled { kind: bk, size: bsz, hash: bh, .. } => kinds_eq(ak, bk) && *asz
                    == *bsz && *ah == *bh,
                _ => false,
            },
        }
    }

    /// A deep copy.
    pub fn duplicate(&self) -> (r: ClipData)
        ensures
            r@ == self@,
    {
        match self {
            ClipData::PlainText(s) => ClipData::PlainText(s.clone()),
            ClipData::RichText(b) => ClipData::RichText(copy_bytes(b)),
            ClipData::Image { bytes, width, height } => ClipData::Image {
                bytes: copy_bytes(bytes),
                width: *width,
                height: *height,
            },
            ClipData::FilePath(p) => ClipData::FilePath(copy_strings(p)),
            ClipData::Binary(b) => ClipData::Binary(copy_bytes(b)),
            ClipData::Spilled { blob_id, kind, size, hash } => ClipData::Spilled {
                blob_id: *blob_id,
                kind: *kind,
                size: *size,
                hash: *hash,
            },
        }
    }
}

proof fn lemma_paths_len_prefix_monotone(p: Seq<Seq<char>>, i: int)
    requires
        0 <= i <= p.len(),
    ensures
        paths_len(p.subrange(0, i)) <= paths_len(p),
    decreases p.len() - i,
{
    if i < p.len() {
        lemma_paths_len_prefix_monotone(p, i + 1);
        assert(p.subrange(0, i + 1).drop_last() =~= p.subrange(0, i));
    } else {
        assert(p.subrange(0, i) =~= p);
    }
}

impl Clone for ClipData {
    fn clone(&self) -> (r: Self)
        ensures
            r@ == self@,
    {
        self.duplicate()
    }
}

impl PartialEq for ClipData {
    fn eq(&self, other: &Self) -> (r: bool) {
        self.content_eq(other)
    }
}

impl PartialEqSpecImpl for ClipData {
    open spec fn obeys_eq_spec() -> bool {
        true
    }

    open spec fn eq_spec(&self, other: &ClipData) -> bool {
        spec_content_eq(self@, other@)
    }
}

/// Content equality is an equivalence relation: reflexive, symmetric and
/// transitive.
pub proof fn lemma_content_eq_is_equivalence(a: ClipDataView, b: ClipDataView, c: ClipDataView)
    ensures
        spec_content_eq(a, a),
        spec_content_eq(a, b) ==> spec_content_eq(b, a),
        spec_content_eq(a, b) && spec_content_eq(b, c) ==> spec_content_eq(a, c),
{
}

/// Two spilled descriptors of the same content are equal whichever blobs
/// back them, and differ as soon as kind, size or checksum differ.
pub proof fn lemma_spilled_eq_ignores_blob_id(
    id1: EntryId,
    id2: EntryId,
    k1: SpilledKind,
    k2: SpilledKind,
    s1: usize,
    s2: usize,
    h1: u32,
    h2: u32,
)
    ensures
        spec_content_eq(
            ClipDataView::Spilled { blob_id: id1, kind: k1, size: s1, hash: h1 },
            ClipDataView::Spilled { blob_id: id2, kind: k2, size: s2, hash: h2 },
        ) <==> (k1 == k2 && s1 == s2 && h1 == h2),
{
}

/// A spilled descriptor never equals a resident payload, and a resident
/// payload equals exactly the values that are the same.
pub proof fn lemma_spilled_never_equals_resident(a: ClipDataView, b: ClipDataView)
    ensures
        spec_is_spilled(a) != spec_is_spilled(b) ==> !spec_content_eq(a, b),
        !spec_is_spilled(a) ==> (spec_content_eq(a, b) <==> a == b),
{
}

/// One clipboard entry.
#[derive(Debug)]
pub struct ClipEntry {
    pub id: EntryId,
    /// Capture time, nanoseconds since the Unix epoch (UTC).
    pub timestamp: i64,
    pub data: ClipData,
    pub encrypted: bool,
    pub label: Option<String>,
}

/// The mathematical value of a [`ClipEntry`].
pub struct ClipEntryView {
    pub id: EntryId,
    pub timestamp: i64,
    pub data: ClipDataView,
    pub encrypted: bool,
    pub label: Option<Seq<char>>,
}

impl View for ClipEntry {
    type V = ClipEntryView;

    open spec fn view(&self) -> ClipEntryView {
        ClipEntryView {
            id: self.id,
            timestamp: self.timestamp,
            data: self.data@,
            encrypted: self.encrypted,
            label: match self.label {
                Some(l) => Some(l@),
                None => None,
            },
        }
    }
}

impl ClipEntry {
    /// A fresh, unencrypted, unlabelled entry captured at `timestamp`.
    pub fn new(id: EntryId, data: ClipData, timestamp: i64) -> (r: Self)
        ensures
            r.id == id,
            r.timestamp == timestamp,
            r.data@ == data@,
            !r.encrypted,
            r.label is None,
    {
        ClipEntry { id, timestamp, data, encrypted: false, label: None }
    }

    /// A deep copy.
    pub fn duplicate(&self) -> (r: ClipEntry)
        ensures
            r@ == self@,
    {
        ClipEntry {
            id: self.id,
            timestamp: self.timestamp,
            data: self.data.duplicate(),
            encrypted: self.encrypted,
            label: match &self.label {
                Some(l) => Some(l.clone()),
                None => None,
            },
        }
    }
}

impl Clone for ClipEntry {
    fn clone(&self) -> (r: Self)
        ensures
            r@ == self@,
    {
        self.duplicate()
    }
}

} // verus!
