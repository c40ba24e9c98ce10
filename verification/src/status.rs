//! The status report: what is known about the daemon and the stores, as
//! the lines printed by `clipwallet status`.

use vstd::prelude::*;
use vstd::string::*;
use vstd::utf8::encode_utf8;
use crate::answers::{spec_trim, trim};
use crate::decimal::{push_decimal, spec_decimal};
use crate::names::ends_with;
use crate::types::strings_view;

verus! {

/// What is known of the ring file.
#[derive(Debug, Clone, Copy, PartialEq, Eq, Structural)]
pub enum RingFile {
    /// There is none.
    Missing,
    /// It exists but its size could not be read.
    Unreadable,
    /// Its size in bytes.
    Size(u64),
}

/// The facts the report is made of.
pub struct StatusFacts {
    /// What `pgrep -x clipwallet` printed, when it printed anything.
    pub pgrep_output: Option<String>,
    /// The launchd agent's plist is installed.
    pub launchd_registered: bool,
    /// Number of slot files in the store.
    pub slot_files: usize,
    pub ring_file: RingFile,
    /// Blob files on disk and their total size.
    pub blob_count: usize,
    pub blob_bytes: u64,
    /// Files in the vault directory.
    pub vault_files: usize,
    pub log_dir: String,
    pub store_dir: String,
    pub vault_dir: String,
}

/// `.blob` as bytes.
pub open spec fn blob_suffix() -> Seq<u8> {
    seq![46u8, 98u8, 108u8, 111u8, 98u8]
}

/// The file name has the extension `blob`: it ends in `.blob` and has a
/// stem before it.
pub open spec fn has_blob_extension(name: Seq<char>) -> bool {
    let b = encode_utf8(name);
    ends_with(b, blob_suffix()) && b.len() > 5
}

/// Number of blob files among `names`.
pub open spec fn blob_file_count(names: Seq<Seq<char>>) -> nat
    decreases names.len(),
{
    if names.len() == 0 {
        0
    } else {
        blob_file_count(names.drop_last()) + if has_blob_extension(names.last()) { 1nat } else { 0nat }
    }
}

/// Total size of the blob files among `names`, with sizes `sizes`.
pub open spec fn blob_file_bytes(names: Seq<Seq<char>>, sizes: Seq<u64>) -> nat
    decreases names.len(),
{
    if names.len() == 0 || sizes.len() == 0 {
        0
    } else {
        blob_file_bytes(names.drop_last(), sizes.drop_last()) + if has_blob_extension(names.last()) {
            sizes.last() as nat
        } else {
            0nat
        }
    }
}

proof fn lemma_blob_bytes_prefix(names: Seq<Seq<char>>, sizes: Seq<u64>, i: int)
    requires
        names.len() == sizes.len(),
        0 <= i <= names.len(),
    ensures
        blob_file_bytes(names.take(i), sizes.take(i)) <= blob_file_bytes(names, sizes),
    decreases names.len() - i,
{
    if i < names.len() {
        lemma_blob_bytes_prefix(names, sizes, i + 1);
        assert(names.take(i + 1).drop_last() =~= names.take(i));
        assert(sizes.take(i + 1).drop_last() =~= sizes.take(i));
    } else {
        assert(names.take(i) =~= names);
        assert(sizes.take(i) =~= sizes);
    }
}

fn has_blob_ext(name: &str) -> (r: bool)
    ensures
        r == has_blob_extension(name@),
{
    let b = name.as_bytes();
    if b.len() <= 5 {
        return false;
    }
    let n = b.len();
    let r = b[n - 5] == 46u8 && b[n - 4] == 98u8 && b[n - 3] == 108u8 && b[n - 2] == 111u8 && b[n - 1] == 98u8;
    proof {
        let t = b@.skip(n - 5);
        if r {
            assert(t =~= blob_suffix());
        } else {
            assert(t != blob_suffix()) by {
                if t == blob_suffix() {
                    assert(t[0] == b@[n - 5]);
                    assert(t[1] == b@[n - 4]);
                    assert(t[2] == b@[n - 3]);
                    assert(t[3] == b@[n - 2]);
                    assert(t[4] == b@[n - 1]);
                }
            }
        }
    }
    r
}

/// Counts the blob files among the files of the blob directory (names and
/// sizes), and adds up their sizes.
pub fn blob_stats(names: &Vec<String>, sizes: &Vec<u64>) -> (r: (usize, u64))
    requires
        names.len() == sizes.len(),
        blob_file_bytes(strings_view(names@), sizes@) <= u64::MAX,
    ensures
        r.0 == blob_file_count(strings_view(names@)),
        r.1 == blob_file_bytes(strings_view(names@), sizes@),
{
    let ghost nv = strings_view(names@);
    let mut count: usize = 0;
    let mut total: u64 = 0;
    let mut i: usize = 0;
    while i < names.len()
        invariant
            names.len() == sizes.len(),
            nv == strings_view(names@),
            0 <= i <= names.len(),
            count <= i,
            count == blob_file_count(nv.take(i as int)),
            total == blob_file_bytes(nv.take(i as int), sizes@.take(i as int)),
            blob_file_bytes(nv, sizes@) <= u64::MAX,
        decreases names.len() - i,
    {
        proof {
            assert(nv.take(i + 1).drop_last() =~= nv.take(i as int));
            assert(sizes@.take(i + 1).drop_last() =~= sizes@.take(i as int));
            assert(nv.take(i + 1).last() == names@[i as int]@);
            lemma_blob_bytes_prefix(nv, sizes@, i + 1);
        }
        if has_blob_ext(names[i].as_str()) {
            count = count + 1;
            total = total + sizes[i];
        }
        i += 1;
    }
    assert(nv.take(names.len() as int) =~= nv);
    assert(sizes@.take(names.len() as int) =~= sizes@);
    (count, total)
}

pub open spec fn dec(n: nat) -> Seq<char> {
    spec_decimal(n)
}

pub open spec fn process_line(pgrep: Option<Seq<char>>) -> Seq<char> {
    match pgrep {
        Some(out) => "  Process   : Running (PID "@ + spec_trim(out) + ")"@,
        None => "  Process   : Not running"@,
    }
}

pub open spec fn ring_size_text(r: RingFile) -> Seq<char> {
    match r {
        RingFile::Missing => "empty"@,
        RingFile::Unreadable => "unknown"@,
        RingFile::Size(n) => dec(n as nat) + " bytes"@,
    }
}

/// The lines of the report, in order.
pub open spec fn spec_report(
    pgrep: Option<Seq<char>>,
    registered: bool,
    slot_files: usize,
    ring: RingFile,
    blob_count: usize,
    blob_bytes: u64,
    vault_files: usize,
    log_dir: Seq<char>,
    store_dir: Seq<char>,
    vault_dir: Seq<char>,
) -> Seq<Seq<char>> {
    seq![
        "── ClipWallet Status ────────────────────────────"@,
        process_line(pgrep),
        "  launchd   : "@ + if registered { "Registered ✓"@ } else { "Not registered"@ },
        "  Static    : "@ + dec(slot_files as nat) + "/9 slots occupied"@,
        "  Ring      : "@ + ring_size_text(ring) + " on disk"@,
        "  Blobs     : "@ + dec(blob_count as nat) + " large entr"@ + (if blob_count == 1 { "y"@ } else { "ies"@ })
            + " on disk ("@ + dec(blob_bytes as nat) + " bytes)"@,
        "  Vault     : "@ + dec(vault_files as nat) + " encrypted entries"@,
        "  Logs      : "@ + log_dir,
        "  Store     : "@ + store_dir,
        "  Vault     : "@ + vault_dir,
        "─────────────────────────────────────────────────"@,
    ]
}

pub open spec fn opt_text(o: Option<String>) -> Option<Seq<char>> {
    match o {
        Some(s) => Some(s@),
        None => None,
    }
}

fn line(prefix: &str, n: u64, suffix: &str) -> (r: String)
    ensures
        r@ == prefix@ + dec(n as nat) + suffix@,
{
    let mut s = String::from_str(prefix);
    push_decimal(&mut s, n);
    s.append(suffix);
    s
}

fn with_prefix(prefix: &str, rest: &str) -> (r: String)
    ensures
        r@ == prefix@ + rest@,
{
    let mut s = String::from_str(prefix);
    s.append(rest);
    s
}

/// The report for `f`, line by line.
pub fn status_report(f: &StatusFacts) -> (r: Vec<String>)
    ensures
        strings_view(r@) == spec_report(
            opt_text(f.pgrep_output),
            f.launchd_registered,
            f.slot_files,
            f.ring_file,
            f.blob_count,
            f.blob_bytes,
            f.vault_files,
            f.log_dir@,
            f.store_dir@,
            f.vault_dir@,
        ),
{
    let mut out: Vec<String> = Vec::new();
    out.push(String::from_str("── ClipWallet Status ────────────────────────────"));
    let process = match &f.pgrep_output {
        Some(o) => {
            let pid = trim(o.as_str());
            let mut s = String::from_str("  Process   : Running (PID ");
            s.append(pid.as_str());
            s.append(")");
            s
        },
        None => String::from_str("  Process   : Not running"),
    };
    out.push(process);
    out.push(
        with_prefix(
            "  launchd   : ",
            if f.launchd_registered {
                "Registered ✓"
            } else {
                "Not registered"
            },
        ),
    );
    out.push(line("  Static    : ", f.slot_files as u64, "/9 slots occupied"));
    let ring = match f.ring_file {
        RingFile::Missing => with_prefix("  Ring      : ", "empty on disk"),
        RingFile::Unreadable => with_prefix("  Ring      : ", "unknown on disk"),
        RingFile::Size(n) => line("  Ring      : ", n, " bytes on disk"),
    };
    proof {
        reveal_strlit("empty on disk");
        reveal_strlit("unknown on disk");
        reveal_strlit(" bytes on disk");
        reveal_strlit("empty");
        reveal_strlit("unknown");
        reveal_strlit(" bytes");
        reveal_strlit(" on disk");
    }
    assert(ring@ =~= "  Ring      : "@ + ring_size_text(f.ring_file) + " on disk"@);
    out.push(ring);
    let mut blobs = line("  Blobs     : ", f.blob_count as u64, " large entr");
    blobs.append(if f.blob_count == 1 { "y" } else { "ies" });
    blobs.append(" on disk (");
    push_decimal(&mut blobs, f.blob_bytes);
    blobs.append(" bytes)");
    out.push(blobs);
    out.push(line("  Vault     : ", f.vault_files as u64, " encrypted entries"));
    out.push(with_prefix("  Logs      : ", f.log_dir.as_str()));
    out.push(with_prefix("  Store     : ", f.store_dir.as_str()));
    out.push(with_prefix("  Vault     : ", f.vault_dir.as_str()));
    out.push(String::from_str("─────────────────────────────────────────────────"));
    assert(strings_view(out@) =~= spec_report(
        opt_text(f.pgrep_output),
        f.launchd_registered,
        f.slot_files,
        f.ring_file,
        f.blob_count,
        f.blob_bytes,
        f.vault_files,
        f.log_dir@,
        f.store_dir@,
        f.vault_dir@,
    ));
    out
}

} // verus!
