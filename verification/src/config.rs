//! Persistent settings: the clipboard mode, the ring capacity and the spill
//! threshold, with the defaults and the clamping applied when they are read.

use vstd::prelude::*;
use vstd::string::*;

verus! {

/// How hotkeys are interpreted.
#[derive(Debug, Clone, Copy, PartialEq, Eq, Structural)]
pub enum ClipMode {
    /// Nine named slots.
    Static,
    /// A recency-ordered ring.
    Dynamic,
}

/// The lower-case name of a mode, as written in the config file and shown
/// to the user.
pub open spec fn spec_mode_name(m: ClipMode) -> Seq<char> {
    match m {
        ClipMode::Static => "static"@,
        ClipMode::Dynamic => "dynamic"@,
    }
}

/// Character-wise equality of two strings.
pub fn str_eq(a: &str, b: &str) -> (r: bool)
    ensures
        r == (a@ == b@),
{
    let n = a.unicode_len();
    if n != b.unicode_len() {
        return false;
    }
    let mut i: usize = 0;
    while i < n
        invariant
            n == a@.len(),
            n == b@.len(),
            0 <= i <= n,
            forall|j: int| 0 <= j < i ==> a@[j] == b@[j],
        decreases n - i,
    {
        if a.get_char(i) != b.get_char(i) {
            return false;
        }
        i += 1;
    }
    assert(a@ =~= b@);
    true
}

impl ClipMode {
    /// `"static"` or `"dynamic"`.
    pub fn name(&self) -> (r: &'static str)
        ensures
            r@ == spec_mode_name(*self),
    {
        proof {
            reveal_strlit("static");
            reveal_strlit("dynamic");
        }
        match self {
            ClipMode::Static => "static",
            ClipMode::Dynamic => "dynamic",
        }
    }

    /// The mode with the given lower-case name, if any.
    pub fn from_name(name: &str) -> (r: Option<ClipMode>)
        ensures
            r == (if name@ == "static"@ {
                Some(ClipMode::Static)
            } else if name@ == "dynamic"@ {
                Some(ClipMode::Dynamic)
            } else {
                None::<ClipMode>
            }),
    {
        if str_eq(name, "static") {
            Some(ClipMode::Static)
        } else if str_eq(name, "dynamic") {
            Some(ClipMode::Dynamic)
        } else {
            None
        }
    }
}

/// The settings the daemon runs with.
#[derive(Debug, Clone, Copy, PartialEq, Eq, Structural)]
pub struct Config {
    pub mode: ClipMode,
    /// Entries the dynamic ring keeps.
    pub ring_capacity: usize,
    /// Entries whose payload is at least this many bytes are spilled to
    /// disk and kept in memory only as a small descriptor until pasted.
    /// `0` disables spilling.
    pub spill_threshold_bytes: usize,
}

/// Ring capacity when none is configured.
pub const DEFAULT_RING_CAPACITY: usize = 50;

/// Spill threshold when none is configured: 1 MiB, so text snippets and
/// small icons stay resident while screenshots and large blobs spill.
pub const DEFAULT_SPILL_THRESHOLD: usize = 1048576;

/// Smallest ring capacity accepted.
pub const RING_CAPACITY_MIN: usize = 10;

/// Largest ring capacity accepted.
pub const RING_CAPACITY_MAX: usize = 500;

/// Smallest non-zero spill threshold accepted (4 KiB).
pub const SPILL_THRESHOLD_MIN: usize = 4096;

/// Largest spill threshold accepted (256 MiB).
pub const SPILL_THRESHOLD_MAX: usize = 268435456;

/// Ring capacity when none is configured.
pub fn default_ring_capacity() -> (r: usize)
    ensures
        r == DEFAULT_RING_CAPACITY,
        r == 50,
{
    DEFAULT_RING_CAPACITY
}

/// Spill threshold when none is configured.
pub fn default_spill_threshold() -> (r: usize)
    ensures
        r == DEFAULT_SPILL_THRESHOLD,
        r == 1024 * 1024,
{
    DEFAULT_SPILL_THRESHOLD
}

/// The configuration used when none is stored: dynamic mode, default
/// capacity and threshold.
pub open spec fn spec_default_config() -> Config {
    Config {
        mode: ClipMode::Dynamic,
        ring_capacity: DEFAULT_RING_CAPACITY,
        spill_threshold_bytes: DEFAULT_SPILL_THRESHOLD,
    }
}

impl Default for Config {
    fn default() -> (r: Self)
        ensures
            r == spec_default_config(),
    {
        Config {
            mode: ClipMode::Dynamic,
            ring_capacity: DEFAULT_RING_CAPACITY,
            spill_threshold_bytes: DEFAULT_SPILL_THRESHOLD,
        }
    }
}

/// `v` brought into `[lo, hi]`.
pub open spec fn clamp(v: int, lo: int, hi: int) -> int {
    if v < lo {
        lo
    } else if v > hi {
        hi
    } else {
        v
    }
}

/// The ring capacity actually used for a configured value.
pub open spec fn spec_clamp_ring_capacity(v: usize) -> usize {
    clamp(v as int, RING_CAPACITY_MIN as int, RING_CAPACITY_MAX as int) as usize
}

/// The spill threshold actually used: `0` stays `0` (spilling disabled),
/// anything else is brought into the accepted band.
pub open spec fn spec_clamp_spill_threshold(v: usize) -> usize {
    if v == 0 {
        0
    } else {
        clamp(v as int, SPILL_THRESHOLD_MIN as int, SPILL_THRESHOLD_MAX as int) as usize
    }
}

/// Brings a configured ring capacity into `[10, 500]`.
pub fn clamp_ring_capacity(v: usize) -> (r: usize)
    ensures
        r == spec_clamp_ring_capacity(v),
        10 <= r <= 500,
        10 <= v <= 500 ==> r == v,
        v < 10 ==> r == 10,
        v > 500 ==> r == 500,
{
    if v < RING_CAPACITY_MIN {
        RING_CAPACITY_MIN
    } else if v > RING_CAPACITY_MAX {
        RING_CAPACITY_MAX
    } else {
        v
    }
}

/// Keeps `0` (spilling disabled); brings anything else into
/// `[4 KiB, 256 MiB]`, so a malformed setting can neither spill every entry
/// nor never spill at all.
pub fn clamp_spill_threshold(v: usize) -> (r: usize)
    ensures
        r == spec_clamp_spill_threshold(v),
        v == 0 ==> r == 0,
        0 < v < 4096 ==> r == 4096,
        4096 <= v <= 256 * 1024 * 1024 ==> r == v,
        v > 256 * 1024 * 1024 ==> r == 256 * 1024 * 1024,
{
    if v == 0 {
        0
    } else if v < SPILL_THRESHOLD_MIN {
        SPILL_THRESHOLD_MIN
    } else if v > SPILL_THRESHOLD_MAX {
        SPILL_THRESHOLD_MAX
    } else {
        v
    }
}

/// A configuration with both limits clamped.
pub open spec fn spec_normalise(c: Config) -> Config {
    Config {
        mode: c.mode,
        ring_capacity: spec_clamp_ring_capacity(c.ring_capacity),
        spill_threshold_bytes: spec_clamp_spill_threshold(c.spill_threshold_bytes),
    }
}

impl Config {
    /// A configuration from the fields found in a config file; a missing
    /// limit takes its default (files written before the spill threshold
    /// existed have no such field).
    pub fn from_parts(mode: ClipMode, ring_capacity: Option<usize>, spill_threshold_bytes: Option<usize>) -> (r: Config)
        ensures
            r.mode == mode,
            r.ring_capacity == (match ring_capacity {
                Some(v) => v,
                None => DEFAULT_RING_CAPACITY,
            }),
            r.spill_threshold_bytes == (match spill_threshold_bytes {
                Some(v) => v,
                None => DEFAULT_SPILL_THRESHOLD,
            }),
    {
        let ring = match ring_capacity {
            Some(v) => v,
            None => default_ring_capacity(),
        };
        let spill = match spill_threshold_bytes {
            Some(v) => v,
            None => default_spill_threshold(),
        };
        Config { mode, ring_capacity: ring, spill_threshold_bytes: spill }
    }

    /// The configuration with both limits clamped into their accepted bands.
    pub fn normalised(&self) -> (r: Config)
        ensures
            r == spec_normalise(*self),
    {
        Config {
            mode: self.mode,
            ring_capacity: clamp_ring_capacity(self.ring_capacity),
            spill_threshold_bytes: clamp_spill_threshold(self.spill_threshold_bytes),
        }
    }

    /// The same configuration in another mode.
    pub fn with_mode(&self, mode: ClipMode) -> (r: Config)
        ensures
            r == (Config { mode, ..*self }),
    {
        Config { mode, ring_capacity: self.ring_capacity, spill_threshold_bytes: self.spill_threshold_bytes }
    }
}

/// The configuration in effect, given what the config file held: `None`
/// when there was no file or it could not be read or parsed, in which case
/// the defaults apply. Either way the limits are clamped.
pub fn load(stored: Option<Config>) -> (r: Config)
    ensures
        r == spec_normalise(
            match stored {
                Some(c) => c,
                None => spec_default_config(),
            },
        ),
{
    let cfg = match stored {
        Some(c) => c,
        None => Config::default(),
    };
    cfg.normalised()
}

/// The ring capacity the service runs with: the command-line override when
/// given, else the configured one, clamped into `[10, 500]`.
pub fn effective_ring_capacity(ring_capacity_override: Option<usize>, cfg: &Config) -> (r: usize)
    ensures
        r == spec_clamp_ring_capacity(
            match ring_capacity_override {
                Some(v) => v,
                None => cfg.ring_capacity,
            },
        ),
        RING_CAPACITY_MIN <= r <= RING_CAPACITY_MAX,
{
    let v = match ring_capacity_override {
        Some(v) => v,
        None => cfg.ring_capacity,
    };
    clamp_ring_capacity(v)
}

/// Clamping is idempotent, and a clamped configuration lies in the accepted
/// bands: ring capacity in `[10, 500]`, spill threshold `0` or in
/// `[4 KiB, 256 MiB]`.
pub proof fn lemma_normalise_idempotent(c: Config)
    ensures
        spec_normalise(spec_normalise(c)) == spec_normalise(c),
        RING_CAPACITY_MIN <= spec_normalise(c).ring_capacity <= RING_CAPACITY_MAX,
        spec_normalise(c).spill_threshold_bytes == 0 || (SPILL_THRESHOLD_MIN
            <= spec_normalise(c).spill_threshold_bytes <= SPILL_THRESHOLD_MAX),
        (c.spill_threshold_bytes == 0) == (spec_normalise(c).spill_threshold_bytes == 0),
        spec_normalise(c).mode == c.mode,
{
}

/// The defaults lie in the accepted bands, so loading without a stored
/// configuration gives the defaults unchanged.
pub proof fn lemma_default_is_normal()
    ensures
        spec_normalise(spec_default_config()) == spec_default_config(),
{
}

} // verus!
