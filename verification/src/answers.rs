//! Reading the answers typed at the command-line prompts.

use vstd::prelude::*;
use vstd::string::*;
use crate::config::ClipMode;

verus! {

/// A character with the Unicode `White_Space` property (what
/// `char::is_whitespace` tests).
pub open spec fn is_white_space(c: char) -> bool {
    ||| '\t' <= c <= '\r'
    ||| c == ' '
    ||| c == '\u{85}'
    ||| c == '\u{a0}'
    ||| c == '\u{1680}'
    ||| '\u{2000}' <= c <= '\u{200a}'
    ||| c == '\u{2028}'
    ||| c == '\u{2029}'
    ||| c == '\u{202f}'
    ||| c == '\u{205f}'
    ||| c == '\u{3000}'
}

fn white_space(c: char) -> (r: bool)
    ensures
        r == is_white_space(c),
{
    ('\t' <= c && c <= '\r') || c == ' ' || c == '\u{85}' || c == '\u{a0}' || c == '\u{1680}' || ('\u{2000}'
        <= c && c <= '\u{200a}') || c == '\u{2028}' || c == '\u{2029}' || c == '\u{202f}' || c == '\u{205f}'
        || c == '\u{3000}'
}

/// `s` without its leading white space.
pub open spec fn trim_start(s: Seq<char>) -> Seq<char>
    decreases s.len(),
{
    if s.len() > 0 && is_white_space(s[0]) {
        trim_start(s.drop_first())
    } else {
        s
    }
}

/// `s` without its trailing white space.
pub open spec fn trim_end(s: Seq<char>) -> Seq<char>
    decreases s.len(),
{
    if s.len() > 0 && is_white_space(s.last()) {
        trim_end(s.drop_last())
    } else {
        s
    }
}

/// `s` without leading and trailing white space (what `str::trim` gives).
pub open spec fn spec_trim(s: Seq<char>) -> Seq<char> {
    trim_end(trim_start(s))
}

/// `s` without leading and trailing white space.
pub fn trim(s: &str) -> (r: String)
    ensures
        r@ == spec_trim(s@),
{
    let n = s.unicode_len();
    let mut a: usize = 0;
    assert(s@.skip(0) =~= s@);
    while a < n && white_space(s.get_char(a))
        invariant
            n == s@.len(),
            0 <= a <= n,
            trim_start(s@) == trim_start(s@.skip(a as int)),
        decreases n - a,
    {
        assert(s@.skip(a as int)[0] == s@[a as int]);
        assert(s@.skip(a as int).drop_first() =~= s@.skip(a + 1));
        a += 1;
    }
    proof {
        if a < n {
            assert(s@.skip(a as int)[0] == s@[a as int]);
        } else {
            assert(s@.skip(a as int) =~= Seq::<char>::empty());
        }
    }
    let mut b: usize = n;
    while b > a && white_space(s.get_char(b - 1))
        invariant
            n == s@.len(),
            0 <= a <= b <= n,
            trim_start(s@) == s@.subrange(a as int, n as int),
            trim_end(s@.subrange(a as int, n as int)) == trim_end(s@.subrange(a as int, b as int)),
        decreases b - a,
    {
        assert(s@.subrange(a as int, b as int).last() == s@[b - 1]);
        assert(s@.subrange(a as int, b as int).drop_last() =~= s@.subrange(a as int, b - 1));
        b -= 1;
    }
    proof {
        if b > a {
            assert(s@.subrange(a as int, b as int).last() == s@[b - 1]);
        }
        assert(s@.skip(a as int) =~= s@.subrange(a as int, n as int));
    }
    let t = s.substring_char(a, b);
    String::from_str(t)
}

/// The answer is yes: `y` or `Y`, surrounding white space aside.
pub open spec fn spec_is_yes(input: Seq<char>) -> bool {
    spec_trim(input) == seq!['y'] || spec_trim(input) == seq!['Y']
}

/// Whether a `[y/N]` prompt was answered yes; anything else is no.
pub fn is_yes(input: &str) -> (r: bool)
    ensures
        r == spec_is_yes(input@),
{
    let t = trim(input);
    let s = t.as_str();
    if s.unicode_len() != 1 {
        assert(t@ != seq!['y'] && t@ != seq!['Y']);
        return false;
    }
    let c = s.get_char(0);
    let r = c == 'y' || c == 'Y';
    proof {
        if r {
            assert(t@ =~= seq![c]);
        } else {
            assert(t@ != seq!['y']) by {
                if t@ == seq!['y'] {
                    assert(t@[0] == 'y');
                }
            }
            assert(t@ != seq!['Y']) by {
                if t@ == seq!['Y'] {
                    assert(t@[0] == 'Y');
                }
            }
        }
    }
    r
}

/// The mode picked at the mode prompt: `1` for static, `2` for dynamic,
/// surrounding white space aside; anything else picks nothing.
pub open spec fn spec_mode_choice(input: Seq<char>) -> Option<ClipMode> {
    if spec_trim(input) == seq!['1'] {
        Some(ClipMode::Static)
    } else if spec_trim(input) == seq!['2'] {
        Some(ClipMode::Dynamic)
    } else {
        None
    }
}

/// Reads the answer to the mode prompt.
pub fn mode_choice(input: &str) -> (r: Option<ClipMode>)
    ensures
        r == spec_mode_choice(input@),
{
    let t = trim(input);
    let s = t.as_str();
    if s.unicode_len() != 1 {
        assert(t@ != seq!['1'] && t@ != seq!['2']);
        return None;
    }
    let c = s.get_char(0);
    proof {
        assert(t@ =~= seq![c]);
    }
    if c == '1' {
        Some(ClipMode::Static)
    } else if c == '2' {
        Some(ClipMode::Dynamic)
    } else {
        None
    }
}

/// What the mode prompt leads to.
#[derive(Debug, Clone, Copy, PartialEq, Eq, Structural)]
pub enum ModeChange {
    /// The answer picked no mode: nothing changes.
    Invalid,
    /// The mode picked is the current one: nothing changes.
    Unchanged(ClipMode),
    /// Switch to this mode.
    Switch(ClipMode),
}

/// The outcome of answering `input` at the mode prompt in mode `current`.
pub fn mode_change(current: ClipMode, input: &str) -> (r: ModeChange)
    ensures
        r == (match spec_mode_choice(input@) {
            None => ModeChange::Invalid,
            Some(m) => if m == current {
                ModeChange::Unchanged(m)
            } else {
                ModeChange::Switch(m)
            },
        }),
{
    match mode_choice(input) {
        None => ModeChange::Invalid,
        Some(m) => if m == current {
            ModeChange::Unchanged(m)
        } else {
            ModeChange::Switch(m)
        },
    }
}

} // verus!
