//! Bearer tokens for the remote transport: a 32-character alphanumeric
//! secret, compared exactly after trimming surrounding whitespace (the
//! full Unicode white-space set, as the standard trim strips it).

use vstd::prelude::*;

verus! {

/// The length of a generated bearer token.
pub const TOKEN_LENGTH: usize = 32;

/// An ASCII letter or digit.
pub open spec fn spec_is_alnum_char(c: char) -> bool {
    ('a' <= c && c <= 'z') || ('A' <= c && c <= 'Z') || ('0' <= c && c <= '9')
}

/// Relies on rand::rng and the Alphanumeric distribution's sampling of
/// chars: uniform over ASCII letters and digits. The value is random, so
/// only its length and alphabet are promised.
#[verifier::external_body]
fn random_alphanumeric(n: usize) -> (r: String)
    ensures
        r@.len() == n,
        forall|i: int| 0 <= i < r@.len() ==> spec_is_alnum_char(#[trigger] r@[i]),
{
    let mut rng = rand::rng();
    (0..n).map(|_| rand::RngExt::sample(&mut rng, rand::distr::Alphanumeric) as char).collect()
}

/// Generate a fresh bearer token: 32 random ASCII letters and digits.
/// The caller stores it with owner-only permissions.
pub fn generate_token() -> (t: String)
    ensures
        t@.len() == TOKEN_LENGTH,
        forall|i: int| 0 <= i < t@.len() ==> spec_is_alnum_char(#[trigger] t@[i]),
{
    random_alphanumeric(TOKEN_LENGTH)
}

/// A whitespace character, as trimming strips it: the code points of
/// the Unicode white-space property, which the standard trim removes.
pub open spec fn spec_is_ws(c: char) -> bool {
    ||| ('\u{0009}' <= c && c <= '\u{000D}')
    ||| c == ' '
    ||| c == '\u{0085}'
    ||| c == '\u{00A0}'
    ||| c == '\u{1680}'
    ||| ('\u{2000}' <= c && c <= '\u{200A}')
    ||| c == '\u{2028}'
    ||| c == '\u{2029}'
    ||| c == '\u{202F}'
    ||| c == '\u{205F}'
    ||| c == '\u{3000}'
}

/// A string with its leading whitespace stripped.
pub open spec fn spec_trim_start(s: Seq<char>) -> Seq<char>
    decreases s.len(),
{
    if s.len() > 0 && spec_is_ws(s[0]) {
        spec_trim_start(s.skip(1))
    } else {
        s
    }
}

/// A string with its trailing whitespace stripped.
pub open spec fn spec_trim_end(s: Seq<char>) -> Seq<char>
    decreases s.len(),
{
    if s.len() > 0 && spec_is_ws(s.last()) {
        spec_trim_end(s.drop_last())
    } else {
        s
    }
}

/// A string with surrounding whitespace stripped.
pub open spec fn spec_trim(s: Seq<char>) -> Seq<char> {
    spec_trim_end(spec_trim_start(s))
}

fn is_ws(c: char) -> (r: bool)
    ensures
        r == spec_is_ws(c),
{
    ('\u{0009}' <= c && c <= '\u{000D}') || c == ' ' || c == '\u{0085}' || c == '\u{00A0}' || c
        == '\u{1680}' || ('\u{2000}' <= c && c <= '\u{200A}') || c == '\u{2028}' || c
        == '\u{2029}' || c == '\u{202F}' || c == '\u{205F}' || c == '\u{3000}'
}

/// Trim surrounding whitespace from a string slice.
pub fn trim_str(s: &str) -> (out: &str)
    ensures
        out@ == spec_trim(s@),
{
    let len = s.unicode_len();
    let mut a: usize = 0;
    proof {
        assert(s@.skip(0) =~= s@);
    }
    while a < len && is_ws(s.get_char(a))
        invariant
            a <= len,
            len == s@.len(),
            spec_trim_start(s@) == spec_trim_start(s@.skip(a as int)),
        decreases len - a,
    {
        proof {
            assert(s@.skip(a as int)[0] == s@[a as int]);
            assert(s@.skip(a as int).skip(1) =~= s@.skip(a + 1));
        }
        a = a + 1;
    }
    proof {
        if a == len {
            assert(s@.skip(a as int) =~= Seq::<char>::empty());
        }
        assert(spec_trim_start(s@) == s@.skip(a as int));
    }
    let mut b: usize = len;
    proof {
        assert(s@.skip(a as int).subrange(0, (len - a) as int) =~= s@.skip(a as int));
    }
    while b > a && is_ws(s.get_char(b - 1))
        invariant
            a <= b <= len,
            len == s@.len(),
            spec_trim_start(s@) == s@.skip(a as int),
            spec_trim_end(s@.skip(a as int)) == spec_trim_end(
                s@.skip(a as int).subrange(0, b - a),
            ),
        decreases b,
    {
        proof {
            let cur = s@.skip(a as int).subrange(0, b - a);
            assert(cur.last() == s@[b - 1]);
            assert(cur.drop_last() =~= s@.skip(a as int).subrange(0, b - 1 - a));
        }
        b = b - 1;
    }
    proof {
        let cur = s@.skip(a as int).subrange(0, b - a);
        if b > a {
            assert(cur.last() == s@[b - 1]);
            assert(!spec_is_ws(cur.last()));
        }
        assert(spec_trim_end(cur) == cur);
        assert(cur =~= s@.subrange(a as int, b as int));
    }
    s.substring_char(a, b)
}

/// Whether a candidate token matches the stored one: compared exactly,
/// after trimming surrounding whitespace from both.
pub fn token_matches(stored: &str, candidate: &str) -> (r: bool)
    ensures
        r == (spec_trim(stored@) == spec_trim(candidate@)),
{
    crate::text::str_eq(trim_str(stored), trim_str(candidate))
}

} // verus!
