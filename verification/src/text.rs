//! Byte-level text helpers: ASCII trimming and case folding for the
//! early-exit rule, decimal formatting for report fields, and the one
//! trusted UTF-8 decode the response path needs.

use vstd::prelude::*;

verus! {

/// ASCII whitespace: space, tab, line feed, carriage return.
pub open spec fn is_ascii_ws(b: u8) -> bool {
    b == 32 || b == 9 || b == 10 || b == 13
}

/// `s` with leading ASCII whitespace removed.
pub open spec fn trim_front_spec(s: Seq<u8>) -> Seq<u8>
    decreases s.len(),
{
    if s.len() > 0 && is_ascii_ws(s[0]) {
        trim_front_spec(s.drop_first())
    } else {
        s
    }
}

/// `s` with trailing ASCII whitespace removed.
pub open spec fn trim_back_spec(s: Seq<u8>) -> Seq<u8>
    decreases s.len(),
{
    if s.len() > 0 && is_ascii_ws(s[s.len() - 1]) {
        trim_back_spec(s.drop_last())
    } else {
        s
    }
}

/// `s` with whitespace removed on both sides.
pub open spec fn trim_spec(s: Seq<u8>) -> Seq<u8> {
    trim_back_spec(trim_front_spec(s))
}

/// ASCII case folding of one byte.
pub open spec fn lower_byte(b: u8) -> u8 {
    if 65 <= b <= 90 {
        (b + 32) as u8
    } else {
        b
    }
}

/// ASCII case folding of a byte sequence.
pub open spec fn lower_spec(s: Seq<u8>) -> Seq<u8> {
    s.map_values(|b: u8| lower_byte(b))
}

/// Whether `p` is a prefix of `s`.
pub open spec fn starts_with_spec(s: Seq<u8>, p: Seq<u8>) -> bool {
    p.len() <= s.len() && s.subrange(0, p.len() as int) == p
}

/// The bounds of `trim_spec(s@)` inside `s`: trimming removes a whitespace
/// prefix and a whitespace suffix and nothing else.
pub fn trim_bounds(s: &[u8]) -> (r: (usize, usize))
    ensures
        r.0 <= r.1 <= s@.len(),
        trim_spec(s@) == s@.subrange(r.0 as int, r.1 as int),
{
    let n = s.len();
    proof {
        assert(s@ =~= s@.subrange(0, n as int));
    }
    let mut lo: usize = 0;
    while lo < n && (s[lo] == 32 || s[lo] == 9 || s[lo] == 10 || s[lo] == 13)
        invariant
            0 <= lo <= n,
            n == s@.len(),
            forall|k: int| 0 <= k < lo ==> is_ascii_ws(s@[k]),
            trim_front_spec(s@) == trim_front_spec(s@.subrange(lo as int, n as int)),
        decreases n - lo,
    {
        proof {
            let tail = s@.subrange(lo as int, n as int);
            assert(tail.drop_first() =~= s@.subrange(lo as int + 1, n as int));
        }
        lo = lo + 1;
    }
    proof {
        let tail = s@.subrange(lo as int, n as int);
        if lo < n {
            assert(!is_ascii_ws(tail[0]));
        }
        assert(trim_front_spec(s@) == tail);
    }
    let mut hi: usize = n;
    while hi > lo && (s[hi - 1] == 32 || s[hi - 1] == 9 || s[hi - 1] == 10 || s[hi - 1] == 13)
        invariant
            lo <= hi <= n,
            n == s@.len(),
            trim_front_spec(s@) == s@.subrange(lo as int, n as int),
            trim_back_spec(s@.subrange(lo as int, n as int)) == trim_back_spec(
                s@.subrange(lo as int, hi as int),
            ),
        decreases hi,
    {
        proof {
            let cur = s@.subrange(lo as int, hi as int);
            assert(cur.drop_last() =~= s@.subrange(lo as int, hi as int - 1));
        }
        hi = hi - 1;
    }
    proof {
        let cur = s@.subrange(lo as int, hi as int);
        if hi > lo {
            assert(!is_ascii_ws(cur[cur.len() - 1]));
        }
        assert(trim_back_spec(cur) == cur);
    }
    (lo, hi)
}

/// Whether the ASCII-lowercased window `s[lo..hi]` starts with `pat`
/// (`pat` is expected already lowercase).
pub fn window_starts_with_lower(s: &[u8], lo: usize, hi: usize, pat: &[u8]) -> (r: bool)
    requires
        lo <= hi <= s@.len(),
    ensures
        r == starts_with_spec(lower_spec(s@.subrange(lo as int, hi as int)), pat@),
{
    let window_len = hi - lo;
    if pat.len() > window_len {
        return false;
    }
    let mut j: usize = 0;
    while j < pat.len()
        invariant
            0 <= j <= pat@.len(),
            pat@.len() <= hi - lo,
            lo <= hi <= s@.len(),
            forall|k: int|
                0 <= k < j ==> lower_byte(s@.subrange(lo as int, hi as int)[k]) == pat@[k],
        decreases pat@.len() - j,
    {
        let b = s[lo + j];
        let lb = if 65 <= b && b <= 90 {
            b + 32
        } else {
            b
        };
        if lb != pat[j] {
            assert(lower_spec(s@.subrange(lo as int, hi as int))[j as int] != pat@[j as int]);
            return false;
        }
        j = j + 1;
    }
    proof {
        let w = lower_spec(s@.subrange(lo as int, hi as int));
        assert(w.subrange(0, pat@.len() as int) =~= pat@);
    }
    true
}

/// The decimal digits of `n`, most significant first.
pub open spec fn dec_str_spec(n: nat) -> Seq<char>
    decreases n,
{
    if n < 10 {
        seq![digit_char(n)]
    } else {
        dec_str_spec(n / 10).push(digit_char(n % 10))
    }
}

/// The character for one decimal digit.
pub open spec fn digit_char(d: nat) -> char {
    if d == 0 {
        '0'
    } else if d == 1 {
        '1'
    } else if d == 2 {
        '2'
    } else if d == 3 {
        '3'
    } else if d == 4 {
        '4'
    } else if d == 5 {
        '5'
    } else if d == 6 {
        '6'
    } else if d == 7 {
        '7'
    } else if d == 8 {
        '8'
    } else {
        '9'
    }
}

/// One decimal digit as a string slice.
fn digit_str(d: u64) -> (r: &'static str)
    requires
        d < 10,
    ensures
        r@ == seq![digit_char(d as nat)],
{
    let r: &'static str = if d == 0 {
        "0"
    } else if d == 1 {
        "1"
    } else if d == 2 {
        "2"
    } else if d == 3 {
        "3"
    } else if d == 4 {
        "4"
    } else if d == 5 {
        "5"
    } else if d == 6 {
        "6"
    } else if d == 7 {
        "7"
    } else if d == 8 {
        "8"
    } else {
        "9"
    };
    proof {
        reveal_strlit("0");
        reveal_strlit("1");
        reveal_strlit("2");
        reveal_strlit("3");
        reveal_strlit("4");
        reveal_strlit("5");
        reveal_strlit("6");
        reveal_strlit("7");
        reveal_strlit("8");
        reveal_strlit("9");
        assert(r@ =~= seq![digit_char(d as nat)]);
    }
    r
}

/// Format `n` in decimal.
pub fn u64_to_string(n: u64) -> (s: String)
    ensures
        s@ == dec_str_spec(n as nat),
    decreases n,
{
    if n < 10 {
        let d = digit_str(n);
        let s = String::from_str(d);
        s
    } else {
        let mut s = u64_to_string(n / 10);
        s.append(digit_str(n % 10));
        s
    }
}

/// What the trusted UTF-8 decode returns for a byte sequence. The result
/// is a function of the bytes alone; malformed sequences come back as
/// replacement characters.
pub uninterp spec fn utf8_lossy_of(b: Seq<u8>) -> Seq<char>;

/// Relies on encoding_rs::Encoding::decode_without_bom_handling on the
/// UTF-8 encoding: the decode is a deterministic function of the input
/// bytes, replaces malformed sequences with U+FFFD, and maps ASCII bytes
/// to the characters with the same code.
#[verifier::external_body]
pub fn utf8_lossy(b: &[u8]) -> (r: String)
    ensures
        r@ == utf8_lossy_of(b@),
        b@.len() == 0 ==> r@.len() == 0,
        (forall|i: int| 0 <= i < b@.len() ==> b@[i] < 128) ==> {
            &&& r@.len() == b@.len()
            &&& forall|i: int| 0 <= i < b@.len() ==> r@[i] == b@[i] as char
        },
{
    let (text, _malformed) = encoding_rs::UTF_8.decode_without_bom_handling(b);
    text.into_owned()
}

} // verus!
