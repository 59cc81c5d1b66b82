//! Decimal formatting and parsing used across the engine: uid-map lines,
//! `/proc` paths, `Content-Length` headers and the arithmetic request
//! handlers all move integers through ASCII decimal text.
use vstd::prelude::*;
use vstd::slice::slice_subrange;

verus! {

/// The ASCII digit for a value below ten.
pub open spec fn digit_char(d: nat) -> char {
    if d == 0 {
        '0'
    } else if d == 1 {
        '1'
    } else if d == 2 {
        '2'
    } else if d == 3 {
        '3'
    } else if d == 4 {
        '4'
    } else if d == 5 {
        '5'
    } else if d == 6 {
        '6'
    } else if d == 7 {
        '7'
    } else if d == 8 {
        '8'
    } else {
        '9'
    }
}

/// Decimal representation of `n`, most significant digit first.
pub open spec fn dec_chars(n: nat) -> Seq<char>
    decreases n,
{
    if n < 10 {
        seq![digit_char(n)]
    } else {
        dec_chars(n / 10).push(digit_char(n % 10))
    }
}

/// One-character string for a single decimal digit.
fn digit_str(d: u64) -> (r: &'static str)
    requires
        d < 10,
    ensures
        r@ =~= seq![digit_char(d as nat)],
{
    proof {
        reveal_strlit("0");
        reveal_strlit("1");
        reveal_strlit("2");
        reveal_strlit("3");
        reveal_strlit("4");
        reveal_strlit("5");
        reveal_strlit("6");
        reveal_strlit("7");
        reveal_strlit("8");
        reveal_strlit("9");
    }
    if d == 0 {
        "0"
    } else if d == 1 {
        "1"
    } else if d == 2 {
        "2"
    } else if d == 3 {
        "3"
    } else if d == 4 {
        "4"
    } else if d == 5 {
        "5"
    } else if d == 6 {
        "6"
    } else if d == 7 {
        "7"
    } else if d == 8 {
        "8"
    } else {
        "9"
    }
}

/// Render `n` in decimal.
pub fn u64_to_dec(n: u64) -> (r: String)
    ensures
        r@ == dec_chars(n as nat),
    decreases n,
{
    if n < 10 {
        let s = digit_str(n);
        let r = s.to_owned();
        assert(r@ =~= dec_chars(n as nat));
        r
    } else {
        let high = u64_to_dec(n / 10);
        let low = digit_str(n % 10);
        let r = high.concat(low);
        assert(r@ =~= dec_chars(n as nat));
        r
    }
}

/// Distinct digits render as distinct characters.
proof fn lemma_digit_char_injective(a: nat, b: nat)
    requires
        a < 10,
        b < 10,
        digit_char(a) == digit_char(b),
    ensures
        a == b,
{
}

/// A decimal rendering is never empty, and a value of ten or more has at
/// least two digits.
proof fn lemma_dec_chars_len(n: nat)
    ensures
        dec_chars(n).len() >= 1,
        n >= 10 ==> dec_chars(n).len() >= 2,
    decreases n,
{
    if n >= 10 {
        lemma_dec_chars_len(n / 10);
    }
}

/// Decimal rendering is injective: equal texts mean equal values.
pub proof fn lemma_dec_chars_injective(a: nat, b: nat)
    requires
        dec_chars(a) == dec_chars(b),
    ensures
        a == b,
    decreases a + b,
{
    lemma_dec_chars_len(a);
    lemma_dec_chars_len(b);
    if a < 10 && b < 10 {
        assert(dec_chars(a)[0] == digit_char(a));
        assert(dec_chars(b)[0] == digit_char(b));
        lemma_digit_char_injective(a, b);
    } else if a < 10 {
        assert(dec_chars(a).len() == 1);
        assert(false);
    } else if b < 10 {
        assert(dec_chars(b).len() == 1);
        assert(false);
    } else {
        assert(dec_chars(a).last() == digit_char(a % 10));
        assert(dec_chars(b).last() == digit_char(b % 10));
        lemma_digit_char_injective(a % 10, b % 10);
        assert(dec_chars(a).drop_last() =~= dec_chars(a / 10));
        assert(dec_chars(b).drop_last() =~= dec_chars(b / 10));
        lemma_dec_chars_injective(a / 10, b / 10);
        assert(a == (a / 10) * 10 + a % 10);
        assert(b == (b / 10) * 10 + b % 10);
    }
}

/// Whether `b` is an ASCII decimal digit.
pub open spec fn is_digit(b: u8) -> bool {
    0x30 <= b <= 0x39
}

/// A non-empty, all-digit byte sequence.
pub open spec fn all_digits(s: Seq<u8>) -> bool {
    s.len() > 0 && forall|i: int| 0 <= i < s.len() ==> is_digit(#[trigger] s[i])
}

/// Numeric value of a digit sequence, most significant digit first.
pub open spec fn digits_val(s: Seq<u8>) -> nat
    decreases s.len(),
{
    if s.len() == 0 {
        0
    } else {
        digits_val(s.drop_last()) * 10 + (s.last() - 0x30) as nat
    }
}

/// Extending a digit prefix never lowers its value.
proof fn lemma_digits_val_prefix_le(s: Seq<u8>, i: int, j: int)
    requires
        0 <= i <= j <= s.len(),
        forall|k: int| 0 <= k < s.len() ==> is_digit(#[trigger] s[k]),
    ensures
        digits_val(s.subrange(0, i)) <= digits_val(s.subrange(0, j)),
    decreases j - i,
{
    if i < j {
        lemma_digits_val_prefix_le(s, i, j - 1);
        let p = s.subrange(0, j);
        assert(p.drop_last() =~= s.subrange(0, j - 1));
        assert(digits_val(s.subrange(0, j - 1)) <= digits_val(p));
    }
}

/// Parse a non-empty run of ASCII digits; `None` on any other byte, on an
/// empty input, or when the value exceeds `u64::MAX`.
pub fn parse_digits_u64(s: &[u8]) -> (r: Option<u64>)
    ensures
        r is Some <==> all_digits(s@) && digits_val(s@) <= u64::MAX,
        r matches Some(v) ==> v == digits_val(s@),
{
    if s.len() == 0 {
        return None;
    }
    let mut val: u64 = 0;
    let mut i: usize = 0;
    while i < s.len()
        invariant
            0 <= i <= s@.len(),
            forall|k: int| 0 <= k < i ==> is_digit(#[trigger] s@[k]),
            val == digits_val(s@.subrange(0, i as int)),
        decreases s@.len() - i,
    {
        let b = s[i];
        if b < 0x30 || b > 0x39 {
            assert(!all_digits(s@));
            return None;
        }
        let d = b - 0x30;
        if val > (u64::MAX - d as u64) / 10 {
            proof {
                let p = s@.subrange(0, i + 1);
                assert(p.drop_last() =~= s@.subrange(0, i as int));
                assert(digits_val(p) == val * 10 + d);
                if all_digits(s@) {
                    lemma_digits_val_prefix_le(s@, i + 1, s@.len() as int);
                    assert(s@.subrange(0, s@.len() as int) =~= s@);
                    assert(digits_val(s@) > u64::MAX);
                }
            }
            return None;
        }
        val = val * 10 + d as u64;
        assert(s@.subrange(0, i + 1).drop_last() =~= s@.subrange(0, i as int));
        i = i + 1;
    }
    assert(s@.subrange(0, i as int) =~= s@);
    Some(val)
}

/// The digit run of an integer literal: everything after an optional single
/// leading `+` (or `-`, when `signed` allows one).
pub open spec fn literal_digits(s: Seq<u8>) -> Seq<u8> {
    if s.len() > 0 && (s[0] == 0x2b || s[0] == 0x2d) {
        s.skip(1)
    } else {
        s
    }
}

/// Whether the literal is negative: a leading `-`.
pub open spec fn literal_negative(s: Seq<u8>) -> bool {
    s.len() > 0 && s[0] == 0x2d
}

/// What `usize::from_str` accepts: an optional `+`, then digits, value in
/// range.
pub open spec fn spec_parse_usize(s: Seq<u8>) -> Option<usize> {
    if !literal_negative(s) && all_digits(literal_digits(s)) && digits_val(literal_digits(s))
        <= usize::MAX {
        Some(digits_val(literal_digits(s)) as usize)
    } else {
        None
    }
}

/// Parse an unsigned decimal literal exactly as `usize::from_str` does.
pub fn parse_usize(s: &[u8]) -> (r: Option<usize>)
    ensures
        r == spec_parse_usize(s@),
{
    let digits: &[u8] = if s.len() > 0 && s[0] == 0x2b {
        slice_drop_first(s)
    } else if s.len() > 0 && s[0] == 0x2d {
        return None;
    } else {
        s
    };
    assert(digits@ == literal_digits(s@));
    match parse_digits_u64(digits) {
        Some(v) => {
            if v <= usize::MAX as u64 {
                Some(v as usize)
            } else {
                None
            }
        },
        None => None,
    }
}

/// What `i32::from_str` accepts: an optional sign, then digits, value in
/// range.
pub open spec fn spec_parse_i32(s: Seq<u8>) -> Option<i32> {
    if all_digits(literal_digits(s)) {
        if literal_negative(s) {
            if digits_val(literal_digits(s)) <= 0x8000_0000 {
                Some((0 - digits_val(literal_digits(s))) as i32)
            } else {
                None
            }
        } else {
            if digits_val(literal_digits(s)) <= i32::MAX {
                Some(digits_val(literal_digits(s)) as i32)
            } else {
                None
            }
        }
    } else {
        None
    }
}

/// Parse a signed decimal literal exactly as `i32::from_str` does.
pub fn parse_i32(s: &[u8]) -> (r: Option<i32>)
    ensures
        r == spec_parse_i32(s@),
{
    let negative = s.len() > 0 && s[0] == 0x2d;
    let digits: &[u8] = if s.len() > 0 && (s[0] == 0x2b || s[0] == 0x2d) {
        slice_drop_first(s)
    } else {
        s
    };
    assert(digits@ == literal_digits(s@));
    match parse_digits_u64(digits) {
        Some(v) => {
            if negative {
                if v <= 0x8000_0000 {
                    Some((0i64 - v as i64) as i32)
                } else {
                    None
                }
            } else {
                if v <= i32::MAX as u64 {
                    Some(v as i32)
                } else {
                    None
                }
            }
        },
        None => None,
    }
}

/// The slice without its first element.
pub fn slice_drop_first<'a>(s: &'a [u8]) -> (r: &'a [u8])
    requires
        s@.len() > 0,
    ensures
        r@ == s@.skip(1),
{
    let r = slice_subrange(s, 1, s.len());
    assert(r@ =~= s@.skip(1));
    r
}

} // verus!
