//! Byte and text helpers shared by the parsers.
use vstd::prelude::*;
use vstd::string::*;
use vstd::utf8::*;

verus! {

/// `std::str::from_utf8`: the bytes as a string slice when they are valid
/// UTF-8. Claims that the result is `Some` exactly for valid UTF-8 (as vstd
/// defines it) and that the string has the same bytes.
#[verifier::external_body]
pub(crate) fn utf8_str<'a>(bytes: &'a [u8]) -> (r: Option<&'a str>)
    ensures
        match r {
            Some(s) => valid_utf8(bytes@) && s.spec_bytes() == bytes@,
            None => !valid_utf8(bytes@),
        },
{
    std::str::from_utf8(bytes).ok()
}

/// Whether `s` starts with `p`.
pub open spec fn starts_with(s: Seq<u8>, p: Seq<u8>) -> bool {
    p.len() <= s.len() && s.take(p.len() as int) == p
}

/// Whether `s1[start..start + s2.len()]` equals `s2`.
pub fn matches_at(s1: &[u8], start: usize, s2: &[u8]) -> (r: bool)
    requires
        start + s2@.len() <= s1@.len(),
    ensures
        r == (s1@.subrange(start as int, start + s2@.len()) == s2@),
{
    let n = s2.len();
    let m = s1.len();
    let mut k: usize = 0;
    while k < n
        invariant
            n == s2@.len(),
            m == s1@.len(),
            start + n <= m,
            k <= n,
            forall|q: int| 0 <= q < k ==> s1@[start + q] == s2@[q],
        decreases n - k,
    {
        if s1[start + k] != s2[k] {
            assert(s1@.subrange(start as int, start + n)[k as int] != s2@[k as int]);
            return false;
        }
        k += 1;
    }
    assert(s1@.subrange(start as int, start + n) =~= s2@);
    true
}

/// Whether `s` starts with `p`.
pub fn bytes_start_with(s: &[u8], p: &[u8]) -> (r: bool)
    ensures
        r == starts_with(s@, p@),
{
    if p.len() <= s.len() {
        let r = matches_at(s, 0, p);
        assert(s@.subrange(0, p@.len() as int) =~= s@.take(p@.len() as int));
        r
    } else {
        false
    }
}

/// Whether the two byte strings are equal.
pub fn bytes_eq(a: &[u8], b: &[u8]) -> (r: bool)
    ensures
        r == (a@ == b@),
{
    if a.len() != b.len() {
        return false;
    }
    let r = matches_at(a, 0, b);
    assert(a@.subrange(0, b@.len() as int) =~= a@);
    r
}

/// The empty string; its bytes are the empty sequence.
pub fn empty_str() -> (r: &'static str)
    ensures
        r.spec_bytes() == Seq::<u8>::empty(),
        r@ == Seq::<char>::empty(),
{
    let r = "";
    proof {
        reveal_strlit("");
        assert(r@ =~= Seq::<char>::empty());
    }
    r
}

/// Appends the bytes of `data` to `v`.
pub fn append_bytes(v: &mut Vec<u8>, data: &[u8])
    ensures
        final(v)@ == old(v)@ + data@,
{
    let ghost start = v@;
    let mut i: usize = 0;
    while i < data.len()
        invariant
            i <= data@.len(),
            v@ == start + data@.take(i as int),
        decreases data@.len() - i,
    {
        v.push(data[i]);
        assert(data@.take(i + 1) =~= data@.take(i as int).push(data@[i as int]));
        i += 1;
    }
    assert(data@.take(i as int) =~= data@);
}

/// Whether two strings are equal.
pub fn str_eq(a: &str, b: &str) -> (r: bool)
    ensures
        r == (a@ == b@),
{
    let r = bytes_eq(a.as_bytes(), b.as_bytes());
    proof {
        broadcast use vstd::utf8::encode_utf8_decode_utf8;

        assert(vstd::utf8::decode_utf8(encode_utf8(a@)) == a@);
        assert(vstd::utf8::decode_utf8(encode_utf8(b@)) == b@);
    }
    r
}

/// The value of a string of decimal digits.
pub open spec fn digits_value(b: Seq<u8>) -> int
    decreases b.len(),
{
    if b.len() == 0 {
        0
    } else {
        digits_value(b.drop_last()) * 10 + (b.last() - 48)
    }
}

/// Whether every byte is an ASCII decimal digit.
pub open spec fn all_digits(b: Seq<u8>) -> bool {
    forall|i: int| 0 <= i < b.len() ==> 48 <= #[trigger] b[i] <= 57
}

/// How Rust parses an unsigned integer no greater than `max` from a
/// string's bytes: an optional `+`, then one or more decimal digits and
/// nothing else, whose value must not exceed `max`.
pub open spec fn spec_parse_unsigned(b: Seq<u8>, max: int) -> Option<int> {
    let digits = if b.len() > 0 && b[0] == 43 {
        b.skip(1)
    } else {
        b
    };
    if digits.len() == 0 || !all_digits(digits) || digits_value(digits) > max {
        None
    } else {
        Some(digits_value(digits))
    }
}

/// Parses an unsigned integer no greater than `max` (see `spec_parse_unsigned`).
pub fn parse_unsigned(s: &str, max: u64) -> (r: Option<u64>)
    ensures
        match r {
            Some(v) => spec_parse_unsigned(s.spec_bytes(), max as int) == Some(v as int),
            None => spec_parse_unsigned(s.spec_bytes(), max as int) is None,
        },
{
    let b = s.as_bytes();
    let start: usize = if b.len() > 0 && b[0] == 43 {
        1
    } else {
        0
    };
    let ghost digits = if b@.len() > 0 && b@[0] == 43 {
        b@.skip(1)
    } else {
        b@
    };
    assert(digits =~= b@.skip(start as int));
    if start == b.len() {
        return None;
    }
    let mut val: u64 = 0;
    let mut exceeded = false;
    let mut i: usize = start;
    while i < b.len()
        invariant
            start <= i <= b@.len(),
            b@ == s.spec_bytes(),
            digits == b@.skip(start as int),
            digits == (if b@.len() > 0 && b@[0] == 43 {
                b@.skip(1)
            } else {
                b@
            }),
            all_digits(b@.subrange(start as int, i as int)),
            !exceeded ==> val == digits_value(b@.subrange(start as int, i as int)) && val <= max,
            exceeded ==> digits_value(b@.subrange(start as int, i as int)) > max,
        decreases b@.len() - i,
    {
        let c = b[i];
        if c < 48 || c > 57 {
            assert(digits[i - start] == c);
            assert(!all_digits(digits));
            assert(spec_parse_unsigned(b@, max as int) is None);
            return None;
        }
        let ghost p = b@.subrange(start as int, i as int);
        assert(b@.subrange(start as int, i + 1) =~= p.push(c));
        assert(p.push(c).drop_last() =~= p);
        if !exceeded {
            let d = (c - 48) as u64;
            if d > max {
                exceeded = true;
            } else if val > (max - d) / 10 {
                assert(val * 10 + d > max) by (nonlinear_arith)
                    requires
                        val > (max - d) / 10,
                        d <= max,
                ;
                exceeded = true;
            } else {
                assert(val * 10 + d <= max) by (nonlinear_arith)
                    requires
                        val <= (max - d) / 10,
                        d <= max,
                ;
                val = val * 10 + d;
            }
        }
        i += 1;
    }
    assert(b@.subrange(start as int, b@.len() as int) =~= digits);
    if exceeded {
        None
    } else {
        Some(val)
    }
}

} // verus!
