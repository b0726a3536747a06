//! String splitting, trimming and percent-decoding, as used by the query,
//! cookie and header parsers.
use vstd::prelude::*;
use vstd::string::*;
use vstd::utf8::*;

verus! {

/// Unicode `White_Space`, which `char::is_whitespace` and `str::trim` use.
pub open spec fn is_white_space(c: char) -> bool {
    let u = c as u32;
    ||| 9 <= u <= 13
    ||| u == 32
    ||| u == 0x85
    ||| u == 0xa0
    ||| u == 0x1680
    ||| 0x2000 <= u <= 0x200a
    ||| u == 0x2028
    ||| u == 0x2029
    ||| u == 0x202f
    ||| u == 0x205f
    ||| u == 0x3000
}

/// `s` without its leading white space.
pub open spec fn trim_left(s: Seq<char>) -> Seq<char>
    decreases s.len(),
{
    if s.len() > 0 && is_white_space(s[0]) {
        trim_left(s.drop_first())
    } else {
        s
    }
}

/// `s` without its trailing white space.
pub open spec fn trim_right(s: Seq<char>) -> Seq<char>
    decreases s.len(),
{
    if s.len() > 0 && is_white_space(s.last()) {
        trim_right(s.drop_last())
    } else {
        s
    }
}

/// `s` without leading and trailing white space.
pub open spec fn trimmed(s: Seq<char>) -> Seq<char> {
    trim_right(trim_left(s))
}

/// `str::trim`: claims that the result is the string without its leading
/// and trailing Unicode white space, as its documentation says.
#[verifier::external_body]
pub(crate) fn str_trim<'a>(s: &'a str) -> (r: &'a str)
    ensures
        r@ == trimmed(s@),
{
    s.trim()
}

/// `str::split_once` with a character: claims that `Some((a, b))` splits
/// `s` at the first occurrence of `sep`, and `None` that there is none.
#[verifier::external_body]
pub(crate) fn split_once_char<'a>(s: &'a str, sep: char) -> (r: Option<(&'a str, &'a str)>)
    ensures
        match r {
            Some((a, b)) => s@ == a@ + seq![sep] + b@ && !a@.contains(sep),
            None => !s@.contains(sep),
        },
{
    s.split_once(sep)
}

/// Whether `p` occurs in `s` at index `i`.
pub open spec fn occurs_at(s: Seq<char>, i: int, p: Seq<char>) -> bool {
    0 <= i && i + p.len() <= s.len() && s.subrange(i, i + p.len()) == p
}

/// `str::split_once` with a string pattern: claims that `Some((a, b))`
/// splits `s` around the first occurrence of `p`, and `None` that there is
/// none.
#[verifier::external_body]
pub(crate) fn split_once_str<'a>(s: &'a str, p: &str) -> (r: Option<(&'a str, &'a str)>)
    ensures
        match r {
            Some((a, b)) => s@ == a@ + p@ + b@ && forall|k: int|
                0 <= k < a@.len() ==> !#[trigger] occurs_at(s@, k, p@),
            None => forall|k: int| !#[trigger] occurs_at(s@, k, p@),
        },
{
    s.split_once(p)
}

/// The index of the first `c` in `s` (its length if there is none).
pub open spec fn first_index(s: Seq<char>, c: char) -> nat
    decreases s.len(),
{
    if s.len() == 0 {
        0
    } else if s[0] == c {
        0
    } else {
        1 + first_index(s.drop_first(), c)
    }
}

/// The pieces of `s` between the occurrences of `sep`, as `str::split`
/// gives them.
pub open spec fn split_pieces(s: Seq<char>, sep: char) -> Seq<Seq<char>>
    decreases s.len(),
{
    if s.contains(sep) {
        let i = first_index(s, sep) as int;
        proof {
            lemma_first_index_found(s, sep);
        }
        seq![s.take(i)] + split_pieces(s.skip(i + 1), sep)
    } else {
        seq![s]
    }
}

/// The first occurrence of `c`, where there is one, lies inside `s`.
pub proof fn lemma_first_index_found(s: Seq<char>, c: char)
    requires
        s.contains(c),
    ensures
        first_index(s, c) < s.len(),
        s[first_index(s, c) as int] == c,
    decreases s.len(),
{
    if s[0] != c {
        let k = choose|k: int| 0 <= k < s.len() && s[k] == c;
        assert(s.drop_first()[k - 1] == c);
        lemma_first_index_found(s.drop_first(), c);
    }
}

/// Splitting at a character that the prefix lacks splits at its first
/// occurrence.
pub proof fn lemma_first_index_split(a: Seq<char>, c: char, b: Seq<char>)
    requires
        !a.contains(c),
    ensures
        first_index(a + seq![c] + b, c) == a.len(),
        (a + seq![c] + b).contains(c),
    decreases a.len(),
{
    let s = a + seq![c] + b;
    assert(s[a.len() as int] == c);
    if a.len() > 0 {
        assert(a[0] != c) by {
            assert(a.contains(a[0]));
        }
        assert(s.drop_first() =~= a.drop_first() + seq![c] + b);
        assert(!a.drop_first().contains(c)) by {
            if a.drop_first().contains(c) {
                let k = choose|k: int| 0 <= k < a.drop_first().len() && a.drop_first()[k] == c;
                assert(a[k + 1] == c);
            }
        }
        lemma_first_index_split(a.drop_first(), c, b);
    }
}

/// The pieces of a string between the occurrences of `sep` (at least one).
pub fn split_all<'a>(s: &'a str, sep: char) -> (r: Vec<&'a str>)
    ensures
        r@.map_values(|p: &str| p@) == split_pieces(s@, sep),
{
    let mut pieces: Vec<&'a str> = Vec::new();
    let mut rest: &'a str = s;
    loop
        invariant
            pieces@.map_values(|p: &str| p@) + split_pieces(rest@, sep) == split_pieces(s@, sep),
        decreases rest@.len(),
    {
        match split_once_char(rest, sep) {
            Some((a, b)) => {
                proof {
                    lemma_first_index_split(a@, sep, b@);
                    let r = rest@;
                    assert(r.take(a@.len() as int) =~= a@);
                    assert(r.skip(a@.len() as int + 1) =~= b@);
                    assert(split_pieces(r, sep) == seq![a@] + split_pieces(b@, sep));
                }
                let ghost before = pieces@;
                pieces.push(a);
                assert(pieces@.map_values(|p: &str| p@) =~= before.map_values(|p: &str| p@) + seq![a@]);
                rest = b;
            },
            None => {
                let ghost before = pieces@;
                pieces.push(rest);
                assert(pieces@.map_values(|p: &str| p@) =~= before.map_values(|p: &str| p@) + seq![rest@]);
                return pieces;
            },
        }
    }
}

/// The value of an ASCII hexadecimal digit, if it is one.
pub open spec fn hex_value(b: u8) -> Option<u8> {
    if 48 <= b <= 57 {
        Some((b - 48) as u8)
    } else if 65 <= b <= 70 {
        Some((b - 55) as u8)
    } else if 97 <= b <= 102 {
        Some((b - 87) as u8)
    } else {
        None
    }
}

/// Percent-decoding: each `%` followed by two hexadecimal digits becomes
/// the byte they spell; every other byte (a `+` too) stays as it is.
pub open spec fn percent_decoded(b: Seq<u8>) -> Seq<u8>
    decreases b.len(),
{
    if b.len() == 0 {
        Seq::empty()
    } else if b[0] == 37 && b.len() >= 3 && hex_value(b[1]) is Some && hex_value(b[2]) is Some {
        seq![(hex_value(b[1])->0 * 16 + hex_value(b[2])->0) as u8] + percent_decoded(b.skip(3))
    } else {
        seq![b[0]] + percent_decoded(b.skip(1))
    }
}

/// `urlencoding::decode`, made owned: claims that the result is the
/// percent-decoded bytes read as UTF-8, and `None` exactly when they are
/// not valid UTF-8.
#[verifier::external_body]
pub(crate) fn url_decode(s: &str) -> (r: Option<String>)
    ensures
        match r {
            Some(d) => valid_utf8(percent_decoded(s.spec_bytes())) && encode_utf8(d@)
                == percent_decoded(s.spec_bytes()),
            None => !valid_utf8(percent_decoded(s.spec_bytes())),
        },
{
    urlencoding::decode(s).ok().map(|d| d.into_owned())
}


/// The UTF-8 encoding of two strings one after the other is their
/// encodings one after the other.
pub proof fn lemma_encode_concat(a: Seq<char>, b: Seq<char>)
    ensures
        encode_utf8(a + b) == encode_utf8(a) + encode_utf8(b),
    decreases a.len(),
{
    if a.len() == 0 {
        assert(a + b =~= b);
        assert(encode_utf8(a) =~= Seq::<u8>::empty());
        assert(encode_utf8(a) + encode_utf8(b) =~= encode_utf8(b));
    } else {
        assert((a + b).drop_first() =~= a.drop_first() + b);
        assert((a + b)[0] == a[0]);
        lemma_encode_concat(a.drop_first(), b);
    }
}

} // verus!
