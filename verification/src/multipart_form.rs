//! A stateless parser for the bodies of multipart POST requests
//! (`multipart/form-data`), built on a Boyer-Moore bad-character search.
use vstd::prelude::*;
use vstd::string::*;
use vstd::utf8::*;
use crate::text::{matches_at, bytes_start_with, starts_with, utf8_str, empty_str};

verus! {

/// Position of the last occurrence of `c` in `s`, or -1 when `c` does not occur.
pub open spec fn last_pos(s: Seq<u8>, c: u8) -> int
    decreases s.len(),
{
    if s.len() == 0 {
        -1
    } else if s.last() == c {
        s.len() - 1
    } else {
        last_pos(s.drop_last(), c)
    }
}

/// Bad-character shift of `c` for the search string `s`: the distance from
/// the last occurrence of `c` to the end of `s`, or `s.len()` when `c` does
/// not occur in `s`.
pub open spec fn bad_char_shift(s: Seq<u8>, c: u8) -> int {
    s.len() - 1 - last_pos(s, c)
}

/// Whether `m` is the bad-character map of `s`: one entry per byte value.
pub open spec fn is_byte_map_of(m: Seq<u8>, s: Seq<u8>) -> bool {
    &&& m.len() == 256
    &&& forall|c: u8| #[trigger] m[c as int] as int == bad_char_shift(s, c)
}

/// Whether `s2` occurs in `s1` starting at index `i`.
pub open spec fn occurs_at(s1: Seq<u8>, s2: Seq<u8>, i: int) -> bool {
    &&& 0 <= i
    &&& i + s2.len() <= s1.len()
    &&& s1.subrange(i, i + s2.len()) == s2
}

/// Whether `s1` ends with the first `l` bytes of `s2` (`l` at least 1).
pub open spec fn ends_with_prefix_of(s1: Seq<u8>, s2: Seq<u8>, l: int) -> bool {
    &&& 1 <= l <= s1.len()
    &&& l <= s2.len()
    &&& s1.subrange(s1.len() - l, s1.len() as int) == s2.subrange(0, l)
}

/// Index of the first occurrence of `s2` in `s1`.
pub open spec fn spec_find_subslice(s1: Seq<u8>, s2: Seq<u8>) -> Option<int> {
    if exists|i: int| occurs_at(s1, s2, i) {
        Some(choose|i: int| occurs_at(s1, s2, i) && forall|j: int| 0 <= j < i ==> !occurs_at(s1, s2, j))
    } else {
        None
    }
}

/// `s1.len() - l` for the longest `l` such that `s1` ends with the first `l`
/// bytes of `s2`.
pub open spec fn spec_find_ending_subslice_of(s1: Seq<u8>, s2: Seq<u8>) -> Option<int> {
    if exists|l: int| ends_with_prefix_of(s1, s2, l) {
        Some(
            s1.len() - (choose|l: int|
                ends_with_prefix_of(s1, s2, l) && forall|k: int| k > l ==> !ends_with_prefix_of(s1, s2, k)),
        )
    } else {
        None
    }
}

proof fn lemma_last_pos(s: Seq<u8>, c: u8)
    ensures
        -1 <= last_pos(s, c) < s.len(),
        last_pos(s, c) >= 0 ==> s[last_pos(s, c)] == c,
        forall|p: int| 0 <= p < s.len() && s[p] == c ==> p <= last_pos(s, c),
    decreases s.len(),
{
    if s.len() > 0 && s.last() != c {
        lemma_last_pos(s.drop_last(), c);
        assert forall|p: int| 0 <= p < s.len() && s[p] == c implies p <= last_pos(s, c) by {
            if p < s.len() - 1 {
                assert(s.drop_last()[p] == s[p]);
            }
        }
    }
}

proof fn lemma_last_pos_push(s: Seq<u8>, x: u8, c: u8)
    ensures
        last_pos(s.push(x), c) == if x == c {
            s.len() as int
        } else {
            last_pos(s, c)
        },
{
    assert(s.push(x).drop_last() =~= s);
}

/// The bad-character map of `s` for the Boyer-Moore search: entry `c` is the
/// number of positions a search window may be shifted when its last byte is
/// `c`. `None` when `s` is longer than 255 bytes.
pub fn byte_map(s: &[u8]) -> (r: Option<[u8; 256]>)
    ensures
        match r {
            Some(m) => s@.len() <= 255 && is_byte_map_of(m@, s@),
            None => s@.len() > 255,
        },
{
    if s.len() > 255 {
        return None;
    }
    let n = s.len();
    let mut map: [u8; 256] = [n as u8; 256];
    let mut i: usize = 0;
    while i < n
        invariant
            n == s@.len(),
            n <= 255,
            i <= n,
            map@.len() == 256,
            forall|c: u8| #[trigger] map@[c as int] as int == n - 1 - last_pos(s@.take(i as int), c),
        decreases n - i,
    {
        let ghost old_map = map@;
        let b = s[i];
        proof {
            assert(s@.take(i + 1) =~= s@.take(i as int).push(b));
            assert forall|c: u8| true implies last_pos(s@.take(i + 1), c) == if b == c {
                i as int
            } else {
                last_pos(s@.take(i as int), c)
            } by {
                lemma_last_pos_push(s@.take(i as int), b, c);
            }
            assert forall|c: u8| true implies -1 <= #[trigger] last_pos(s@.take(i as int), c) < i by {
                lemma_last_pos(s@.take(i as int), c);
            }
        }
        map[b as usize] = (n - (i + 1)) as u8;
        proof {
            assert forall|c: u8| #[trigger] map@[c as int] as int == n - 1 - last_pos(
                s@.take(i + 1),
                c,
            ) by {
                if c != b {
                    assert(map@[c as int] == old_map[c as int]);
                }
            }
        }
        i += 1;
    }
    assert(s@.take(n as int) =~= s@);
    Some(map)
}

proof fn lemma_first_occurrence(s1: Seq<u8>, s2: Seq<u8>, i: int)
    requires
        occurs_at(s1, s2, i),
        forall|j: int| 0 <= j < i ==> !occurs_at(s1, s2, j),
    ensures
        spec_find_subslice(s1, s2) == Some(i),
{
    let k = choose|k: int| occurs_at(s1, s2, k) && forall|j: int| 0 <= j < k ==> !occurs_at(s1, s2, j);
    assert(occurs_at(s1, s2, k) && forall|j: int| 0 <= j < k ==> !occurs_at(s1, s2, j));
    if k < i {
        assert(!occurs_at(s1, s2, k));
    }
    if k > i {
        assert(!occurs_at(s1, s2, i));
    }
}

/// A window whose last byte occurs in `s2` only `skip` or more positions
/// before its end cannot be followed by a match in the next `skip` windows.
proof fn lemma_skip_window(s1: Seq<u8>, s2: Seq<u8>, i: int, skip: int)
    requires
        0 <= i,
        s2.len() >= 1,
        i + s2.len() <= s1.len(),
        skip == bad_char_shift(s2, s1[i + s2.len() - 1]),
    ensures
        forall|j: int| i <= j < i + skip ==> !occurs_at(s1, s2, j),
{
    let n2 = s2.len();
    let c = s1[i + n2 - 1];
    lemma_last_pos(s2, c);
    assert forall|j: int| i <= j < i + skip implies !occurs_at(s1, s2, j) by {
        if occurs_at(s1, s2, j) {
            let p = i + n2 - 1 - j;
            assert(s1.subrange(j, j + n2)[p] == s1[i + n2 - 1]);
            assert(s2[p] == c);
        }
    }
}

/// Index of the first occurrence of `s2` in `s1`, found with the
/// bad-character rule: windows whose last byte cannot line up with `s2` are
/// skipped without being compared.
pub fn find_subslice(s1: &[u8], s2: &[u8], s2_byte_map: &[u8]) -> (r: Option<usize>)
    requires
        s2@.len() >= 1,
        is_byte_map_of(s2_byte_map@, s2@),
    ensures
        match r {
            Some(i) => spec_find_subslice(s1@, s2@) == Some(i as int),
            None => spec_find_subslice(s1@, s2@) is None,
        },
{
    let n1 = s1.len();
    let n2 = s2.len();
    let mut i: usize = 0;
    while i <= n1 && n1 - i >= n2
        invariant
            n1 == s1@.len(),
            n2 == s2@.len(),
            n2 >= 1,
            is_byte_map_of(s2_byte_map@, s2@),
            forall|j: int| 0 <= j < i ==> !occurs_at(s1@, s2@, j),
        decreases n1 + 1 - i,
    {
        let c = s1[i + n2 - 1];
        let skip = s2_byte_map[c as usize];
        proof {
            lemma_last_pos(s2@, c);
            assert(s2_byte_map@[c as int] as int == bad_char_shift(s2@, c));
        }
        if skip > 0 {
            proof {
                lemma_skip_window(s1@, s2@, i as int, skip as int);
            }
            i += skip as usize;
        } else if matches_at(s1, i, s2) {
            proof {
                lemma_first_occurrence(s1@, s2@, i as int);
            }
            return Some(i);
        } else {
            i += 1;
        }
    }
    proof {
        assert forall|j: int| !occurs_at(s1@, s2@, j) by {
            if j >= i {
                assert(j + n2 > n1);
            }
        }
    }
    None
}

/// Whether `s1` ends with the first `l` bytes of `s2`.
fn ends_with_prefix(s1: &[u8], s2: &[u8], l: usize) -> (r: bool)
    requires
        1 <= l <= s1@.len(),
        l <= s2@.len(),
    ensures
        r == ends_with_prefix_of(s1@, s2@, l as int),
{
    let n1 = s1.len();
    let mut k: usize = 0;
    while k < l
        invariant
            n1 == s1@.len(),
            1 <= l <= n1,
            l <= s2@.len(),
            k <= l,
            forall|q: int| 0 <= q < k ==> s1@[n1 - l + q] == s2@[q],
        decreases l - k,
    {
        if s1[n1 - l + k] != s2[k] {
            assert(s1@.subrange(n1 - l, n1 as int)[k as int] != s2@.subrange(0, l as int)[k as int]);
            return false;
        }
        k += 1;
    }
    assert(s1@.subrange(n1 - l, n1 as int) =~= s2@.subrange(0, l as int));
    true
}

proof fn lemma_longest_ending(s1: Seq<u8>, s2: Seq<u8>, l: int)
    requires
        ends_with_prefix_of(s1, s2, l),
        forall|k: int| k > l ==> !ends_with_prefix_of(s1, s2, k),
    ensures
        spec_find_ending_subslice_of(s1, s2) == Some(s1.len() - l),
{
    let k = choose|k: int|
        ends_with_prefix_of(s1, s2, k) && forall|m: int| m > k ==> !ends_with_prefix_of(s1, s2, m);
    assert(ends_with_prefix_of(s1, s2, k) && forall|m: int| m > k ==> !ends_with_prefix_of(s1, s2, m));
    if k < l {
        assert(!ends_with_prefix_of(s1, s2, l));
    }
    if k > l {
        assert(!ends_with_prefix_of(s1, s2, k));
    }
}

/// If byte `s1[s1.len() - i]` occurs in `s2` no later than position
/// `last`, then `s1` cannot end with a prefix of `s2` longer than `last + i`.
proof fn lemma_ending_bound(s1: Seq<u8>, s2: Seq<u8>, i: int)
    requires
        1 <= i <= s1.len(),
    ensures
        forall|l: int|
            #![trigger ends_with_prefix_of(s1, s2, l)]
            l >= i && ends_with_prefix_of(s1, s2, l) ==> l - i <= last_pos(s2, s1[s1.len() - i]),
{
    let c = s1[s1.len() - i];
    lemma_last_pos(s2, c);
    assert forall|l: int|
        #![trigger ends_with_prefix_of(s1, s2, l)]
        l >= i && ends_with_prefix_of(s1, s2, l) implies l - i <= last_pos(s2, c) by {
        assert(s1.subrange(s1.len() - l, s1.len() as int)[l - i] == s1[s1.len() - i]);
        assert(s2.subrange(0, l)[l - i] == s2[l - i]);
    }
}

/// Where `s1` ends with the longest possible non-empty prefix of `s2`:
/// `Some(s1.len() - l)` for the longest such prefix length `l`.
///
/// Example: for `s1 = "foobar"` and `s2 = "barnacle"` the result is `Some(3)`.
pub fn find_ending_subslice_of(s1: &[u8], s2: &[u8], s2_byte_map: &[u8]) -> (r: Option<usize>)
    requires
        is_byte_map_of(s2_byte_map@, s2@),
    ensures
        match r {
            Some(k) => spec_find_ending_subslice_of(s1@, s2@) == Some(k as int),
            None => spec_find_ending_subslice_of(s1@, s2@) is None,
        },
{
    let n1 = s1.len();
    let n2 = s2.len();
    if n1 == 0 || n2 == 0 {
        return None;
    }
    // Upper bound on the length of a matching prefix, narrowed by the bad
    // byte map: the byte at distance `i` from the end of `s1` must occur
    // in `s2` at a position that leaves room for the rest of the prefix.

    let mut longest_possible_subslice: usize = if n1 < n2 {
        n1
    } else {
        n2
    };
    // `j` bytes at the end of `s1` have been looked at
    let mut j: usize = 0;
    while j < longest_possible_subslice
        invariant
            n1 == s1@.len(),
            n2 == s2@.len(),
            n1 >= 1,
            n2 >= 1,
            longest_possible_subslice <= n1,
            longest_possible_subslice <= n2,
            is_byte_map_of(s2_byte_map@, s2@),
            forall|l: int| l > longest_possible_subslice ==> !ends_with_prefix_of(s1@, s2@, l),
        decreases longest_possible_subslice - j,
    {
        let i = j + 1;
        let c = s1[n1 - i];
        proof {
            lemma_last_pos(s2@, c);
            lemma_ending_bound(s1@, s2@, i as int);
            assert(s2_byte_map@[c as int] as int == bad_char_shift(s2@, c));
        }
        if s2_byte_map[c as usize] as usize == n2 {
            // `c` does not occur in `s2`
            longest_possible_subslice = j;
        } else {
            let last_occurrence = n2 - 1 - s2_byte_map[c as usize] as usize;
            // the longest prefix with `c` at this position is
            // `last_occurrence + i` long
            if last_occurrence < longest_possible_subslice - i {
                longest_possible_subslice = last_occurrence + i;
            }
            j = i;
        }
    }
    let mut l: usize = longest_possible_subslice;
    while l >= 1
        invariant
            n1 == s1@.len(),
            l <= n1,
            l <= s2@.len(),
            forall|k: int| k > l ==> !ends_with_prefix_of(s1@, s2@, k),
        decreases l,
    {
        if ends_with_prefix(s1, s2, l) {
            proof {
                lemma_longest_ending(s1@, s2@, l as int);
            }
            return Some(n1 - l);
        }
        l -= 1;
    }
    None
}

/// Whether `s1` ends with a non-empty prefix of `s2`.
pub fn ends_with_subslice(s1: &[u8], s2: &[u8], s2_byte_map: &[u8]) -> (r: bool)
    requires
        is_byte_map_of(s2_byte_map@, s2@),
    ensures
        r == exists|l: int| ends_with_prefix_of(s1@, s2@, l),
{
    find_ending_subslice_of(s1, s2, s2_byte_map).is_some()
}

/// Length of the value at the start of `buf`: up to the first occurrence of
/// the boundary, else up to a possible start of the boundary at the end of
/// `buf`, else all of `buf`.
#[verifier::opaque]
pub open spec fn spec_find_value_len(buf: Seq<u8>, boundary: Seq<u8>) -> int {
    match spec_find_subslice(buf, boundary) {
        Some(i) => i,
        None => match spec_find_ending_subslice_of(buf, boundary) {
            Some(i) => i,
            None => buf.len() as int,
        },
    }
}

proof fn lemma_find_subslice_bound(s1: Seq<u8>, s2: Seq<u8>)
    ensures
        spec_find_subslice(s1, s2) matches Some(i) ==> occurs_at(s1, s2, i),
        spec_find_ending_subslice_of(s1, s2) matches Some(i) ==> 0 <= i < s1.len(),
{
    if exists|i: int| occurs_at(s1, s2, i) {
        let i = choose|i: int| occurs_at(s1, s2, i) && forall|j: int| 0 <= j < i ==> !occurs_at(s1, s2, j);
        let w = choose|i: int| occurs_at(s1, s2, i);
        if !(occurs_at(s1, s2, i) && forall|j: int| 0 <= j < i ==> !occurs_at(s1, s2, j)) {
            lemma_first_exists(s1, s2, w);
        }
    }
    if exists|l: int| ends_with_prefix_of(s1, s2, l) {
        let w = choose|l: int| ends_with_prefix_of(s1, s2, l);
        lemma_longest_exists(s1, s2, w);
    }
}

proof fn lemma_first_exists(s1: Seq<u8>, s2: Seq<u8>, w: int)
    requires
        occurs_at(s1, s2, w),
    ensures
        exists|i: int| occurs_at(s1, s2, i) && forall|j: int| 0 <= j < i ==> !occurs_at(s1, s2, j),
    decreases w,
{
    if exists|j: int| 0 <= j < w && occurs_at(s1, s2, j) {
        let j = choose|j: int| 0 <= j < w && occurs_at(s1, s2, j);
        lemma_first_exists(s1, s2, j);
    }
}

proof fn lemma_longest_exists(s1: Seq<u8>, s2: Seq<u8>, w: int)
    requires
        ends_with_prefix_of(s1, s2, w),
    ensures
        exists|l: int|
            ends_with_prefix_of(s1, s2, l) && forall|k: int| k > l ==> !ends_with_prefix_of(s1, s2, k),
    decreases s1.len() - w,
{
    if exists|k: int| k > w && ends_with_prefix_of(s1, s2, k) {
        let k = choose|k: int| k > w && ends_with_prefix_of(s1, s2, k);
        lemma_longest_exists(s1, s2, k);
    }
}

/// Length of the value at the start of `buf` (see `spec_find_value_len`).
pub fn find_value_len(buf: &[u8], boundary: &[u8], boundary_byte_map: &[u8]) -> (r: usize)
    requires
        boundary@.len() >= 1,
        is_byte_map_of(boundary_byte_map@, boundary@),
    ensures
        r == spec_find_value_len(buf@, boundary@),
        r <= buf@.len(),
{
    reveal(spec_find_value_len);
    proof {
        lemma_find_subslice_bound(buf@, boundary@);
    }
    if let Some(i) = find_subslice(buf, boundary, boundary_byte_map) {
        i
    } else if let Some(i) = find_ending_subslice_of(buf, boundary, boundary_byte_map) {
        i
    } else {
        buf.len()
    }
}

/// `\r\n`
pub open spec fn newline() -> Seq<u8> {
    seq![13u8, 10u8]
}

/// `--`, which follows the last boundary of a form.
pub open spec fn terminator() -> Seq<u8> {
    seq![45u8, 45u8]
}

/// `Content-Disposition: `
pub open spec fn cd_prefix() -> Seq<u8> {
    seq![
        67u8, 111u8, 110u8, 116u8, 101u8, 110u8, 116u8, 45u8, 68u8, 105u8, 115u8, 112u8, 111u8,
        115u8, 105u8, 116u8, 105u8, 111u8, 110u8, 58u8, 32u8,
    ]
}

/// `Content-Type: `
pub open spec fn ct_prefix() -> Seq<u8> {
    seq![67u8, 111u8, 110u8, 116u8, 101u8, 110u8, 116u8, 45u8, 84u8, 121u8, 112u8, 101u8, 58u8, 32u8]
}

fn newline_bytes() -> (r: Vec<u8>)
    ensures
        r@ == newline(),
{
    let r = vec![13u8, 10u8];
    assert(r@ =~= newline());
    r
}

fn terminator_bytes() -> (r: Vec<u8>)
    ensures
        r@ == terminator(),
{
    let r = vec![45u8, 45u8];
    assert(r@ =~= terminator());
    r
}

fn cd_prefix_bytes() -> (r: Vec<u8>)
    ensures
        r@ == cd_prefix(),
{
    let r = vec![
        67u8, 111u8, 110u8, 116u8, 101u8, 110u8, 116u8, 45u8, 68u8, 105u8, 115u8, 112u8, 111u8,
        115u8, 105u8, 116u8, 105u8, 111u8, 110u8, 58u8, 32u8,
    ];
    assert(r@ =~= cd_prefix());
    r
}

fn ct_prefix_bytes() -> (r: Vec<u8>)
    ensures
        r@ == ct_prefix(),
{
    let r = vec![67u8, 111u8, 110u8, 116u8, 101u8, 110u8, 116u8, 45u8, 84u8, 121u8, 112u8, 101u8, 58u8, 32u8];
    assert(r@ =~= ct_prefix());
    r
}

/// What one call of `parse` found at the start of its buffer.
pub enum ParseResult<'a> {
    /// A new form field: the number of bytes parsed (boundary, headers and
    /// value), its Content-Disposition, its Content-Type (empty when it
    /// has none), and the start of its value.
    NewValue(usize, &'a str, &'a str, &'a [u8]),
    /// More of the value of the current field.
    Continue(&'a [u8]),
    /// The buffer ends before the result can be known; read more data and
    /// append it to the same buffer.
    NeedMoreData,
    /// The closing boundary of the form.
    Finished,
    /// The form is malformed.
    Error,
}

/// The meaning of a `ParseResult`, with strings taken as their bytes.
pub enum SpecParseResult {
    NewValue(int, Seq<u8>, Seq<u8>, Seq<u8>),
    Continue(Seq<u8>),
    NeedMoreData,
    Finished,
    Error,
}

impl<'a> View for ParseResult<'a> {
    type V = SpecParseResult;

    open spec fn view(&self) -> SpecParseResult {
        match self {
            ParseResult::NewValue(n, cd, ct, v) => SpecParseResult::NewValue(
                *n as int,
                cd.spec_bytes(),
                ct.spec_bytes(),
                v@,
            ),
            ParseResult::Continue(v) => SpecParseResult::Continue(v@),
            ParseResult::NeedMoreData => SpecParseResult::NeedMoreData,
            ParseResult::Finished => SpecParseResult::Finished,
            ParseResult::Error => SpecParseResult::Error,
        }
    }
}

/// Stripping `prefix` off `buf`: the rest of `buf`, or `NeedMoreData` when
/// `buf` is shorter than `prefix` and ends with a start of it, or `Error`.
#[verifier::opaque]
pub open spec fn spec_try_strip_prefix(buf: Seq<u8>, prefix: Seq<u8>) -> Result<
    Seq<u8>,
    SpecParseResult,
> {
    if starts_with(buf, prefix) {
        Ok(buf.skip(prefix.len() as int))
    } else if buf.len() < prefix.len() && exists|l: int| ends_with_prefix_of(buf, prefix, l) {
        Err(SpecParseResult::NeedMoreData)
    } else {
        Err(SpecParseResult::Error)
    }
}

/// The index of `needle` in `buf`, or `NeedMoreData` when it is absent.
#[verifier::opaque]
pub open spec fn spec_try_find_subslice(buf: Seq<u8>, needle: Seq<u8>) -> Result<
    int,
    SpecParseResult,
> {
    match spec_find_subslice(buf, needle) {
        Some(i) => Ok(i),
        None => Err(SpecParseResult::NeedMoreData),
    }
}

/// Strips `prefix` off `buf` (see `spec_try_strip_prefix`).
pub fn try_strip_prefix<'a>(buf: &'a [u8], prefix: &[u8], prefix_byte_map: &[u8]) -> (r: Result<
    &'a [u8],
    ParseResult<'a>,
>)
    requires
        is_byte_map_of(prefix_byte_map@, prefix@),
    ensures
        match r {
            Ok(rest) => spec_try_strip_prefix(buf@, prefix@) == Ok::<Seq<u8>, SpecParseResult>(
                rest@,
            ),
            Err(e) => spec_try_strip_prefix(buf@, prefix@) == Err::<Seq<u8>, SpecParseResult>(
                e@,
            ),
        },
        r matches Ok(rest) ==> starts_with(buf@, prefix@) && rest@ == buf@.skip(
            prefix@.len() as int,
        ),
{
    reveal(spec_try_strip_prefix);
    if bytes_start_with(buf, prefix) {
        let rest = &buf[prefix.len()..buf.len()];
        assert(rest@ =~= buf@.skip(prefix@.len() as int));
        Ok(rest)
    } else if buf.len() < prefix.len() && ends_with_subslice(buf, prefix, prefix_byte_map) {
        Err(ParseResult::NeedMoreData)
    } else {
        Err(ParseResult::Error)
    }
}

/// The index of `needle` in `buf`, or `NeedMoreData` when it is absent.
pub fn try_find_subslice<'a>(buf: &'a [u8], needle: &[u8], needle_byte_map: &[u8]) -> (r: Result<
    usize,
    ParseResult<'a>,
>)
    requires
        needle@.len() >= 1,
        is_byte_map_of(needle_byte_map@, needle@),
    ensures
        match r {
            Ok(i) => spec_try_find_subslice(buf@, needle@) == Ok::<int, SpecParseResult>(i as int),
            Err(e) => spec_try_find_subslice(buf@, needle@) == Err::<int, SpecParseResult>(e@),
        },
        r matches Ok(i) ==> occurs_at(buf@, needle@, i as int),
{
    reveal(spec_try_find_subslice);
    proof {
        lemma_find_subslice_bound(buf@, needle@);
    }
    match find_subslice(buf, needle, needle_byte_map) {
        Some(i) => Ok(i),
        None => Err(ParseResult::NeedMoreData),
    }
}

/// The header lines of a new field, `b` being what follows its boundary:
/// the bytes after `\r\nContent-Disposition: `, the length of the
/// Content-Disposition, whether a Content-Type line follows, and its length.
pub open spec fn spec_field_header(b: Seq<u8>) -> Result<
    (Seq<u8>, int, bool, int),
    SpecParseResult,
> {
    match spec_try_strip_prefix(b, newline()) {
        Err(e) => Err(e),
        Ok(b1) => match spec_try_strip_prefix(b1, cd_prefix()) {
            Err(e) => Err(e),
            Ok(b2) => match spec_try_find_subslice(b2, newline()) {
                Err(e) => Err(e),
                Ok(cd_len) => match spec_try_strip_prefix(b2.skip(cd_len + 2), ct_prefix()) {
                    Err(SpecParseResult::NeedMoreData) => Err(SpecParseResult::NeedMoreData),
                    Err(_) => Ok((b2, cd_len, false, 0)),
                    Ok(after_ct) => match spec_try_find_subslice(after_ct, newline()) {
                        Err(e) => Err(e),
                        Ok(ct_len) => Ok((b2, cd_len, true, ct_len)),
                    },
                },
            },
        },
    }
}

/// What `parse` finds at the start of `buf` for the form boundary
/// `boundary`.
pub open spec fn spec_parse(buf: Seq<u8>, boundary: Seq<u8>) -> SpecParseResult {
    if !starts_with(buf, boundary) {
        SpecParseResult::Continue(buf.take(spec_find_value_len(buf, boundary)))
    } else {
        let b = buf.skip(boundary.len() as int);
        if starts_with(b, terminator()) {
            SpecParseResult::Finished
        } else {
            match spec_field_header(b) {
                Err(e) => e,
                Ok((b2, cd_len, has_ct, ct_len)) => {
                    let cd = b2.take(cd_len);
                    let ct_start = cd_len + 2 + 14;
                    let ct = if has_ct {
                        b2.subrange(ct_start, ct_start + ct_len)
                    } else {
                        Seq::<u8>::empty()
                    };
                    let ct_total_len = if has_ct {
                        14 + ct_len + 4
                    } else {
                        2
                    };
                    let value_start = cd_len + 2 + ct_total_len;
                    if !valid_utf8(cd) || !valid_utf8(ct) {
                        SpecParseResult::Error
                    } else if value_start < b2.len() {
                        let value = b2.skip(value_start);
                        let value_len = spec_find_value_len(value, boundary);
                        SpecParseResult::NewValue(
                            boundary.len() + 2 + (21 + cd_len + 2) + ct_total_len + value_len,
                            cd,
                            ct,
                            value.take(value_len),
                        )
                    } else {
                        // the headers are complete, but the value is cut off
                        // by the end of the buffer
                        SpecParseResult::NeedMoreData
                    }
                },
            }
        }
    }
}

/// Reads the header lines of a new field (see `spec_field_header`).
fn field_header<'a>(b: &'a [u8]) -> (r: Result<(&'a [u8], usize, bool, usize), ParseResult<'a>>)
    ensures
        match r {
            Ok((b2, cd_len, has_ct, ct_len)) => spec_field_header(b@) == Ok::<
                (Seq<u8>, int, bool, int),
                SpecParseResult,
            >((b2@, cd_len as int, has_ct, ct_len as int)),
            Err(e) => spec_field_header(b@) == Err::<(Seq<u8>, int, bool, int), SpecParseResult>(
                e@,
            ),
        },
        r matches Ok((b2, cd_len, has_ct, ct_len)) ==> {
            &&& b2@ == b@.skip(23)
            &&& b2@.len() + 23 == b@.len()
            &&& cd_len + 2 <= b2@.len()
            &&& has_ct ==> cd_len + 2 + 14 + ct_len + 2 <= b2@.len()
        },
{
    let nl = newline_bytes();
    let nl_map = byte_map(nl.as_slice()).unwrap();
    let cd = cd_prefix_bytes();
    let cd_map = byte_map(cd.as_slice()).unwrap();
    let ct = ct_prefix_bytes();
    let ct_map = byte_map(ct.as_slice()).unwrap();
    let b1 = match try_strip_prefix(b, nl.as_slice(), nl_map.as_slice()) {
        Ok(b1) => b1,
        Err(e) => {
            return Err(e);
        },
    };
    let b2 = match try_strip_prefix(b1, cd.as_slice(), cd_map.as_slice()) {
        Ok(b2) => b2,
        Err(e) => {
            return Err(e);
        },
    };
    let cd_len = match try_find_subslice(b2, nl.as_slice(), nl_map.as_slice()) {
        Ok(i) => i,
        Err(e) => {
            return Err(e);
        },
    };
    assert(b2@ =~= b@.skip(23));
    let n2 = b2.len();
    assert(cd_len + 2 <= n2);
    let after_cd = &b2[(cd_len + 2)..n2];
    assert(after_cd@ =~= b2@.skip(cd_len + 2));
    match try_strip_prefix(after_cd, ct.as_slice(), ct_map.as_slice()) {
        Err(ParseResult::NeedMoreData) => Err(ParseResult::NeedMoreData),
        Err(_) => Ok((b2, cd_len, false, 0)),
        Ok(after_ct) => {
            assert(after_ct@ =~= b2@.skip(cd_len + 2 + 14));
            match try_find_subslice(after_ct, nl.as_slice(), nl_map.as_slice()) {
                Ok(ct_len) => Ok((b2, cd_len, true, ct_len)),
                Err(e) => Err(e),
            }
        },
    }
}

/// Parses the start of a multipart form body.
///
/// `buf` must begin where the previous call stopped: after a `NewValue` or
/// `Continue`, the bytes parsed are dropped from the front; after
/// `NeedMoreData`, more bytes are appended to the same buffer. `boundary`
/// is the form boundary preceded by `\r\n--`, and `boundary_byte_map` its
/// bad-character map (see `byte_map`).
pub fn parse<'a>(buf: &'a [u8], boundary: &[u8], boundary_byte_map: &[u8]) -> (r: ParseResult<'a>)
    requires
        boundary@.len() >= 1,
        is_byte_map_of(boundary_byte_map@, boundary@),
    ensures
        r@ == spec_parse(buf@, boundary@),
{
    if !bytes_start_with(buf, boundary) {
        // the continuation of the value of the previous field
        let value_len = find_value_len(buf, boundary, boundary_byte_map);
        let value = &buf[0..value_len];
        assert(value@ =~= buf@.take(value_len as int));
        return ParseResult::Continue(value);
    }
    let b = &buf[boundary.len()..buf.len()];
    assert(b@ =~= buf@.skip(boundary@.len() as int));
    let term = terminator_bytes();
    if bytes_start_with(b, term.as_slice()) {
        // the end of the form
        return ParseResult::Finished;
    }
    let (b2, cd_len, has_ct, ct_len) = match field_header(b) {
        Ok(h) => h,
        Err(e) => {
            return e;
        },
    };
    let cd_bytes = &b2[0..cd_len];
    assert(cd_bytes@ =~= b2@.take(cd_len as int));
    let cd_str = match utf8_str(cd_bytes) {
        Some(s) => s,
        None => {
            return ParseResult::Error;
        },
    };
    let cd_total_len = 21 + cd_len + 2;
    let (ct_str, ct_total_len) = if has_ct {
        // after the Content-Type line there is a blank line
        let before_len = cd_len + 2 + 14;
        let ct_bytes = &b2[before_len..(before_len + ct_len)];
        assert(ct_bytes@ =~= b2@.subrange(before_len as int, before_len + ct_len));
        let ct_str = match utf8_str(ct_bytes) {
            Some(s) => s,
            None => {
                return ParseResult::Error;
            },
        };
        (ct_str, 14 + ct_len + 4)
    } else {
        // without a Content-Type there is still a blank line
        let e = empty_str();
        proof {
            assert(valid_utf8(Seq::<u8>::empty())) by {
                reveal_with_fuel(valid_utf8, 1);
            }
        }
        (e, 2)
    };
    if cd_len + 2 < b2.len() && ct_total_len < b2.len() - (cd_len + 2) {
        let value_start = cd_len + 2 + ct_total_len;
        let value = &b2[value_start..b2.len()];
        assert(value@ =~= b2@.skip(value_start as int));
        let value_len = find_value_len(value, boundary, boundary_byte_map);
        let leading_len = boundary.len() + 2 + cd_total_len + ct_total_len;
        let v = &value[0..value_len];
        assert(v@ =~= value@.take(value_len as int));
        ParseResult::NewValue(leading_len + value_len, cd_str, ct_str, v)
    } else {
        // the value starts after the end of the buffer: read more
        ParseResult::NeedMoreData
    }
}


proof fn lemma_value_len(buf: Seq<u8>, boundary: Seq<u8>)
    requires
        boundary.len() >= 1,
    ensures
        0 <= spec_find_value_len(buf, boundary) <= buf.len(),
        !starts_with(buf, boundary) && buf.len() > boundary.len() ==> spec_find_value_len(buf, boundary) >= 1,
{
    reveal(spec_find_value_len);
    lemma_find_subslice_bound(buf, boundary);
    if let Some(i) = spec_find_subslice(buf, boundary) {
        if i == 0 {
            assert(buf.take(boundary.len() as int) =~= buf.subrange(0, boundary.len() as int));
        }
    } else if let Some(i) = spec_find_ending_subslice_of(buf, boundary) {
        let l = choose|l: int|
            ends_with_prefix_of(buf, boundary, l) && forall|k: int| k > l ==> !ends_with_prefix_of(buf, boundary, k);
        if !(ends_with_prefix_of(buf, boundary, l) && forall|k: int| k > l ==> !ends_with_prefix_of(buf, boundary, k)) {
            let w = choose|l: int| ends_with_prefix_of(buf, boundary, l);
            lemma_longest_exists(buf, boundary, w);
        }
    }
}

proof fn lemma_strip_prefix(buf: Seq<u8>, prefix: Seq<u8>)
    ensures
        spec_try_strip_prefix(buf, prefix) matches Ok(rest) ==> rest == buf.skip(prefix.len() as int)
            && prefix.len() <= buf.len(),
        spec_try_strip_prefix(buf, prefix) matches Err(e) ==> (e is NeedMoreData || e is Error),
{
    reveal(spec_try_strip_prefix);
}

#[verifier::rlimit(60)]
proof fn lemma_field_header(b: Seq<u8>)
    ensures
        spec_field_header(b) matches Err(e) ==> (e is NeedMoreData || e is Error),
        spec_field_header(b) matches Ok((b2, cd_len, has_ct, ct_len)) ==> {
            &&& b2 == b.skip(23)
            &&& 23 <= b.len()
            &&& 0 <= cd_len
            &&& cd_len + 2 <= b2.len()
            &&& has_ct ==> 0 <= ct_len && cd_len + 2 + 14 + ct_len + 2 <= b2.len()
        },
{
    reveal(spec_try_find_subslice);
    assert(newline().len() == 2);
    assert(cd_prefix().len() == 21);
    assert(ct_prefix().len() == 14);
    lemma_strip_prefix(b, newline());
    match spec_try_strip_prefix(b, newline()) {
        Err(_) => {},
        Ok(b1) => {
            lemma_strip_prefix(b1, cd_prefix());
            match spec_try_strip_prefix(b1, cd_prefix()) {
                Err(_) => {},
                Ok(b2) => {
                    assert(b2 =~= b.skip(23));
                    lemma_find_subslice_bound(b2, newline());
                    match spec_try_find_subslice(b2, newline()) {
                        Err(_) => {},
                        Ok(cd_len) => {
                            let rest = b2.skip(cd_len + 2);
                            lemma_strip_prefix(rest, ct_prefix());
                            match spec_try_strip_prefix(rest, ct_prefix()) {
                                Err(_) => {},
                                Ok(after_ct) => {
                                    lemma_find_subslice_bound(after_ct, newline());
                                },
                            }
                        },
                    }
                },
            }
        },
    }
}

proof fn lemma_parse_new_value(buf: Seq<u8>, boundary: Seq<u8>)
    requires
        boundary.len() >= 1,
        starts_with(buf, boundary),
    ensures
        spec_parse(buf, boundary) matches SpecParseResult::NewValue(n, cd, ct, v) ==> {
            &&& boundary.len() < n <= buf.len()
            &&& v.len() <= n
            &&& v == buf.subrange(n - v.len(), n)
        },
{
    let b = buf.skip(boundary.len() as int);
    lemma_field_header(b);
    if !starts_with(b, terminator()) {
        match spec_field_header(b) {
            Err(_) => {},
            Ok((b2, cd_len, has_ct, ct_len)) => {
                let ct_total_len = if has_ct {
                    14 + ct_len + 4
                } else {
                    2
                };
                let value_start = cd_len + 2 + ct_total_len;
                if value_start < b2.len() {
                    let value = b2.skip(value_start);
                    lemma_value_len(value, boundary);
                    let value_len = spec_find_value_len(value, boundary);
                    let n = boundary.len() + 2 + (21 + cd_len + 2) + ct_total_len + value_len;
                    assert(value.take(value_len) =~= buf.subrange(n - value_len, n));
                }
            },
        }
    }
}

/// What `parse` returns lies in its buffer: a new field spans more than
/// the boundary and at most the buffer, its value being the last bytes of
/// that span; the value of a continuation is a prefix of the buffer, and
/// not empty where the buffer is longer than the boundary. So each
/// `NewValue` or `Continue` consumes at least one byte.
pub proof fn lemma_parse_progress(buf: Seq<u8>, boundary: Seq<u8>)
    requires
        boundary.len() >= 1,
    ensures
        spec_parse(buf, boundary) matches SpecParseResult::NewValue(n, cd, ct, v) ==> {
            &&& boundary.len() < n <= buf.len()
            &&& v.len() <= n
            &&& v == buf.subrange(n - v.len(), n)
        },
        spec_parse(buf, boundary) matches SpecParseResult::Continue(v) ==> {
            &&& v.len() <= buf.len()
            &&& v == buf.take(v.len() as int)
            &&& buf.len() > boundary.len() ==> v.len() >= 1
        },
{
    lemma_value_len(buf, boundary);
    if starts_with(buf, boundary) {
        lemma_parse_new_value(buf, boundary);
        lemma_field_header(buf.skip(boundary.len() as int));
    } else {
        let k = spec_find_value_len(buf, boundary);
        assert(buf.take(k).len() == k);
    }
}


proof fn lemma_value_clean(buf: Seq<u8>, boundary: Seq<u8>)
    requires
        boundary.len() >= 1,
    ensures
        forall|j: int| !occurs_at(buf.take(spec_find_value_len(buf, boundary)), boundary, j),
{
    reveal(spec_find_value_len);
    lemma_value_len(buf, boundary);
    let k = spec_find_value_len(buf, boundary);
    let v = buf.take(k);
    assert forall|j: int| !occurs_at(v, boundary, j) by {
        if occurs_at(v, boundary, j) {
            assert(buf.subrange(j, j + boundary.len()) =~= v.subrange(j, j + boundary.len()));
            assert(occurs_at(buf, boundary, j));
            if exists|i: int| occurs_at(buf, boundary, i) {
                let i = choose|i: int| occurs_at(buf, boundary, i) && forall|m: int| 0 <= m < i ==> !occurs_at(buf, boundary, m);
                if !(occurs_at(buf, boundary, i) && forall|m: int| 0 <= m < i ==> !occurs_at(buf, boundary, m)) {
                    lemma_first_exists(buf, boundary, j);
                }
                assert(k == i);
                assert(j < i);
            }
        }
    }
}

/// The values that `parse` returns never contain the boundary: a field's
/// value always ends before the next boundary.
pub proof fn lemma_parse_values_clean(buf: Seq<u8>, boundary: Seq<u8>)
    requires
        boundary.len() >= 1,
    ensures
        spec_parse(buf, boundary) matches SpecParseResult::NewValue(n, cd, ct, v) ==> forall|j: int|
            !occurs_at(v, boundary, j),
        spec_parse(buf, boundary) matches SpecParseResult::Continue(v) ==> forall|j: int|
            !occurs_at(v, boundary, j),
{
    if starts_with(buf, boundary) {
        let b = buf.skip(boundary.len() as int);
        lemma_field_header(b);
        if !starts_with(b, terminator()) {
            match spec_field_header(b) {
                Err(_) => {},
                Ok((b2, cd_len, has_ct, ct_len)) => {
                    let ct_total_len = if has_ct {
                        14 + ct_len + 4
                    } else {
                        2
                    };
                    let value_start = cd_len + 2 + ct_total_len;
                    let value = b2.skip(value_start);
                    lemma_value_clean(value, boundary);
                    let v = value.take(spec_find_value_len(value, boundary));
                    assert(forall|j: int| !occurs_at(v, boundary, j));
                },
            }
        }
    } else {
        lemma_value_clean(buf, boundary);
        let v = buf.take(spec_find_value_len(buf, boundary));
        assert(spec_parse(buf, boundary) == SpecParseResult::Continue(v));
    }
}

} // verus!
