//! URL-safe base64 without padding ('+' is written '-' and '/' is written '_').
use vstd::prelude::*;

verus! {

/// The character that encodes the 6-bit value `v` (A-Z, a-z, 0-9, '-', '_').
pub open spec fn spec_digit(v: u8) -> u8 {
    if v < 26 {
        (v + 65) as u8
    } else if v < 52 {
        (v - 26 + 97) as u8
    } else if v < 62 {
        (v - 52 + 48) as u8
    } else if v == 62 {
        45u8
    } else {
        95u8
    }
}

/// The 6-bit value encoded by the character `d`, or `u8::MAX` when `d` is
/// not a URL-safe base64 digit.
pub open spec fn spec_map_b64(d: u8) -> u8 {
    if 65 <= d <= 90 {
        (d - 65) as u8
    } else if 97 <= d <= 122 {
        (d - 97 + 26) as u8
    } else if 48 <= d <= 57 {
        (d - 48 + 52) as u8
    } else if d == 45 {
        62u8
    } else if d == 95 {
        63u8
    } else {
        255u8
    }
}

/// Whether `d` is one of the 64 URL-safe base64 digits.
pub open spec fn is_b64_digit(d: u8) -> bool {
    spec_map_b64(d) < 64
}

/// Encoding of one group of one to three bytes into two to four digits.
pub open spec fn encode_group(g: Seq<u8>) -> Seq<u8> {
    let x = g[0];
    let y: u8 = if g.len() > 1 { g[1] } else { 0 };
    let z: u8 = if g.len() > 2 { g[2] } else { 0 };
    let c1 = spec_digit((x / 4) as u8);
    let c2 = spec_digit(((x % 4) * 16 + y / 16) as u8);
    let c3 = spec_digit(((y % 16) * 4 + z / 64) as u8);
    let c4 = spec_digit((z % 64) as u8);
    if g.len() == 1 {
        seq![c1, c2]
    } else if g.len() == 2 {
        seq![c1, c2, c3]
    } else {
        seq![c1, c2, c3, c4]
    }
}

/// Base64 encoding of `s`: each group of three bytes becomes four digits,
/// and a final group of one or two bytes becomes two or three digits.
pub open spec fn spec_base64_encode(s: Seq<u8>) -> Seq<u8>
    decreases s.len(),
{
    if s.len() == 0 {
        seq![]
    } else if s.len() <= 3 {
        encode_group(s)
    } else {
        encode_group(s.take(3)) + spec_base64_encode(s.skip(3))
    }
}

/// Decoding of one group of two to four digits into one to three bytes.
/// Digits are mapped with `spec_map_b64` and combined with 8-bit wrapping
/// arithmetic, so that characters outside the alphabet still give bytes.
pub open spec fn decode_group(g: Seq<u8>) -> Seq<u8> {
    let v1 = spec_map_b64(g[0]) as int;
    let v2 = spec_map_b64(g[1]) as int;
    let v3 = if g.len() > 2 { spec_map_b64(g[2]) as int } else { 0 };
    let v4 = if g.len() > 3 { spec_map_b64(g[3]) as int } else { 0 };
    let first = (((v1 * 4) % 256 + v2 / 16) % 256) as u8;
    let second = (((v2 * 16) % 256 + v3 / 4) % 256) as u8;
    let third = (((v3 * 64) % 256 + v4) % 256) as u8;
    if g.len() == 2 {
        seq![first]
    } else if g.len() == 3 {
        seq![first, second]
    } else {
        seq![first, second, third]
    }
}

/// Decoding of a digit string whose length is not 1 modulo 4.
pub open spec fn decode_groups(s: Seq<u8>) -> Seq<u8>
    decreases s.len(),
{
    if s.len() < 2 {
        seq![]
    } else if s.len() <= 4 {
        decode_group(s)
    } else {
        decode_group(s.take(4)) + decode_groups(s.skip(4))
    }
}

/// Base64 decoding: `None` exactly when the length is 1 modulo 4.
pub open spec fn spec_base64_decode(s: Seq<u8>) -> Option<Seq<u8>> {
    if s.len() % 4 == 1 {
        None
    } else {
        Some(decode_groups(s))
    }
}

/// Number of digits in the encoding of `n` bytes.
pub open spec fn spec_encode_length(n: int) -> int {
    (n / 3) * 4 + if n % 3 == 0 {
        0int
    } else if n % 3 == 1 {
        2int
    } else {
        3int
    }
}

/// Number of bytes in the decoding of `n` digits, `None` when no byte string
/// encodes to `n` digits.
pub open spec fn spec_decode_length(n: int) -> Option<int> {
    if n % 4 == 1 {
        None
    } else {
        Some(
            (n / 4) * 3 + if n % 4 == 0 {
                0int
            } else if n % 4 == 2 {
                1int
            } else {
                2int
            },
        )
    }
}

/// The eight bytes of `x` in big-endian order.
pub open spec fn be_bytes(x: u64) -> Seq<u8> {
    seq![
        (x >> 56u64) as u8,
        (x >> 48u64) as u8,
        (x >> 40u64) as u8,
        (x >> 32u64) as u8,
        (x >> 24u64) as u8,
        (x >> 16u64) as u8,
        (x >> 8u64) as u8,
        x as u8,
    ]
}

/// The `u64` whose big-endian bytes are `b[0..8]`.
pub open spec fn from_be_bytes(b: Seq<u8>) -> u64 {
    ((b[0] as u64) << 56u64) | ((b[1] as u64) << 48u64) | ((b[2] as u64) << 40u64) | ((
    b[3] as u64) << 32u64) | ((b[4] as u64) << 24u64) | ((b[5] as u64) << 16u64) | ((
    b[6] as u64) << 8u64) | (b[7] as u64)
}

/// The base64 form of an upload ID: its eight big-endian bytes, encoded.
pub open spec fn spec_i64_to_b64(i: i64) -> Seq<u8> {
    spec_base64_encode(be_bytes(i as u64))
}

/// The upload ID read back from base64: the first eight decoded bytes,
/// big-endian, or `None` when decoding fails or gives fewer than eight.
pub open spec fn spec_i64_from_b64(s: Seq<u8>) -> Option<i64> {
    match spec_base64_decode(s) {
        Some(d) => if d.len() >= 8 {
            Some(from_be_bytes(d) as i64)
        } else {
            None
        },
        None => None,
    }
}

fn encode_digit(v: u8) -> (d: u8)
    requires
        v < 64,
    ensures
        d == spec_digit(v),
{
    if v < 26 {
        v + 65
    } else if v < 52 {
        v - 26 + 97
    } else if v < 62 {
        v - 52 + 48
    } else if v == 62 {
        45
    } else {
        95
    }
}

/// The 6-bit value of a URL-safe base64 digit, `u8::MAX` for any other byte.
pub fn map_b64(digit: u8) -> (v: u8)
    ensures
        v == spec_map_b64(digit),
{
    if 65 <= digit && digit <= 90 {
        digit - 65
    } else if 97 <= digit && digit <= 122 {
        digit - 97 + 26
    } else if 48 <= digit && digit <= 57 {
        digit - 48 + 52
    } else if digit == 45 {
        62
    } else if digit == 95 {
        63
    } else {
        u8::MAX
    }
}

/// Number of bytes needed for the base64 form of `num_bytes` bytes.
pub fn base64_encode_length(num_bytes: usize) -> (len: usize)
    requires
        spec_encode_length(num_bytes as int) <= usize::MAX,
    ensures
        len == spec_encode_length(num_bytes as int),
{
    (num_bytes / 3) * 4 + match num_bytes % 3 {
        0 => 0,
        1 => 2,
        _ => 3,
    }
}

/// Number of bytes in the decoded form of `num_bytes` base64 digits, or
/// `None` when no byte string has an encoding of that length.
pub fn base64_decode_length(num_bytes: usize) -> (len: Option<usize>)
    ensures
        match len {
            Some(l) => spec_decode_length(num_bytes as int) == Some(l as int),
            None => spec_decode_length(num_bytes as int) is None,
        },
{
    let rest: usize = match num_bytes % 4 {
        0 => 0,
        1 => {
            return None;
        },
        2 => 1,
        _ => 2,
    };
    Some((num_bytes / 4) * 3 + rest)
}

proof fn lemma_encode_steps(s: Seq<u8>, k: int)
    requires
        0 <= k,
        3 * k < s.len(),
    ensures
        s.len() - 3 * k <= 3 ==> spec_base64_encode(s.skip(3 * k)) == encode_group(
            s.skip(3 * k),
        ),
        s.len() - 3 * k > 3 ==> spec_base64_encode(s.skip(3 * k)) == encode_group(
            s.skip(3 * k).take(3),
        ) + spec_base64_encode(s.skip(3 * k + 3)),
{
    if s.len() - 3 * k > 3 {
        assert(s.skip(3 * k).skip(3) =~= s.skip(3 * k + 3));
    }
}

proof fn lemma_encode_length(s: Seq<u8>)
    ensures
        spec_base64_encode(s).len() == spec_encode_length(s.len() as int),
    decreases s.len(),
{
    if s.len() > 3 {
        lemma_encode_length(s.skip(3));
    }
}

/// Encodes `bytes` as URL-safe base64 without padding.
pub fn base64_encode(bytes: &[u8]) -> (b64: Vec<u8>)
    requires
        spec_encode_length(bytes@.len() as int) <= usize::MAX,
    ensures
        b64@ == spec_base64_encode(bytes@),
        b64@.len() == spec_encode_length(bytes@.len() as int),
{
    let mut vec: Vec<u8> = Vec::with_capacity(base64_encode_length(bytes.len()));
    let len: usize = (bytes.len() + 2) / 3;
    let n: usize = bytes.len();
    proof {
        assert(bytes@.skip(0) =~= bytes@);
        lemma_encode_length(bytes@);
    }
    let mut i: usize = 0;
    while i < len
        invariant
            n == bytes@.len(),
            len == (n + 2) / 3,
            i <= len,
            3 * i <= n ==> spec_base64_encode(bytes@) == vec@ + spec_base64_encode(
                bytes@.skip(3 * i),
            ),
            3 * i > n ==> spec_base64_encode(bytes@) == vec@,
        decreases len - i,
    {
        let j: usize = i * 3;
        proof {
            lemma_encode_steps(bytes@, i as int);
        }
        let x: u8 = bytes[j];
        let y: u8 = if j + 1 < n {
            bytes[j + 1]
        } else {
            0
        };
        let z: u8 = if j + 2 < n {
            bytes[j + 2]
        } else {
            0
        };
        let first: u8 = x >> 2;
        assert(x >> 2 == x / 4) by (bit_vector);
        assert(x << 4 & 0b00110000 == (x % 4) * 16) by (bit_vector);
        assert(y >> 4 & 0b00001111 == y / 16) by (bit_vector);
        let mut second: u8 = x << 4 & 0b00110000;
        if j + 1 < n {
            second += y >> 4 & 0b00001111;
        }
        vec.push(encode_digit(first));
        vec.push(encode_digit(second));
        if j + 1 < n {
            assert(y << 2 & 0b00111100 == (y % 16) * 4) by (bit_vector);
            assert(z >> 6 & 0b00000011 == z / 64) by (bit_vector);
            let mut third: u8 = y << 2 & 0b00111100;
            if j + 2 < n {
                third += z >> 6 & 0b00000011;
            }
            vec.push(encode_digit(third));
        }
        if j + 2 < n {
            let fourth: u8 = z & 0b00111111;
            assert(z & 0b00111111 == z % 64) by (bit_vector);
            vec.push(encode_digit(fourth));
        }
        proof {
            let g = if n - j <= 3 {
                bytes@.skip(j as int)
            } else {
                bytes@.skip(j as int).take(3)
            };
            assert(g[0] == x);
            assert(g.len() > 1 ==> g[1] == y);
            assert(g.len() > 2 ==> g[2] == z);
            if n - j == 3 {
                assert(bytes@.skip(3 * (i + 1)) =~= Seq::<u8>::empty());
                assert(spec_base64_encode(Seq::<u8>::empty()) =~= Seq::<u8>::empty());
            }
        }
        i += 1;
    }
    proof {
        if 3 * i <= n {
            assert(bytes@.skip(3 * i) =~= Seq::<u8>::empty());
            assert(vec@ + Seq::<u8>::empty() =~= vec@);
        }
    }
    vec
}

proof fn lemma_decode_steps(s: Seq<u8>, k: int)
    requires
        0 <= k,
        4 * k < s.len(),
    ensures
        s.len() - 4 * k <= 4 ==> decode_groups(s.skip(4 * k)) == (if s.len() - 4 * k < 2 {
            Seq::<u8>::empty()
        } else {
            decode_group(s.skip(4 * k))
        }),
        s.len() - 4 * k > 4 ==> decode_groups(s.skip(4 * k)) == decode_group(
            s.skip(4 * k).take(4),
        ) + decode_groups(s.skip(4 * k + 4)),
{
    if s.len() - 4 * k > 4 {
        assert(s.skip(4 * k).skip(4) =~= s.skip(4 * k + 4));
    }
}

fn join_first(v1: u8, v2: u8) -> (r: u8)
    ensures
        r == (((v1 as int * 4) % 256 + v2 as int / 16) % 256) as u8,
{
    assert((v1 << 2u8) as int == (v1 as int * 4) % 256) by (bit_vector);
    assert((v2 >> 4u8) as int == v2 as int / 16) by (bit_vector);
    (v1 << 2u8).wrapping_add(v2 >> 4u8)
}

fn join_second(v2: u8, v3: u8) -> (r: u8)
    ensures
        r == (((v2 as int * 16) % 256 + v3 as int / 4) % 256) as u8,
{
    assert((v2 << 4u8) as int == (v2 as int * 16) % 256) by (bit_vector);
    assert((v3 >> 2u8) as int == v3 as int / 4) by (bit_vector);
    (v2 << 4u8).wrapping_add(v3 >> 2u8)
}

fn join_third(v3: u8, v4: u8) -> (r: u8)
    ensures
        r == (((v3 as int * 64) % 256 + v4 as int) % 256) as u8,
{
    assert((v3 << 6u8) as int == (v3 as int * 64) % 256) by (bit_vector);
    (v3 << 6u8).wrapping_add(v4)
}

fn decode_chunk(b64: &[u8], j: usize) -> (r: Vec<u8>)
    requires
        j + 2 <= b64@.len(),
    ensures
        r@ == decode_group(
            b64@.subrange(
                j as int,
                if b64@.len() - j <= 4 {
                    b64@.len() as int
                } else {
                    j + 4
                },
            ),
        ),
{
    let n = b64.len();
    let ghost g = b64@.subrange(
        j as int,
        if b64@.len() - j <= 4 {
            b64@.len() as int
        } else {
            j + 4
        },
    );
    let b64_1: u8 = map_b64(b64[j]);
    let b64_2: u8 = map_b64(b64[j + 1]);
    let has_3 = n - j > 2;
    let has_4 = n - j > 3;
    let b64_3: u8 = if has_3 {
        map_b64(b64[j + 2])
    } else {
        0
    };
    let b64_4: u8 = if has_4 {
        map_b64(b64[j + 3])
    } else {
        0
    };
    let mut out: Vec<u8> = Vec::new();
    out.push(join_first(b64_1, b64_2));
    if has_3 {
        out.push(join_second(b64_2, b64_3));
    }
    if has_4 {
        out.push(join_third(b64_3, b64_4));
    }
    assert(g[0] == b64@[j as int]);
    assert(g[1] == b64@[j + 1]);
    assert(out@ =~= decode_group(g));
    out
}

/// Decodes URL-safe base64. Returns `None` when the length of `b64` is 1
/// modulo 4; bytes outside the alphabet are decoded as the value 255.
pub fn base64_decode(b64: &[u8]) -> (r: Option<Vec<u8>>)
    ensures
        match r {
            Some(v) => spec_base64_decode(b64@) == Some(v@),
            None => spec_base64_decode(b64@) is None,
        },
{
    let cap = match base64_decode_length(b64.len()) {
        Some(c) => c,
        None => {
            return None;
        },
    };
    let mut vec: Vec<u8> = Vec::with_capacity(cap);
    let n: usize = b64.len();
    let len: usize = n / 4 + if n % 4 != 0 {
        1
    } else {
        0
    };
    proof {
        assert(b64@.skip(0) =~= b64@);
    }
    let mut i: usize = 0;
    while i < len
        invariant
            n == b64@.len(),
            n % 4 != 1,
            len == n / 4 + if n % 4 != 0 {
                1int
            } else {
                0int
            },
            i <= len,
            4 * i <= n ==> decode_groups(b64@) == vec@ + decode_groups(b64@.skip(4 * i)),
            4 * i > n ==> decode_groups(b64@) == vec@,
        decreases len - i,
    {
        let j: usize = i * 4;
        proof {
            lemma_decode_steps(b64@, i as int);
        }
        let mut chunk = decode_chunk(b64, j);
        vec.append(&mut chunk);
        proof {
            if n - j == 4 {
                assert(b64@.skip(4 * (i + 1)) =~= Seq::<u8>::empty());
            }
            if n - j <= 4 {
                assert(b64@.subrange(j as int, n as int) =~= b64@.skip(j as int));
            } else {
                assert(b64@.subrange(j as int, j + 4) =~= b64@.skip(j as int).take(4));
            }
        }
        i += 1;
    }
    proof {
        if 4 * i <= n {
            assert(b64@.skip(4 * i) =~= Seq::<u8>::empty());
            assert(vec@ + Seq::<u8>::empty() =~= vec@);
        }
    }
    Some(vec)
}

proof fn lemma_digit_roundtrip(v: u8)
    requires
        v < 64,
    ensures
        spec_map_b64(spec_digit(v)) == v,
        is_b64_digit(spec_digit(v)),
{
}

proof fn lemma_first_byte(x: u8, y: u8)
    ensures
        ((((x / 4) as u8) as int * 4) % 256 + (((x % 4) * 16 + y / 16) as u8) as int / 16) % 256
            == x,
{
    assert(((x as int / 4) * 4) % 256 + ((x as int % 4) * 16 + y as int / 16) / 16 == x as int)
        by (nonlinear_arith)
        requires
            0 <= x < 256,
            0 <= y < 256,
    ;
}

proof fn lemma_second_byte(x: u8, y: u8, z: u8)
    ensures
        ((((x % 4) * 16 + y / 16) as u8 as int * 16) % 256 + (((y % 16) * 4 + z / 64) as u8) as int
            / 4) % 256 == y,
{
    assert((((x as int % 4) * 16 + y as int / 16) * 16) % 256 + ((y as int % 16) * 4 + z as int
        / 64) / 4 == y as int) by (nonlinear_arith)
        requires
            0 <= x < 256,
            0 <= y < 256,
            0 <= z < 256,
    ;
}

proof fn lemma_third_byte(y: u8, z: u8)
    ensures
        ((((y % 16) * 4 + z / 64) as u8 as int * 64) % 256 + ((z % 64) as u8) as int) % 256 == z,
{
    assert((((y as int % 16) * 4 + z as int / 64) * 64) % 256 + z as int % 64 == z as int) by (
    nonlinear_arith)
        requires
            0 <= y < 256,
            0 <= z < 256,
    ;
}

proof fn lemma_group_roundtrip(g: Seq<u8>)
    requires
        1 <= g.len() <= 3,
    ensures
        decode_group(encode_group(g)) == g,
        encode_group(g).len() == g.len() + 1,
{
    let x = g[0];
    let y: u8 = if g.len() > 1 { g[1] } else { 0 };
    let z: u8 = if g.len() > 2 { g[2] } else { 0 };
    let a = (x / 4) as u8;
    let b = ((x % 4) * 16 + y / 16) as u8;
    let c = ((y % 16) * 4 + z / 64) as u8;
    let d = (z % 64) as u8;
    lemma_digit_roundtrip(a);
    lemma_digit_roundtrip(b);
    lemma_digit_roundtrip(c);
    lemma_digit_roundtrip(d);
    lemma_first_byte(x, y);
    lemma_second_byte(x, y, z);
    lemma_third_byte(y, z);
    assert(decode_group(encode_group(g)) =~= g);
}

/// Every string of base64 digits, whatever the length, decodes back to the
/// bytes it encodes: decoding undoes encoding.
pub proof fn lemma_base64_roundtrip(s: Seq<u8>)
    ensures
        spec_base64_decode(spec_base64_encode(s)) == Some(s),
    decreases s.len(),
{
    lemma_encode_length(s);
    if s.len() == 0 {
        assert(decode_groups(Seq::<u8>::empty()) =~= s);
    } else if s.len() <= 3 {
        lemma_group_roundtrip(s);
    } else {
        lemma_base64_roundtrip(s.skip(3));
        lemma_group_roundtrip(s.take(3));
        lemma_encode_length(s.skip(3));
        let e = spec_base64_encode(s);
        let g = encode_group(s.take(3));
        let rest = spec_base64_encode(s.skip(3));
        assert(e == g + rest);
        assert(e.take(4) =~= g);
        assert(e.skip(4) =~= rest);
        assert(decode_groups(e) == decode_group(g) + decode_groups(rest));
        assert(s.take(3) + s.skip(3) =~= s);
    }
}

/// The length of an encoding determines the length of what it encodes:
/// `base64_decode_length(base64_encode_length(n)) == Some(n)`.
pub proof fn lemma_length_roundtrip(n: nat)
    ensures
        spec_decode_length(spec_encode_length(n as int)) == Some(n as int),
{
}

/// Every encoding is made of URL-safe base64 digits only.
pub proof fn lemma_encode_alphabet(s: Seq<u8>)
    ensures
        forall|k: int|
            0 <= k < spec_base64_encode(s).len() ==> is_b64_digit(
                #[trigger] spec_base64_encode(s)[k],
            ),
    decreases s.len(),
{
    if s.len() > 3 {
        lemma_encode_alphabet(s.skip(3));
    }
    if s.len() > 0 {
        let g = if s.len() <= 3 {
            s
        } else {
            s.take(3)
        };
        let x = g[0];
        let y: u8 = if g.len() > 1 {
            g[1]
        } else {
            0
        };
        let z: u8 = if g.len() > 2 {
            g[2]
        } else {
            0
        };
        lemma_digit_roundtrip((x / 4) as u8);
        lemma_digit_roundtrip(((x % 4) * 16 + y / 16) as u8);
        lemma_digit_roundtrip(((y % 16) * 4 + z / 64) as u8);
        lemma_digit_roundtrip((z % 64) as u8);
        let eg = encode_group(g);
        assert(forall|k: int| 0 <= k < eg.len() ==> is_b64_digit(#[trigger] eg[k]));
        let e = spec_base64_encode(s);
        if s.len() > 3 {
            let rest = spec_base64_encode(s.skip(3));
            assert forall|k: int| 0 <= k < e.len() implies is_b64_digit(#[trigger] e[k]) by {
                if k < eg.len() {
                    assert(e[k] == eg[k]);
                } else {
                    assert(e[k] == rest[k - eg.len()]);
                }
            }
        }
    }
}

/// The base64 form of an upload ID: its eight bytes in big-endian order,
/// encoded (always eleven characters).
pub fn i64_to_b64_bytes(i: i64) -> (r: Vec<u8>)
    ensures
        r@ == spec_i64_to_b64(i),
        r@.len() == 11,
{
    let x: u64 = i as u64;
    let bytes: Vec<u8> = vec![
        (x >> 56u64) as u8,
        (x >> 48u64) as u8,
        (x >> 40u64) as u8,
        (x >> 32u64) as u8,
        (x >> 24u64) as u8,
        (x >> 16u64) as u8,
        (x >> 8u64) as u8,
        x as u8,
    ];
    assert(bytes@ =~= be_bytes(x));
    base64_encode(bytes.as_slice())
}

/// The upload ID whose base64 form is `bytes` (the first eight decoded
/// bytes, big-endian), or `None` if decoding fails or gives fewer bytes.
pub fn i64_from_b64_bytes(bytes: &[u8]) -> (r: Option<i64>)
    ensures
        r == spec_i64_from_b64(bytes@),
{
    let d = match base64_decode(bytes) {
        Some(d) => d,
        None => {
            return None;
        },
    };
    if d.len() >= 8 {
        let x: u64 = ((d[0] as u64) << 56u64) | ((d[1] as u64) << 48u64) | ((d[2] as u64)
            << 40u64) | ((d[3] as u64) << 32u64) | ((d[4] as u64) << 24u64) | ((d[5] as u64)
            << 16u64) | ((d[6] as u64) << 8u64) | (d[7] as u64);
        Some(x as i64)
    } else {
        None
    }
}

/// Reading an upload ID back from its base64 form gives the same ID.
pub proof fn lemma_i64_b64_roundtrip(i: i64)
    ensures
        spec_i64_from_b64(spec_i64_to_b64(i)) == Some(i),
{
    let x = i as u64;
    lemma_base64_roundtrip(be_bytes(x));
    let b0 = (x >> 56u64) as u8;
    let b1 = (x >> 48u64) as u8;
    let b2 = (x >> 40u64) as u8;
    let b3 = (x >> 32u64) as u8;
    let b4 = (x >> 24u64) as u8;
    let b5 = (x >> 16u64) as u8;
    let b6 = (x >> 8u64) as u8;
    let b7 = x as u8;
    assert((((b0 as u64) << 56u64) | ((b1 as u64) << 48u64) | ((b2 as u64) << 40u64) | ((
    b3 as u64) << 32u64) | ((b4 as u64) << 24u64) | ((b5 as u64) << 16u64) | ((b6 as u64)
        << 8u64) | (b7 as u64)) == x) by (bit_vector)
        requires
            b0 == (x >> 56u64) as u8,
            b1 == (x >> 48u64) as u8,
            b2 == (x >> 40u64) as u8,
            b3 == (x >> 32u64) as u8,
            b4 == (x >> 24u64) as u8,
            b5 == (x >> 16u64) as u8,
            b6 == (x >> 8u64) as u8,
            b7 == x as u8,
    ;
    assert(((i as u64) as i64) == i) by (bit_vector);
    assert(from_be_bytes(be_bytes(x)) == x);
}

} // verus!
