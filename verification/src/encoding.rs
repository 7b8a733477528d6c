//! Byte-level `application/x-www-form-urlencoded` encoding, base64, and
//! decimal rendering, each proved against a spec-level definition.
//!
//! The form encoding follows the WHATWG urlencoded byte serializer: bytes in
//! `[A-Za-z0-9*\-._]` pass unchanged, a space becomes `+`, and every other
//! byte becomes `%XX` with uppercase hexadecimal digits.

use vstd::prelude::*;

verus! {

use vstd::slice::slice_subrange;
use vstd::string::StringExecFns;

/// True of the bytes the form serializer passes through unchanged.
pub open spec fn is_form_unchanged(b: u8) -> bool {
    ||| b == 0x2a  // '*'
    ||| b == 0x2d  // '-'
    ||| b == 0x2e  // '.'
    ||| (0x30 <= b && b <= 0x39)  // '0'..='9'
    ||| (0x41 <= b && b <= 0x5a)  // 'A'..='Z'
    ||| b == 0x5f  // '_'
    ||| (0x61 <= b && b <= 0x7a)  // 'a'..='z'
}

/// The uppercase hexadecimal digit for a value below 16, as an ASCII byte.
pub open spec fn spec_hex_upper(n: u8) -> u8
    recommends
        n < 16,
{
    if n < 10 {
        (0x30 + n) as u8
    } else {
        (0x41 + (n - 10)) as u8
    }
}

/// The form encoding of one byte.
pub open spec fn spec_encode_byte(b: u8) -> Seq<u8> {
    if is_form_unchanged(b) {
        seq![b]
    } else if b == 0x20 {
        seq![0x2b]  // '+'
    } else {
        seq![0x25, spec_hex_upper(b / 16), spec_hex_upper(b % 16)]  // '%XX'
    }
}

/// The form encoding of a byte sequence.
pub open spec fn spec_urlencode(s: Seq<u8>) -> Seq<u8>
    decreases s.len(),
{
    if s.len() == 0 {
        Seq::empty()
    } else {
        spec_urlencode(s.drop_last()) + spec_encode_byte(s.last())
    }
}

/// The form encoding of a list of key/value pairs: `k=v` joined with `&`.
pub open spec fn spec_encode_pairs(pairs: Seq<(Seq<u8>, Seq<u8>)>) -> Seq<u8>
    decreases pairs.len(),
{
    if pairs.len() == 0 {
        Seq::empty()
    } else {
        let head = spec_urlencode(pairs.last().0) + seq![0x3du8] + spec_urlencode(pairs.last().1);
        if pairs.len() == 1 {
            head
        } else {
            spec_encode_pairs(pairs.drop_last()) + seq![0x26u8] + head
        }
    }
}

fn hex_upper(n: u8) -> (r: u8)
    requires
        n < 16,
    ensures
        r == spec_hex_upper(n),
{
    if n < 10 {
        0x30 + n
    } else {
        0x41 + (n - 10)
    }
}

fn form_unchanged(b: u8) -> (r: bool)
    ensures
        r == is_form_unchanged(b),
{
    b == 0x2a || b == 0x2d || b == 0x2e || (0x30 <= b && b <= 0x39) || (0x41 <= b && b <= 0x5a)
        || b == 0x5f || (0x61 <= b && b <= 0x7a)
}

/// Appends the form encoding of `s` to `out`.
fn urlencode_into(out: &mut Vec<u8>, s: &[u8])
    ensures
        final(out)@ == old(out)@ + spec_urlencode(s@),
{
    let mut i: usize = 0;
    while i < s.len()
        invariant
            i <= s.len(),
            out@ == old(out)@ + spec_urlencode(s@.take(i as int)),
        decreases s.len() - i,
    {
        let b = s[i];
        if form_unchanged(b) {
            out.push(b);
        } else if b == 0x20 {
            out.push(0x2b);
        } else {
            out.push(0x25);
            out.push(hex_upper(b / 16));
            out.push(hex_upper(b % 16));
        }
        proof {
            assert(s@.take(i + 1).drop_last() =~= s@.take(i as int));
            assert(s@.take(i + 1).last() == s@[i as int]);
        }
        i = i + 1;
    }
    proof {
        assert(s@.take(s@.len() as int) =~= s@);
    }
}

/// The view of a vector of byte-vector pairs, pair by pair.
pub open spec fn pairs_view(pairs: Seq<(Vec<u8>, Vec<u8>)>) -> Seq<(Seq<u8>, Seq<u8>)> {
    pairs.map_values(|p: (Vec<u8>, Vec<u8>)| (p.0@, p.1@))
}

/// Encodes key/value pairs as an `application/x-www-form-urlencoded` body.
pub fn form_urlencode(pairs: &Vec<(Vec<u8>, Vec<u8>)>) -> (r: Vec<u8>)
    ensures
        r@ == spec_encode_pairs(pairs_view(pairs@)),
{
    let mut out: Vec<u8> = Vec::new();
    let mut i: usize = 0;
    while i < pairs.len()
        invariant
            i <= pairs.len(),
            out@ == spec_encode_pairs(pairs_view(pairs@).take(i as int)),
        decreases pairs.len() - i,
    {
        if i > 0 {
            out.push(0x26);
        }
        urlencode_into(&mut out, pairs[i].0.as_slice());
        out.push(0x3d);
        urlencode_into(&mut out, pairs[i].1.as_slice());
        proof {
            assert(pairs_view(pairs@).take(i + 1).drop_last() =~= pairs_view(pairs@).take(
                i as int,
            ));
            assert(pairs_view(pairs@).take(i + 1).last() == (pairs@[i as int].0@,
            pairs@[i as int].1@));
        }
        i = i + 1;
    }
    proof {
        assert(pairs_view(pairs@).take(pairs@.len() as int) =~= pairs_view(pairs@));
    }
    out
}

/// The base64 alphabet, as an ASCII byte, for a value below 64.
pub open spec fn spec_base64_char(n: u8) -> u8
    recommends
        n < 64,
{
    if n < 26 {
        (0x41 + n) as u8  // 'A'..='Z'
    } else if n < 52 {
        (0x61 + (n - 26)) as u8  // 'a'..='z'
    } else if n < 62 {
        (0x30 + (n - 52)) as u8  // '0'..='9'
    } else if n == 62 {
        0x2bu8  // '+'
    } else {
        0x2fu8  // '/'
    }
}

/// Standard base64 with `=` padding, three input bytes to four output bytes.
pub open spec fn spec_base64(s: Seq<u8>) -> Seq<u8>
    decreases s.len(),
{
    if s.len() == 0 {
        Seq::empty()
    } else if s.len() == 1 {
        seq![
            spec_base64_char(s[0] / 4),
            spec_base64_char(((s[0] % 4) * 16) as u8),
            0x3du8,
            0x3du8,
        ]
    } else if s.len() == 2 {
        seq![
            spec_base64_char(s[0] / 4),
            spec_base64_char(((s[0] % 4) * 16 + s[1] / 16) as u8),
            spec_base64_char(((s[1] % 16) * 4) as u8),
            0x3du8,
        ]
    } else {
        seq![
            spec_base64_char(s[0] / 4),
            spec_base64_char(((s[0] % 4) * 16 + s[1] / 16) as u8),
            spec_base64_char(((s[1] % 16) * 4 + s[2] / 64) as u8),
            spec_base64_char((s[2] % 64) as u8),
        ] + spec_base64(s.skip(3))
    }
}

fn base64_byte(n: u8) -> (r: u8)
    requires
        n < 64,
    ensures
        r == spec_base64_char(n),
{
    if n < 26 {
        0x41 + n
    } else if n < 52 {
        0x61 + (n - 26)
    } else if n < 62 {
        0x30 + (n - 52)
    } else if n == 62 {
        0x2b
    } else {
        0x2f
    }
}

/// Encodes a byte sequence as standard padded base64.
pub fn base64_encode(s: &[u8]) -> (r: Vec<u8>)
    ensures
        r@ == spec_base64(s@),
    decreases s@.len(),
{
    let mut out: Vec<u8> = Vec::new();
    if s.len() == 0 {
    } else if s.len() == 1 {
        out.push(base64_byte(s[0] / 4));
        out.push(base64_byte((s[0] % 4) * 16));
        out.push(0x3d);
        out.push(0x3d);
    } else if s.len() == 2 {
        out.push(base64_byte(s[0] / 4));
        out.push(base64_byte((s[0] % 4) * 16 + s[1] / 16));
        out.push(base64_byte((s[1] % 16) * 4));
        out.push(0x3d);
    } else {
        out.push(base64_byte(s[0] / 4));
        out.push(base64_byte((s[0] % 4) * 16 + s[1] / 16));
        out.push(base64_byte((s[1] % 16) * 4 + s[2] / 64));
        out.push(base64_byte(s[2] % 64));
        let rest = base64_encode(slice_subrange(s, 3, s.len()));
        let mut k: usize = 0;
        while k < rest.len()
            invariant
                k <= rest.len(),
                out@ == seq![
                    spec_base64_char(s@[0] / 4),
                    spec_base64_char(((s@[0] % 4) * 16 + s@[1] / 16) as u8),
                    spec_base64_char(((s@[1] % 16) * 4 + s@[2] / 64) as u8),
                    spec_base64_char((s@[2] % 64) as u8),
                ] + rest@.take(k as int),
            decreases rest.len() - k,
        {
            out.push(rest[k]);
            proof {
                assert(rest@.take(k + 1) =~= rest@.take(k as int).push(rest@[k as int]));
            }
            k = k + 1;
        }
        proof {
            assert(rest@.take(rest@.len() as int) =~= rest@);
        }
    }
    out
}

/// Every byte that base64 produces is an ASCII byte.
pub proof fn lemma_base64_ascii(s: Seq<u8>)
    ensures
        forall|i: int| 0 <= i < spec_base64(s).len() ==> spec_base64(s)[i] < 0x80,
    decreases s.len(),
{
    if s.len() > 2 {
        lemma_base64_ascii(s.skip(3));
        assert forall|i: int| 0 <= i < spec_base64(s).len() implies spec_base64(s)[i]
            < 0x80 by {
            if i >= 4 {
                assert(spec_base64(s)[i] == spec_base64(s.skip(3))[i - 4]);
            }
        }
    }
}

/// The decimal digits of a nonnegative number, as ASCII characters.
pub open spec fn spec_dec_chars(n: int) -> Seq<char>
    recommends
        n >= 0,
    decreases n,
{
    if n < 10 {
        seq![spec_digit_char(n)]
    } else {
        spec_dec_chars(n / 10) + seq![spec_digit_char(n % 10)]
    }
}

/// The ASCII character for a single decimal digit.
pub open spec fn spec_digit_char(d: int) -> char
    recommends
        0 <= d < 10,
{
    if d == 0 {
        '0'
    } else if d == 1 {
        '1'
    } else if d == 2 {
        '2'
    } else if d == 3 {
        '3'
    } else if d == 4 {
        '4'
    } else if d == 5 {
        '5'
    } else if d == 6 {
        '6'
    } else if d == 7 {
        '7'
    } else if d == 8 {
        '8'
    } else {
        '9'
    }
}

fn digit_str(d: u16) -> (r: &'static str)
    requires
        d < 10,
    ensures
        r@ == seq![spec_digit_char(d as int)],
{
    proof {
        reveal_strlit("0");
        reveal_strlit("1");
        reveal_strlit("2");
        reveal_strlit("3");
        reveal_strlit("4");
        reveal_strlit("5");
        reveal_strlit("6");
        reveal_strlit("7");
        reveal_strlit("8");
        reveal_strlit("9");
    }
    if d == 0 {
        "0"
    } else if d == 1 {
        "1"
    } else if d == 2 {
        "2"
    } else if d == 3 {
        "3"
    } else if d == 4 {
        "4"
    } else if d == 5 {
        "5"
    } else if d == 6 {
        "6"
    } else if d == 7 {
        "7"
    } else if d == 8 {
        "8"
    } else {
        "9"
    }
}

/// Appends the decimal rendering of `n` to `out`.
pub fn append_dec(out: &mut String, n: u16)
    ensures
        final(out)@ == old(out)@ + spec_dec_chars(n as int),
    decreases n,
{
    if n < 10 {
        out.append(digit_str(n));
    } else {
        append_dec(out, n / 10);
        out.append(digit_str(n % 10));
    }
}

} // verus!
