//! A decoder for the small slice of JSON this service receives: one flat
//! object whose values are strings, integers, or booleans, or one bare JSON
//! string.  The accepted grammar is given by recursive spec functions over
//! the byte sequence, and each executable parser is proved to return exactly
//! what the spec functions say.
//!
//! Accepted escapes inside strings are `\" \\ \/ \b \f \n \r \t`; `\uXXXX`
//! escapes are rejected.  Integers carry an optional minus sign and at most
//! eighteen decimal digits.

use vstd::prelude::*;

verus! {

use vstd::utf8::valid_utf8;
use vstd::utf8::encode_utf8;

/// A decoded scalar member value.
pub enum JsonValue {
    Str(Vec<u8>),
    Int(i64),
    Bool(bool),
}

/// The mathematical model of a decoded member value.
pub enum SpecJson {
    Str(Seq<u8>),
    Int(int),
    Bool(bool),
}

impl View for JsonValue {
    type V = SpecJson;

    open spec fn view(&self) -> SpecJson {
        match self {
            JsonValue::Str(v) => SpecJson::Str(v@),
            JsonValue::Int(n) => SpecJson::Int(*n as int),
            JsonValue::Bool(b) => SpecJson::Bool(*b),
        }
    }
}

/// True of the four JSON whitespace bytes.
pub open spec fn is_json_ws(b: u8) -> bool {
    b == 0x20 || b == 0x09 || b == 0x0a || b == 0x0d
}

/// True of an ASCII decimal digit.
pub open spec fn is_dec_digit(b: u8) -> bool {
    0x30 <= b && b <= 0x39
}

/// The first position at or after `i` holding no whitespace byte.
pub open spec fn skip_ws(s: Seq<u8>, i: int) -> int
    decreases s.len() - i,
{
    if 0 <= i && i < s.len() && is_json_ws(s[i]) {
        skip_ws(s, i + 1)
    } else {
        i
    }
}

/// What one backslash escape stands for, if it is accepted.
pub open spec fn spec_unescape(e: u8) -> Option<u8> {
    if e == 0x22 {
        Some(0x22u8)  // \"
    } else if e == 0x5c {
        Some(0x5cu8)  // backslash
    } else if e == 0x2f {
        Some(0x2fu8)  // /
    } else if e == 0x62 {
        Some(0x08u8)  // \b
    } else if e == 0x66 {
        Some(0x0cu8)  // \f
    } else if e == 0x6e {
        Some(0x0au8)  // \n
    } else if e == 0x72 {
        Some(0x0du8)  // \r
    } else if e == 0x74 {
        Some(0x09u8)  // \t
    } else {
        None
    }
}

/// Parses the body of a string literal from `i` (just past the opening
/// quote), appending the decoded bytes to `acc`; yields the decoded bytes and
/// the position just past the closing quote.
pub open spec fn parse_string_body(s: Seq<u8>, i: int, acc: Seq<u8>) -> Option<(Seq<u8>, int)>
    decreases s.len() - i,
{
    if !(0 <= i && i < s.len()) {
        None
    } else if s[i] == 0x22 {
        Some((acc, i + 1))
    } else if s[i] == 0x5c {
        if i + 1 < s.len() {
            match spec_unescape(s[i + 1]) {
                Some(u) => parse_string_body(s, i + 2, acc.push(u)),
                None => None,
            }
        } else {
            None
        }
    } else if s[i] < 0x20 {
        None
    } else {
        parse_string_body(s, i + 1, acc.push(s[i]))
    }
}

/// The first position at or after `i` holding no decimal digit.
pub open spec fn digits_end(s: Seq<u8>, i: int) -> int
    decreases s.len() - i,
{
    if 0 <= i && i < s.len() && is_dec_digit(s[i]) {
        digits_end(s, i + 1)
    } else {
        i
    }
}

/// The value of the decimal digits of `s` between `i` and `end`.
pub open spec fn digits_value(s: Seq<u8>, i: int, end: int) -> int
    decreases end - i,
{
    if i < end {
        digits_value(s, i, end - 1) * 10 + (s[end - 1] - 0x30)
    } else {
        0
    }
}

/// Parses an integer at `i`: an optional minus sign, then one to eighteen
/// decimal digits; yields the value and the position just past the digits.
pub open spec fn parse_int(s: Seq<u8>, i: int) -> Option<(int, int)> {
    if 0 <= i && i < s.len() {
        let start = if s[i] == 0x2d {
            i + 1
        } else {
            i
        };
        let end = digits_end(s, start);
        if end == start || end - start > 18 {
            None
        } else if s[i] == 0x2d {
            Some((-digits_value(s, start, end), end))
        } else {
            Some((digits_value(s, start, end), end))
        }
    } else {
        None
    }
}

/// Parses one member value after optional whitespace: a string, an integer,
/// `true`, or `false`.
pub open spec fn parse_value(s: Seq<u8>, i: int) -> Option<(SpecJson, int)> {
    let j = skip_ws(s, i);
    if j < s.len() {
        if s[j] == 0x22 {
            match parse_string_body(s, j + 1, Seq::empty()) {
                Some(p) => Some((SpecJson::Str(p.0), p.1)),
                None => None,
            }
        } else if s[j] == 0x74 {  // 't'
            if j + 4 <= s.len() && s[j + 1] == 0x72 && s[j + 2] == 0x75 && s[j + 3] == 0x65 {
                Some((SpecJson::Bool(true), j + 4))
            } else {
                None
            }
        } else if s[j] == 0x66 {  // 'f'
            if j + 5 <= s.len() && s[j + 1] == 0x61 && s[j + 2] == 0x6c && s[j + 3] == 0x73 && s[j
                + 4] == 0x65 {
                Some((SpecJson::Bool(false), j + 5))
            } else {
                None
            }
        } else if s[j] == 0x2d || is_dec_digit(s[j]) {
            match parse_int(s, j) {
                Some(p) => Some((SpecJson::Int(p.0), p.1)),
                None => None,
            }
        } else {
            None
        }
    } else {
        None
    }
}

/// Parses the members of an object from `i` (just past the opening brace or
/// a comma), appending to `acc`; yields the members and the position of the
/// byte that ended them (expected to be the closing brace).
pub open spec fn parse_members(s: Seq<u8>, i: int, acc: Seq<(Seq<u8>, SpecJson)>) -> Option<
    (Seq<(Seq<u8>, SpecJson)>, int),
>
    decreases s.len() - i,
{
    let j0 = skip_ws(s, i);
    if !(j0 < s.len() && s[j0] == 0x22) {
        None
    } else {
        match parse_string_body(s, j0 + 1, Seq::empty()) {
            None => None,
            Some(key) => {
                let j2 = skip_ws(s, key.1);
                if !(j2 < s.len() && s[j2] == 0x3a) {
                    None
                } else {
                    match parse_value(s, j2 + 1) {
                        None => None,
                        Some(val) => {
                            let j5 = skip_ws(s, val.1);
                            let grown = acc.push((key.0, val.0));
                            // `i < j5` always holds once a member parsed; it
                            // makes the recursion visibly consume input.
                            if j5 < s.len() && s[j5] == 0x2c && i < j5 {
                                parse_members(s, j5 + 1, grown)
                            } else {
                                Some((grown, j5))
                            }
                        },
                    }
                }
            },
        }
    }
}

/// Parses a whole document that must be one flat object, surrounding
/// whitespace allowed; yields its members in order.
pub open spec fn parse_flat_object(s: Seq<u8>) -> Option<Seq<(Seq<u8>, SpecJson)>> {
    let i0 = skip_ws(s, 0);
    if i0 < s.len() && s[i0] == 0x7b {
        let j = skip_ws(s, i0 + 1);
        if j < s.len() && s[j] == 0x7d {
            if skip_ws(s, j + 1) == s.len() {
                Some(Seq::empty())
            } else {
                None
            }
        } else {
            match parse_members(s, i0 + 1, Seq::empty()) {
                None => None,
                Some(p) => {
                    if p.1 < s.len() && s[p.1] == 0x7d && skip_ws(s, p.1 + 1) == s.len() {
                        Some(p.0)
                    } else {
                        None
                    }
                },
            }
        }
    } else {
        None
    }
}

/// Parses a whole document that must be one bare JSON string, surrounding
/// whitespace allowed; yields the decoded bytes.
pub open spec fn parse_string_document(s: Seq<u8>) -> Option<Seq<u8>> {
    let i0 = skip_ws(s, 0);
    if i0 < s.len() && s[i0] == 0x22 {
        match parse_string_body(s, i0 + 1, Seq::empty()) {
            None => None,
            Some(p) => {
                if skip_ws(s, p.1) == s.len() {
                    Some(p.0)
                } else {
                    None
                }
            },
        }
    } else {
        None
    }
}

/// The first member with the given name, if any.
pub open spec fn spec_lookup(fields: Seq<(Seq<u8>, SpecJson)>, name: Seq<u8>) -> Option<SpecJson>
    decreases fields.len(),
{
    if fields.len() == 0 {
        None
    } else if fields[0].0 == name {
        Some(fields[0].1)
    } else {
        spec_lookup(fields.drop_first(), name)
    }
}

/// The member list a decoded vector stands for.
pub open spec fn fields_view(fields: Seq<(Vec<u8>, JsonValue)>) -> Seq<(Seq<u8>, SpecJson)> {
    fields.map_values(|p: (Vec<u8>, JsonValue)| (p.0@, p.1@))
}

/// Relies on `String::from_utf8`: it succeeds exactly on valid UTF-8 input
/// and returns the string those bytes encode.
#[verifier::external_body]
pub fn bytes_into_string(v: Vec<u8>) -> (r: Option<String>)
    ensures
        match r {
            Some(t) => valid_utf8(v@) && encode_utf8(t@) == v@,
            None => !valid_utf8(v@),
        },
{
    String::from_utf8(v).ok()
}

fn skip_ws_from(s: &[u8], i: usize) -> (r: usize)
    requires
        i <= s@.len(),
    ensures
        r == skip_ws(s@, i as int),
        i <= r <= s@.len(),
{
    let mut j = i;
    while j < s.len() && (s[j] == 0x20 || s[j] == 0x09 || s[j] == 0x0a || s[j] == 0x0d)
        invariant
            i <= j <= s@.len(),
            skip_ws(s@, i as int) == skip_ws(s@, j as int),
        decreases s@.len() - j,
    {
        j = j + 1;
    }
    j
}

/// Compares two byte slices for equality of contents.
pub fn bytes_eq(a: &[u8], b: &[u8]) -> (r: bool)
    ensures
        r == (a@ == b@),
{
    if a.len() != b.len() {
        assert(a@ != b@) by {
            assert(a@.len() != b@.len());
        }
        return false;
    }
    let mut i: usize = 0;
    while i < a.len()
        invariant
            i <= a@.len(),
            a@.len() == b@.len(),
            forall|k: int| 0 <= k < i ==> a@[k] == b@[k],
        decreases a@.len() - i,
    {
        if a[i] != b[i] {
            return false;
        }
        i = i + 1;
    }
    proof {
        assert(a@ =~= b@);
    }
    true
}

#[verifier::loop_isolation(false)]
fn parse_string_body_from(s: &[u8], i: usize, acc: Vec<u8>) -> (r: Option<(Vec<u8>, usize)>)
    requires
        i <= s@.len(),
    ensures
        match r {
            Some(p) => parse_string_body(s@, i as int, acc@) == Some((p.0@, p.1 as int)) && i < p.1
                <= s@.len(),
            None => parse_string_body(s@, i as int, acc@) is None,
        },
{
    let ghost acc0 = acc@;
    let ghost i0 = i as int;
    let mut a = acc;
    let mut j = i;
    loop
        invariant
            i <= j <= s@.len(),
            parse_string_body(s@, i0, acc0) == parse_string_body(s@, j as int, a@),
        decreases s@.len() - j,
    {
        if j >= s.len() {
            return None;
        }
        let b = s[j];
        if b == 0x22 {
            return Some((a, j + 1));
        } else if b == 0x5c {
            if j + 1 >= s.len() {
                return None;
            }
            let e = s[j + 1];
            let u: u8;
            if e == 0x22 {
                u = 0x22;
            } else if e == 0x5c {
                u = 0x5c;
            } else if e == 0x2f {
                u = 0x2f;
            } else if e == 0x62 {
                u = 0x08;
            } else if e == 0x66 {
                u = 0x0c;
            } else if e == 0x6e {
                u = 0x0a;
            } else if e == 0x72 {
                u = 0x0d;
            } else if e == 0x74 {
                u = 0x09;
            } else {
                return None;
            }
            a.push(u);
            j = j + 2;
        } else if b < 0x20 {
            return None;
        } else {
            a.push(b);
            j = j + 1;
        }
    }
}

fn digits_end_from(s: &[u8], i: usize) -> (r: usize)
    requires
        i <= s@.len(),
    ensures
        r == digits_end(s@, i as int),
        i <= r <= s@.len(),
{
    let mut j = i;
    while j < s.len() && 0x30 <= s[j] && s[j] <= 0x39
        invariant
            i <= j <= s@.len(),
            digits_end(s@, i as int) == digits_end(s@, j as int),
        decreases s@.len() - j,
    {
        j = j + 1;
    }
    j
}

/// Ten raised to the given power.
pub open spec fn pow10(k: nat) -> int
    decreases k,
{
    if k == 0 {
        1
    } else {
        10 * pow10((k - 1) as nat)
    }
}

proof fn lemma_pow10_18_value()
    ensures
        pow10(17) == 0x16345785d8a0000,
        pow10(18) == 0xde0b6b3a7640000,
{
    assert(pow10(0) == 1);
    assert(pow10(1) == 10);
    assert(pow10(2) == 100);
    assert(pow10(3) == 1000);
    assert(pow10(4) == 10000);
    assert(pow10(5) == 100000);
    assert(pow10(6) == 1000000);
    assert(pow10(7) == 10000000);
    assert(pow10(8) == 100000000);
    assert(pow10(9) == 1000000000);
    assert(pow10(10) == 10000000000);
    assert(pow10(11) == 100000000000);
    assert(pow10(12) == 1000000000000);
    assert(pow10(13) == 10000000000000);
    assert(pow10(14) == 100000000000000);
    assert(pow10(15) == 1000000000000000);
    assert(pow10(16) == 10000000000000000);
    assert(pow10(17) == 100000000000000000);
    assert(pow10(18) == 1000000000000000000);
}

fn parse_int_from(s: &[u8], i: usize) -> (r: Option<(i64, usize)>)
    requires
        i <= s@.len(),
    ensures
        match r {
            Some(p) => parse_int(s@, i as int) == Some((p.0 as int, p.1 as int)) && i < p.1
                <= s@.len(),
            None => parse_int(s@, i as int) is None,
        },
{
    if i >= s.len() {
        return None;
    }
    let neg = s[i] == 0x2d;
    let start = if neg {
        i + 1
    } else {
        i
    };
    let end = digits_end_from(s, start);
    if end == start || end - start > 18 {
        return None;
    }
    let mut acc: i64 = 0;
    let mut k = start;
    proof {
        lemma_pow10_18_value();
    }
    while k < end
        invariant
            start <= k <= end <= s@.len(),
            end - start <= 18,
            end == digits_end(s@, start as int),
            acc == digits_value(s@, start as int, k as int),
            0 <= acc < pow10((k - start) as nat),
            pow10(17) == 0x16345785d8a0000,
            pow10(18) == 0xde0b6b3a7640000,
        decreases end - k,
    {
        proof {
            lemma_digits_in_range(s@, start as int, end as int, k as int);
            lemma_pow10_increases((k - start) as nat, 17);
            assert(pow10(((k + 1) - start) as nat) == 10 * pow10((k - start) as nat));
        }
        let d = s[k] - 0x30;
        acc = acc * 10 + (d as i64);
        k = k + 1;
    }
    proof {
        lemma_pow10_increases((end - start) as nat, 18);
    }
    let value: i64 = if neg {
        -acc
    } else {
        acc
    };
    Some((value, end))
}

proof fn lemma_digits_in_range(s: Seq<u8>, start: int, end: int, k: int)
    requires
        start <= k < end,
        end == digits_end(s, start),
        0 <= start,
        end <= s.len(),
    ensures
        is_dec_digit(s[k]),
    decreases k - start,
{
    if start < k {
        lemma_digits_in_range(s, start + 1, end, k);
    }
}

proof fn lemma_pow10_increases(a: nat, b: nat)
    requires
        a <= b,
    ensures
        pow10(a) <= pow10(b),
    decreases b,
{
    if a < b {
        lemma_pow10_increases(a, (b - 1) as nat);
        lemma_pow10_positive((b - 1) as nat);
        assert(pow10(b) == 10 * pow10((b - 1) as nat));
    }
}

proof fn lemma_pow10_positive(a: nat)
    ensures
        pow10(a) >= 1,
    decreases a,
{
    if a > 0 {
        lemma_pow10_positive((a - 1) as nat);
    }
}

fn parse_value_from(s: &[u8], i: usize) -> (r: Option<(JsonValue, usize)>)
    requires
        i <= s@.len(),
    ensures
        match r {
            Some(p) => parse_value(s@, i as int) == Some((p.0@, p.1 as int)) && i <= p.1
                <= s@.len(),
            None => parse_value(s@, i as int) is None,
        },
{
    let j = skip_ws_from(s, i);
    if j >= s.len() {
        return None;
    }
    let b = s[j];
    if b == 0x22 {
        match parse_string_body_from(s, j + 1, Vec::new()) {
            Some(p) => Some((JsonValue::Str(p.0), p.1)),
            None => None,
        }
    } else if b == 0x74 {
        if s.len() - j >= 4 && s[j + 1] == 0x72 && s[j + 2] == 0x75 && s[j + 3] == 0x65 {
            Some((JsonValue::Bool(true), j + 4))
        } else {
            None
        }
    } else if b == 0x66 {
        if s.len() - j >= 5 && s[j + 1] == 0x61 && s[j + 2] == 0x6c && s[j + 3] == 0x73 && s[j + 4]
            == 0x65 {
            Some((JsonValue::Bool(false), j + 5))
        } else {
            None
        }
    } else if b == 0x2d || (0x30 <= b && b <= 0x39) {
        match parse_int_from(s, j) {
            Some(p) => Some((JsonValue::Int(p.0), p.1)),
            None => None,
        }
    } else {
        None
    }
}

fn parse_members_from(s: &[u8], i: usize, acc: Vec<(Vec<u8>, JsonValue)>) -> (r: Option<
    (Vec<(Vec<u8>, JsonValue)>, usize),
>)
    requires
        i <= s@.len(),
    ensures
        match r {
            Some(p) => parse_members(s@, i as int, fields_view(acc@)) == Some(
                (fields_view(p.0@), p.1 as int),
            ) && p.1 <= s@.len(),
            None => parse_members(s@, i as int, fields_view(acc@)) is None,
        },
    decreases s@.len() - i,
{
    let j0 = skip_ws_from(s, i);
    if !(j0 < s.len() && s[j0] == 0x22) {
        return None;
    }
    let key = match parse_string_body_from(s, j0 + 1, Vec::new()) {
        None => {
            return None;
        },
        Some(p) => p,
    };
    let j2 = skip_ws_from(s, key.1);
    if !(j2 < s.len() && s[j2] == 0x3a) {
        return None;
    }
    let val = match parse_value_from(s, j2 + 1) {
        None => {
            return None;
        },
        Some(p) => p,
    };
    let j5 = skip_ws_from(s, val.1);
    let mut grown = acc;
    let ghost acc0 = fields_view(grown@);
    grown.push((key.0, val.0));
    proof {
        assert(fields_view(grown@) =~= acc0.push((grown@.last().0@, grown@.last().1@)));
    }
    if j5 < s.len() && s[j5] == 0x2c && i < j5 {
        parse_members_from(s, j5 + 1, grown)
    } else {
        Some((grown, j5))
    }
}

/// Decodes a whole document as one flat object.
pub fn parse_flat_object_bytes(s: &[u8]) -> (r: Option<Vec<(Vec<u8>, JsonValue)>>)
    ensures
        match r {
            Some(v) => parse_flat_object(s@) == Some(fields_view(v@)),
            None => parse_flat_object(s@) is None,
        },
{
    let i0 = skip_ws_from(s, 0);
    if !(i0 < s.len() && s[i0] == 0x7b) {
        return None;
    }
    let j = skip_ws_from(s, i0 + 1);
    if j < s.len() && s[j] == 0x7d {
        if skip_ws_from(s, j + 1) == s.len() {
            let empty: Vec<(Vec<u8>, JsonValue)> = Vec::new();
            proof {
                assert(fields_view(empty@) =~= Seq::<(Seq<u8>, SpecJson)>::empty());
            }
            Some(empty)
        } else {
            None
        }
    } else {
        let empty: Vec<(Vec<u8>, JsonValue)> = Vec::new();
        proof {
            assert(fields_view(empty@) =~= Seq::<(Seq<u8>, SpecJson)>::empty());
        }
        match parse_members_from(s, i0 + 1, empty) {
            None => None,
            Some(p) => {
                if p.1 < s.len() && s[p.1] == 0x7d {
                    if skip_ws_from(s, p.1 + 1) == s.len() {
                        Some(p.0)
                    } else {
                        None
                    }
                } else {
                    None
                }
            },
        }
    }
}

/// Decodes a whole document as one bare JSON string, yielding its bytes.
pub fn parse_string_document_bytes(s: &[u8]) -> (r: Option<Vec<u8>>)
    ensures
        match r {
            Some(v) => parse_string_document(s@) == Some(v@),
            None => parse_string_document(s@) is None,
        },
{
    let i0 = skip_ws_from(s, 0);
    if !(i0 < s.len() && s[i0] == 0x22) {
        return None;
    }
    match parse_string_body_from(s, i0 + 1, Vec::new()) {
        None => None,
        Some(p) => {
            if skip_ws_from(s, p.1) == s.len() {
                Some(p.0)
            } else {
                None
            }
        },
    }
}

/// The first member with the given name, if any.
pub fn lookup_field<'a>(fields: &'a Vec<(Vec<u8>, JsonValue)>, name: &[u8]) -> (r: Option<
    &'a JsonValue,
>)
    ensures
        match r {
            Some(v) => spec_lookup(fields_view(fields@), name@) == Some(v@),
            None => spec_lookup(fields_view(fields@), name@) is None,
        },
{
    let mut i: usize = 0;
    proof {
        assert(fields_view(fields@).skip(0) =~= fields_view(fields@));
    }
    while i < fields.len()
        invariant
            i <= fields@.len(),
            spec_lookup(fields_view(fields@), name@) == spec_lookup(
                fields_view(fields@).skip(i as int),
                name@,
            ),
        decreases fields@.len() - i,
    {
        if bytes_eq(fields[i].0.as_slice(), name) {
            return Some(&fields[i].1);
        }
        proof {
            assert(fields_view(fields@).skip(i as int).drop_first() =~= fields_view(
                fields@,
            ).skip(i + 1));
        }
        i = i + 1;
    }
    None
}

} // verus!
