use vstd::prelude::*;

use crate::errors::ApiServiceError;

verus! {

/// A store identifier: twelve raw bytes, carried across the HTTP boundary
/// as a 24-digit hexadecimal string.
pub struct Oid {
    bytes: Vec<u8>,
}

impl View for Oid {
    type V = Seq<u8>;

    closed spec fn view(&self) -> Seq<u8> {
        self.bytes@
    }
}

/// A hexadecimal digit, either case.
pub open spec fn is_hex_digit(c: char) -> bool {
    (48 <= c as u32 && c as u32 <= 57)  // '0' ..= '9'
    || (97 <= c as u32 && c as u32 <= 102)  // 'a' ..= 'f'
    || (65 <= c as u32 && c as u32 <= 70)  // 'A' ..= 'F'
}

/// The numeric value of a hexadecimal digit.
pub open spec fn hex_digit_val(c: char) -> u8 {
    if 48 <= c as u32 && c as u32 <= 57 {
        (c as u32 - 48) as u8
    } else if 97 <= c as u32 && c as u32 <= 102 {
        (c as u32 - 87) as u8
    } else {
        (c as u32 - 55) as u8
    }
}

/// The lower-case hexadecimal digit for a value below sixteen.
pub open spec fn hex_char_of(d: u8) -> char {
    if d == 0 { '0' }
    else if d == 1 { '1' }
    else if d == 2 { '2' }
    else if d == 3 { '3' }
    else if d == 4 { '4' }
    else if d == 5 { '5' }
    else if d == 6 { '6' }
    else if d == 7 { '7' }
    else if d == 8 { '8' }
    else if d == 9 { '9' }
    else if d == 10 { 'a' }
    else if d == 11 { 'b' }
    else if d == 12 { 'c' }
    else if d == 13 { 'd' }
    else if d == 14 { 'e' }
    else { 'f' }
}

/// A well-formed identifier string: exactly 24 hexadecimal digits.
pub open spec fn valid_oid_str(s: Seq<char>) -> bool {
    s.len() == 24 && forall|i: int| 0 <= i < 24 ==> is_hex_digit(#[trigger] s[i])
}

/// The twelve bytes denoted by a well-formed identifier string.
pub open spec fn oid_decode(s: Seq<char>) -> Seq<u8> {
    Seq::new(12, |i: int| (hex_digit_val(s[2 * i]) * 16 + hex_digit_val(s[2 * i + 1])) as u8)
}

/// The canonical lower-case hexadecimal rendering of twelve bytes.
pub open spec fn oid_encode(b: Seq<u8>) -> Seq<char> {
    Seq::new(24, |i: int| if i % 2 == 0 {
        hex_char_of(b[i / 2] / 16)
    } else {
        hex_char_of(b[i / 2] % 16)
    })
}

/// The byte pattern of the identifier generated for counter value `n`.
pub open spec fn oid_of_counter(n: u64) -> Seq<u8> {
    seq![
        n as u8,
        (n >> 8) as u8,
        (n >> 16) as u8,
        (n >> 24) as u8,
        (n >> 32) as u8,
        (n >> 40) as u8,
        (n >> 48) as u8,
        (n >> 56) as u8,
        0u8,
        0u8,
        0u8,
        0u8,
    ]
}

/// Distinct counter values yield distinct identifiers.
pub proof fn lemma_oid_counter_injective(a: u64, b: u64)
    requires
        oid_of_counter(a) == oid_of_counter(b),
    ensures
        a == b,
{
    assert(oid_of_counter(a)[0] == oid_of_counter(b)[0]);
    assert(oid_of_counter(a)[1] == oid_of_counter(b)[1]);
    assert(oid_of_counter(a)[2] == oid_of_counter(b)[2]);
    assert(oid_of_counter(a)[3] == oid_of_counter(b)[3]);
    assert(oid_of_counter(a)[4] == oid_of_counter(b)[4]);
    assert(oid_of_counter(a)[5] == oid_of_counter(b)[5]);
    assert(oid_of_counter(a)[6] == oid_of_counter(b)[6]);
    assert(oid_of_counter(a)[7] == oid_of_counter(b)[7]);
    assert((a as u8 == b as u8 && (a >> 8) as u8 == (b >> 8) as u8 && (a >> 16) as u8 == (b
        >> 16) as u8 && (a >> 24) as u8 == (b >> 24) as u8 && (a >> 32) as u8 == (b >> 32) as u8
        && (a >> 40) as u8 == (b >> 40) as u8 && (a >> 48) as u8 == (b >> 48) as u8 && (a
        >> 56) as u8 == (b >> 56) as u8) ==> a == b) by (bit_vector);
}

impl Oid {
    /// The twelve-byte well-formedness bound.
    pub open spec fn wf(&self) -> bool {
        self@.len() == 12
    }

    /// Byte-wise identifier equality.
    pub fn eq_id(&self, other: &Oid) -> (r: bool)
        ensures
            r == (self@ == other@),
    {
        if self.bytes.len() != other.bytes.len() {
            assert(self@.len() != other@.len());
            return false;
        }
        let n = self.bytes.len();
        let mut i: usize = 0;
        while i < n
            invariant
                i <= n,
                n == self@.len() == other@.len(),
                forall|j: int| 0 <= j < i ==> self@[j] == other@[j],
            decreases n - i,
        {
            if self.bytes[i] != other.bytes[i] {
                return false;
            }
            i += 1;
        }
        proof {
            assert(self@ =~= other@);
        }
        true
    }

    /// The identifier generated for counter value `n`.
    pub(crate) fn from_counter(n: u64) -> (r: Oid)
        ensures
            r.wf(),
            r@ == oid_of_counter(n),
    {
        let mut bytes: Vec<u8> = Vec::new();
        bytes.push(n as u8);
        bytes.push((n >> 8) as u8);
        bytes.push((n >> 16) as u8);
        bytes.push((n >> 24) as u8);
        bytes.push((n >> 32) as u8);
        bytes.push((n >> 40) as u8);
        bytes.push((n >> 48) as u8);
        bytes.push((n >> 56) as u8);
        bytes.push(0u8);
        bytes.push(0u8);
        bytes.push(0u8);
        bytes.push(0u8);
        let r = Oid { bytes };
        proof {
            assert(r@ =~= oid_of_counter(n));
        }
        r
    }
}

impl Clone for Oid {
    fn clone(&self) -> (r: Self)
        ensures
            r@ == self@,
    {
        Oid { bytes: vstd::slice::slice_to_vec(self.bytes.as_slice()) }
    }
}

/// The numeric value of one hexadecimal digit character, if it is one.
fn hex_val(c: char) -> (r: Option<u8>)
    ensures
        r is Some <==> is_hex_digit(c),
        r matches Some(v) ==> v == hex_digit_val(c) && v < 16,
{
    let u = c as u32;
    if 48 <= u && u <= 57 {
        Some((u - 48) as u8)
    } else if 97 <= u && u <= 102 {
        Some((u - 87) as u8)
    } else if 65 <= u && u <= 70 {
        Some((u - 55) as u8)
    } else {
        None
    }
}

/// Parse a wire identifier. Succeeds exactly on 24 hexadecimal digits;
/// every other string is rejected before any store work happens.
pub fn parse_oid(id: &str) -> (r: Result<Oid, ApiServiceError>)
    ensures
        r is Ok <==> valid_oid_str(id@),
        r matches Ok(o) ==> o.wf() && o@ == oid_decode(id@),
        r matches Err(e) ==> e is InvalidObjectId,
{
    let n = id.unicode_len();
    if n != 24 {
        return Err(ApiServiceError::InvalidObjectId);
    }
    let mut bytes: Vec<u8> = Vec::new();
    let mut i: usize = 0;
    while i < 24
        invariant
            id@.len() == 24,
            i % 2 == 0,
            i <= 24,
            bytes@.len() == i / 2,
            forall|j: int| 0 <= j < i ==> is_hex_digit(#[trigger] id@[j]),
            forall|j: int| 0 <= j < i / 2 ==> bytes@[j] == (hex_digit_val(id@[2 * j]) * 16
                + hex_digit_val(id@[2 * j + 1])) as u8,
        decreases 24 - i,
    {
        let hi = match hex_val(id.get_char(i)) {
            Some(v) => v,
            None => {
                return Err(ApiServiceError::InvalidObjectId);
            },
        };
        let lo = match hex_val(id.get_char(i + 1)) {
            Some(v) => v,
            None => {
                return Err(ApiServiceError::InvalidObjectId);
            },
        };
        bytes.push(hi * 16 + lo);
        i += 2;
    }
    let r = Oid { bytes };
    proof {
        assert(r@ =~= oid_decode(id@));
    }
    Ok(r)
}

/// One lower-case hexadecimal digit as a string slice.
fn hex_char_str(d: u8) -> (r: &'static str)
    requires
        d < 16,
    ensures
        r@.len() == 1,
        r@[0] == hex_char_of(d),
{
    proof {
        reveal_strlit("0");
        reveal_strlit("1");
        reveal_strlit("2");
        reveal_strlit("3");
        reveal_strlit("4");
        reveal_strlit("5");
        reveal_strlit("6");
        reveal_strlit("7");
        reveal_strlit("8");
        reveal_strlit("9");
        reveal_strlit("a");
        reveal_strlit("b");
        reveal_strlit("c");
        reveal_strlit("d");
        reveal_strlit("e");
        reveal_strlit("f");
    }
    match d {
        0 => "0",
        1 => "1",
        2 => "2",
        3 => "3",
        4 => "4",
        5 => "5",
        6 => "6",
        7 => "7",
        8 => "8",
        9 => "9",
        10 => "a",
        11 => "b",
        12 => "c",
        13 => "d",
        14 => "e",
        _ => "f",
    }
}

/// Render an identifier as its canonical lower-case hexadecimal string.
pub fn oid_to_hex(o: &Oid) -> (r: String)
    requires
        o.wf(),
    ensures
        r@ == oid_encode(o@),
{
    let mut s = String::new();
    let mut i: usize = 0;
    while i < 12
        invariant
            o.wf(),
            i <= 12,
            s@.len() == 2 * i,
            forall|j: int| 0 <= j < 2 * i ==> s@[j] == oid_encode(o@)[j],
        decreases 12 - i,
    {
        let b = o.bytes[i];
        s.append(hex_char_str(b / 16));
        s.append(hex_char_str(b % 16));
        i += 1;
    }
    proof {
        assert(s@ =~= oid_encode(o@));
    }
    s
}

/// The canonical rendering of any twelve bytes is itself a well-formed
/// identifier string, and parsing it gives the same bytes back.
pub proof fn lemma_oid_hex_round_trip(b: Seq<u8>)
    requires
        b.len() == 12,
    ensures
        valid_oid_str(oid_encode(b)),
        oid_decode(oid_encode(b)) == b,
{
    let e = oid_encode(b);
    assert forall|i: int| 0 <= i < 24 implies is_hex_digit(#[trigger] e[i]) by {
        let d = b[i / 2];
        assert(d / 16 < 16 && d % 16 < 16);
    }
    assert forall|i: int| 0 <= i < 12 implies oid_decode(e)[i] == b[i] by {
        let d = b[i];
        assert(e[2 * i] == hex_char_of(d / 16));
        assert(e[2 * i + 1] == hex_char_of(d % 16));
        assert(hex_digit_val(hex_char_of(d / 16)) == d / 16);
        assert(hex_digit_val(hex_char_of(d % 16)) == d % 16);
        assert(d / 16 * 16 + d % 16 == d);
    }
    assert(oid_decode(e) =~= b);
}

} // verus!
