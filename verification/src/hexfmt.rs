//! Lowercase hex encoding and decoding of byte strings, the wire form of
//! magic-link envelope fields in query parameters.

use vstd::prelude::*;

verus! {

use vstd::string::StringSliceAdditionalSpecFns;

/// The character for one hex digit value below 16: `0-9`, then `a-f`.
pub open spec fn hex_digit_char(v: u8) -> char {
    if v < 10 {
        ((48 + v) as u8) as char
    } else {
        ((87 + v) as u8) as char
    }
}

/// The lowercase hex expansion of a byte string, two characters per byte.
pub open spec fn hex_chars_of(data: Seq<u8>) -> Seq<char>
    decreases data.len(),
{
    if data.len() == 0 {
        seq![]
    } else {
        seq![hex_digit_char(data[0] / 16), hex_digit_char(data[0] % 16)]
            + hex_chars_of(data.drop_first())
    }
}

/// Whether an ASCII byte is a hex digit (either case).
pub open spec fn is_hex_digit_byte(c: u8) -> bool {
    (48 <= c <= 57) || (97 <= c <= 102) || (65 <= c <= 70)
}

/// The value of one hex digit given as an ASCII byte.
pub open spec fn hex_digit_val(c: u8) -> u8 {
    if 48 <= c <= 57 {
        (c - 48) as u8
    } else if 97 <= c <= 102 {
        (c - 87) as u8
    } else if 65 <= c <= 70 {
        (c - 55) as u8
    } else {
        0
    }
}

/// Whether an ASCII byte string is well-formed hex: even length, hex digits
/// throughout.
pub open spec fn hex_bytes_valid(s: Seq<u8>) -> bool {
    s.len() % 2 == 0 && forall|i: int| 0 <= i < s.len() ==> is_hex_digit_byte(#[trigger] s[i])
}

/// The bytes denoted by a well-formed hex ASCII string.
pub open spec fn hex_decoded(s: Seq<u8>) -> Seq<u8>
    decreases s.len(),
{
    if s.len() < 2 {
        seq![]
    } else {
        seq![(hex_digit_val(s[0]) * 16 + hex_digit_val(s[1])) as u8] + hex_decoded(s.skip(2))
    }
}

/// Encode bytes as a lowercase hex string.
pub fn hex_encode(data: &[u8]) -> (r: String)
    ensures
        r@ == hex_chars_of(data@),
        r@.len() == 2 * data@.len(),
{
    let mut out: Vec<u8> = Vec::new();
    let mut i: usize = 0;
    while i < data.len()
        invariant
            i <= data@.len(),
            out@.len() == 2 * i,
            forall|j: int| 0 <= j < out@.len() ==> #[trigger] out@[j] < 128,
            crate::text::ascii_chars(out@) == hex_chars_of(data@.take(i as int)),
        decreases data@.len() - i,
    {
        let byte = data[i];
        let hi = byte / 16;
        let lo = byte % 16;
        out.push(if hi < 10 { 48 + hi } else { 87 + hi });
        out.push(if lo < 10 { 48 + lo } else { 87 + lo });
        proof {
            lemma_hex_chars_of_push(data@.take(i as int), data@[i as int]);
            assert(data@.take(i as int).push(data@[i as int]) =~= data@.take(i as int + 1));
            assert(crate::text::ascii_chars(out@) =~= hex_chars_of(data@.take(i as int + 1)));
        }
        i = i + 1;
    }
    proof {
        assert(data@.take(data@.len() as int) =~= data@);
        lemma_hex_chars_len(data@);
    }
    crate::text::ascii_to_string(out)
}

/// Appending one byte appends its two hex characters.
proof fn lemma_hex_chars_of_push(data: Seq<u8>, b: u8)
    ensures
        hex_chars_of(data.push(b)) == hex_chars_of(data) + seq![
            hex_digit_char(b / 16),
            hex_digit_char(b % 16),
        ],
    decreases data.len(),
{
    let t = data.push(b);
    assert(t.len() > 0);
    assert(hex_chars_of(t) == seq![hex_digit_char(t[0] / 16), hex_digit_char(t[0] % 16)]
        + hex_chars_of(t.drop_first()));
    if data.len() == 0 {
        assert(t.drop_first() =~= data);
        assert(hex_chars_of(data) == Seq::<char>::empty());
        assert(hex_chars_of(t) =~= hex_chars_of(data) + seq![
            hex_digit_char(b / 16),
            hex_digit_char(b % 16),
        ]);
    } else {
        assert(t.drop_first() =~= data.drop_first().push(b));
        lemma_hex_chars_of_push(data.drop_first(), b);
        assert(t[0] == data[0]);
        assert(hex_chars_of(t) =~= hex_chars_of(data) + seq![
            hex_digit_char(b / 16),
            hex_digit_char(b % 16),
        ]);
    }
}

/// The hex expansion has twice the length of the input.
pub proof fn lemma_hex_chars_len(data: Seq<u8>)
    ensures
        hex_chars_of(data).len() == 2 * data.len(),
    decreases data.len(),
{
    if data.len() > 0 {
        lemma_hex_chars_len(data.drop_first());
    }
}

/// Decode a hex string; `None` exactly when it is not well-formed hex.
pub fn hex_decode(s: &str) -> (r: Option<Vec<u8>>)
    ensures
        match r {
            Some(v) => hex_bytes_valid(s.spec_bytes()) && v@ == hex_decoded(s.spec_bytes()),
            None => !hex_bytes_valid(s.spec_bytes()),
        },
{
    let bytes = s.as_bytes();
    if bytes.len() % 2 != 0 {
        return None;
    }
    let mut out: Vec<u8> = Vec::new();
    let mut i: usize = 0;
    while i < bytes.len()
        invariant
            bytes@ == s.spec_bytes(),
            i % 2 == 0,
            i <= bytes@.len(),
            bytes@.len() % 2 == 0,
            forall|j: int| 0 <= j < i ==> is_hex_digit_byte(#[trigger] bytes@[j]),
            out@ =~= hex_decoded(bytes@.take(i as int)),
        decreases bytes@.len() - i,
    {
        let c0 = bytes[i];
        let c1 = bytes[i + 1];
        let v0 = hex_digit_value(c0);
        let v1 = hex_digit_value(c1);
        match (v0, v1) {
            (Some(h), Some(l)) => {
                out.push(h * 16 + l);
            },
            _ => {
                return None;
            },
        }
        proof {
            lemma_hex_decoded_append_pair(bytes@.take(i as int), c0, c1);
            assert(bytes@.take(i as int + 2) =~= bytes@.take(i as int).push(c0).push(c1));
        }
        i = i + 2;
    }
    proof {
        assert(bytes@.take(bytes@.len() as int) =~= bytes@);
    }
    Some(out)
}

/// The value of one ASCII hex digit byte, or `None` if it is not one.
fn hex_digit_value(c: u8) -> (r: Option<u8>)
    ensures
        r is Some <==> is_hex_digit_byte(c),
        r matches Some(v) ==> v == hex_digit_val(c) && v < 16,
{
    if 48 <= c && c <= 57 {
        Some(c - 48)
    } else if 97 <= c && c <= 102 {
        Some(c - 87)
    } else if 65 <= c && c <= 70 {
        Some(c - 55)
    } else {
        None
    }
}

/// Appending one digit pair appends its byte.
proof fn lemma_hex_decoded_append_pair(s: Seq<u8>, c0: u8, c1: u8)
    requires
        s.len() % 2 == 0,
    ensures
        hex_decoded(s.push(c0).push(c1)) == hex_decoded(s).push(
            (hex_digit_val(c0) * 16 + hex_digit_val(c1)) as u8,
        ),
    decreases s.len(),
{
    let t = s.push(c0).push(c1);
    let b = (hex_digit_val(c0) * 16 + hex_digit_val(c1)) as u8;
    assert(t.len() == s.len() + 2);
    if s.len() == 0 {
        assert(t[0] == c0 && t[1] == c1);
        assert(hex_decoded(t) == seq![b] + hex_decoded(t.skip(2)));
        assert(t.skip(2) =~= Seq::<u8>::empty());
        assert(hex_decoded(t.skip(2)) == Seq::<u8>::empty());
        assert(hex_decoded(s) == Seq::<u8>::empty());
        assert(hex_decoded(t) =~= hex_decoded(s).push(b));
    } else {
        assert(s.len() >= 2);
        assert(t[0] == s[0] && t[1] == s[1]);
        assert(hex_decoded(t) == seq![(hex_digit_val(s[0]) * 16 + hex_digit_val(s[1])) as u8]
            + hex_decoded(t.skip(2)));
        assert(hex_decoded(s) == seq![(hex_digit_val(s[0]) * 16 + hex_digit_val(s[1])) as u8]
            + hex_decoded(s.skip(2)));
        assert(t.skip(2) =~= s.skip(2).push(c0).push(c1));
        lemma_hex_decoded_append_pair(s.skip(2), c0, c1);
        assert(hex_decoded(t) =~= hex_decoded(s).push(b));
    }
}

} // verus!
