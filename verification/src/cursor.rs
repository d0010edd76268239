//! Opaque pagination cursors: the decimal offset of the next page, encoded in
//! standard base64 with padding.

use vstd::prelude::*;

use base64::engine::general_purpose::STANDARD as B64;
use base64::Engine;

use crate::error::{invalid_input, is_invalid_input, MemoriError};
use crate::text::{decimal, decimal_string, parse_decimal, parse_unsigned};

verus! {

/// The character of the standard base64 alphabet for a 6-bit value.
pub open spec fn b64_char(v: nat) -> char {
    if v < 26 {
        (('A' as nat) + v) as char
    } else if v < 52 {
        (('a' as nat) + (v - 26)) as char
    } else if v < 62 {
        (('0' as nat) + (v - 52)) as char
    } else if v == 62 {
        '+'
    } else {
        '/'
    }
}

/// Standard base64 (RFC 4648 alphabet) of `b`, padded with `=` to a multiple
/// of four characters.
pub open spec fn base64_encode(b: Seq<u8>) -> Seq<char>
    decreases b.len(),
{
    if b.len() == 0 {
        seq![]
    } else if b.len() == 1 {
        seq![b64_char(b[0] as nat / 4), b64_char((b[0] as nat % 4) * 16), '=', '=']
    } else if b.len() == 2 {
        seq![
            b64_char(b[0] as nat / 4),
            b64_char((b[0] as nat % 4) * 16 + b[1] as nat / 16),
            b64_char((b[1] as nat % 16) * 4),
            '=',
        ]
    } else {
        seq![
            b64_char(b[0] as nat / 4),
            b64_char((b[0] as nat % 4) * 16 + b[1] as nat / 16),
            b64_char((b[1] as nat % 16) * 4 + b[2] as nat / 64),
            b64_char(b[2] as nat % 64),
        ] + base64_encode(b.subrange(3, b.len() as int))
    }
}

/// What the standard base64 engine decodes from the text `s`: `None` when
/// it refuses the text.
pub uninterp spec fn base64_decoded(s: Seq<char>) -> Option<Seq<u8>>;

/// `base64::engine::general_purpose::STANDARD.encode`: the padded standard
/// base64 text of the bytes of `s`. The engine panics only when the length of
/// the output would overflow `usize`, which `requires` rules out.
#[verifier::external_body]
fn b64_encode(s: &str) -> (r: String)
    requires
        4 * ((vstd::utf8::encode_utf8(s@).len() + 2) / 3) <= usize::MAX,
    ensures
        r@ == base64_encode(vstd::utf8::encode_utf8(s@)),
{
    B64.encode(s)
}

/// `base64::engine::general_purpose::STANDARD.decode` on the bytes of `s`.
/// Its result is named `base64_decoded`; besides, the engine gives back the
/// bytes of any text that its own `encode` wrote (it accepts canonical,
/// padded input). What it does on other input is not stated.
#[verifier::external_body]
fn b64_decode(s: &str) -> (r: Option<Vec<u8>>)
    ensures
        r is Some <==> base64_decoded(s@) is Some,
        r is Some ==> base64_decoded(s@) == Some(r->Some_0@),
        forall|b: Seq<u8>| s@ == base64_encode(b) ==> r is Some && r->Some_0@ == b,
{
    B64.decode(s).ok()
}

/// The characters that a byte sequence stands for when every byte is read
/// as one character (Latin-1); ASCII text reads back as itself.
pub open spec fn bytes_as_chars(b: Seq<u8>) -> Seq<char> {
    b.map_values(|x: u8| x as char)
}

/// The cursor that points at `offset`: the base64 text of its decimal form.
pub open spec fn cursor_text(offset: nat) -> Seq<char> {
    base64_encode(vstd::utf8::encode_utf8(decimal(offset)))
}

/// The offset that a cursor text stands for: base64-decoded, the bytes must
/// be the decimal form of a `usize` (an optional `+`, then digits). Bytes
/// that are not ASCII can never form such a number, whether or not they are
/// valid UTF-8, so reading each byte as a character decides the same thing.
pub open spec fn cursor_offset(c: Seq<char>) -> Option<nat> {
    match base64_decoded(c) {
        Some(b) => parse_unsigned(bytes_as_chars(b), usize::MAX as nat),
        None => None,
    }
}

/// The cursor for the page that starts at `offset`.
pub fn encode_cursor(offset: usize) -> (c: String)
    ensures
        c@ == cursor_text(offset as nat),
{
    let d = decimal_string(offset as u64);
    proof {
        crate::text::lemma_decimal_digits(offset as nat);
        lemma_decimal_is_ascii(offset as nat);
        vstd::utf8::is_ascii_chars_encode_utf8(d@);
        crate::text::lemma_decimal_len_bound(offset as nat);
    }
    b64_encode(d.as_str())
}

/// The decimal form of a number is ASCII text.
pub proof fn lemma_decimal_is_ascii(n: nat)
    ensures
        vstd::utf8::is_ascii_chars(decimal(n)),
{
    crate::text::lemma_decimal_digits(n);
    assert forall|i: int| 0 <= i < decimal(n).len() implies (decimal(n)[i] as u32) < 128 by {
        assert(crate::text::is_digit(decimal(n)[i]));
    }
}

/// Reads a cursor back into the offset it points at. Every cursor that
/// `encode_cursor` wrote reads back as the offset it was written for.
pub fn decode_cursor(c: &str) -> (r: Result<usize, MemoriError>)
    ensures
        match cursor_offset(c@) {
            Some(n) => r == Ok::<usize, MemoriError>(n as usize),
            None => r is Err && is_invalid_input(r->Err_0, "cursor is invalid"@),
        },
        forall|n: nat| n <= usize::MAX && c@ == cursor_text(n) ==> r == Ok::<usize, MemoriError>(n as usize),
{
    let decoded = b64_decode(c);
    proof {
        assert forall|n: nat| n <= usize::MAX && c@ == cursor_text(n) implies cursor_offset(c@) == Some(n) by {
            lemma_cursor_roundtrip_bytes(n);
        }
    }
    let bytes = match decoded {
        Some(b) => b,
        None => return Err(invalid_input("cursor is invalid")),
    };
    let mut chars: Vec<char> = Vec::new();
    let mut i: usize = 0;
    while i < bytes.len()
        invariant
            i <= bytes.len(),
            chars@ == bytes_as_chars(bytes@.take(i as int)),
        decreases bytes.len() - i,
    {
        chars.push(bytes[i] as char);
        i = i + 1;
        proof {
            assert(chars@ =~= bytes_as_chars(bytes@.take(i as int)));
        }
    }
    proof {
        assert(bytes@.take(bytes@.len() as int) =~= bytes@);
    }
    match parse_decimal(chars.as_slice(), usize::MAX as u64) {
        Some(n) => Ok(n as usize),
        None => Err(invalid_input("cursor is invalid")),
    }
}

/// The bytes of a decimal form, read back as characters, are that form.
proof fn lemma_cursor_roundtrip_bytes(n: nat)
    requires
        n <= usize::MAX,
    ensures
        bytes_as_chars(vstd::utf8::encode_utf8(decimal(n))) == decimal(n),
        parse_unsigned(decimal(n), usize::MAX as nat) == Some(n),
{
    lemma_decimal_is_ascii(n);
    vstd::utf8::is_ascii_chars_encode_utf8(decimal(n));
    let d = decimal(n);
    assert forall|i: int| 0 <= i < d.len() implies ((d[i] as u8) as char) == d[i] by {
        assert((d[i] as u32) < 128);
    }
    assert(bytes_as_chars(vstd::utf8::encode_utf8(d)) =~= d);
    crate::text::lemma_parse_decimal_roundtrip(n, usize::MAX as nat);
}

} // verus!
