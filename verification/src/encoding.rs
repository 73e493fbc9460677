//! Text forms of byte strings: hexadecimal and base64.
use base64::engine::general_purpose::STANDARD;
use base64::Engine;
use vstd::prelude::*;

verus! {

/// The lower-case hexadecimal digit for a value below 16.
pub open spec fn hex_digit(value: int) -> char {
    if value < 10 {
        ('0' as int + value) as char
    } else {
        ('a' as int + value - 10) as char
    }
}

/// Two lower-case hexadecimal digits for each byte, the high half first.
pub open spec fn hex_text(bytes: Seq<u8>) -> Seq<char> {
    Seq::new(
        2 * bytes.len(),
        |i: int|
            if i % 2 == 0 {
                hex_digit(bytes[i / 2] as int / 16)
            } else {
                hex_digit(bytes[i / 2] as int % 16)
            },
    )
}

/// The value of a hexadecimal digit of either case.
pub open spec fn hex_value(c: char) -> Option<int> {
    if '0' <= c <= '9' {
        Some(c as int - '0' as int)
    } else if 'a' <= c <= 'f' {
        Some(c as int - 'a' as int + 10)
    } else if 'A' <= c <= 'F' {
        Some(c as int - 'A' as int + 10)
    } else {
        None
    }
}

/// The bytes that a string of hexadecimal digits of even length stands for.
pub open spec fn hex_decoded(text: Seq<char>) -> Option<Seq<u8>> {
    if text.len() % 2 == 0 && forall|i: int|
        0 <= i < text.len() ==> hex_value(#[trigger] text[i]) is Some {
        Some(
            Seq::new(
                text.len() / 2,
                |i: int|
                    (16 * hex_value(text[2 * i])->0 + hex_value(text[2 * i + 1])->0) as u8,
            ),
        )
    } else {
        None
    }
}

/// The base64 symbol for a value below 64, standard alphabet.
pub open spec fn b64_symbol(value: int) -> char {
    if value < 26 {
        ('A' as int + value) as char
    } else if value < 52 {
        ('a' as int + value - 26) as char
    } else if value < 62 {
        ('0' as int + value - 52) as char
    } else if value == 62 {
        '+'
    } else {
        '/'
    }
}

/// Padded base64: four symbols for each group of three bytes.
pub open spec fn b64_text(bytes: Seq<u8>) -> Seq<char>
    decreases bytes.len(),
{
    let (b0, b1, b2) = (bytes[0] as int, bytes[1] as int, bytes[2] as int);
    if bytes.len() == 0 {
        seq![]
    } else if bytes.len() == 1 {
        seq![b64_symbol(b0 / 4), b64_symbol(b0 % 4 * 16), '=', '=']
    } else if bytes.len() == 2 {
        seq![
            b64_symbol(b0 / 4),
            b64_symbol(b0 % 4 * 16 + b1 / 16),
            b64_symbol(b1 % 16 * 4),
            '=',
        ]
    } else {
        seq![
            b64_symbol(b0 / 4),
            b64_symbol(b0 % 4 * 16 + b1 / 16),
            b64_symbol(b1 % 16 * 4 + b2 / 64),
            b64_symbol(b2 % 64),
        ] + b64_text(bytes.skip(3))
    }
}

/// Length of the base64 form of `len` bytes.
pub open spec fn b64_len(len: nat) -> nat {
    (len + 2) / 3 * 4
}

/// The bytes whose base64 form the text is.
pub open spec fn b64_decoded(text: Seq<char>) -> Option<Seq<u8>> {
    if exists|bytes: Seq<u8>| b64_text(bytes) == text {
        Some(choose|bytes: Seq<u8>| b64_text(bytes) == text)
    } else {
        None
    }
}

/// Calls `hex::encode`: two lower-case digits for each byte.
#[verifier::external_body]
pub(crate) fn hex_encode(bytes: &[u8]) -> (text: String)
    requires
        2 * bytes@.len() <= isize::MAX,
    ensures
        text@ == hex_text(bytes@),
{
    hex::encode(bytes)
}

/// Calls `hex::decode`: digits of either case are accepted; an odd length or any other character
/// gives nothing.
#[verifier::external_body]
pub(crate) fn hex_decode(text: &str) -> (bytes: Option<Vec<u8>>)
    ensures
        bytes is Some <==> hex_decoded(text@) is Some,
        bytes matches Some(b) ==> hex_decoded(text@) == Some(b@),
{
    hex::decode(text).ok()
}

/// Calls `base64::Engine::encode` of the engine `STANDARD`: the standard alphabet with padding.
#[verifier::external_body]
pub(crate) fn b64_encode(bytes: &[u8]) -> (text: String)
    requires
        b64_len(bytes@.len()) <= isize::MAX,
    ensures
        text@ == b64_text(bytes@),
{
    STANDARD.encode(bytes)
}

/// Calls `base64::Engine::decode` of the engine `STANDARD`, which asks for canonical padding and
/// for zero bits behind the last byte: it accepts exactly what encoding produces.
#[verifier::external_body]
pub(crate) fn b64_decode(text: &str) -> (bytes: Option<Vec<u8>>)
    ensures
        match bytes {
            Some(b) => b64_text(b@) == text@,
            None => forall|b: Seq<u8>| #[trigger] b64_text(b) != text@,
        },
{
    STANDARD.decode(text).ok()
}

/// Decoding the hexadecimal form of a byte string gives the byte string back.
pub proof fn lemma_hex_round_trip(bytes: Seq<u8>)
    ensures
        hex_decoded(hex_text(bytes)) == Some(bytes),
{
    let text = hex_text(bytes);
    assert forall|i: int| 0 <= i < text.len() implies hex_value(#[trigger] text[i]) is Some by {}
    assert forall|i: int| 0 <= i < bytes.len() implies (16 * hex_value(text[2 * i])->0 + hex_value(
        text[2 * i + 1],
    )->0) as u8 == bytes[i] by {
        assert((2 * i) / 2 == i && (2 * i + 1) / 2 == i);
    }
    assert(hex_decoded(text)->0 =~= bytes);
}

/// Different byte strings have different base64 forms.
pub proof fn lemma_b64_injective(a: Seq<u8>, b: Seq<u8>)
    requires
        b64_text(a) == b64_text(b),
    ensures
        a == b,
    decreases a.len(),
{
    let (s, t) = (b64_text(a), b64_text(b));
    lemma_b64_len(a);
    lemma_b64_len(b);
    if a.len() > 0 {
        assert(s[0] == t[0] && s[1] == t[1] && s[2] == t[2] && s[3] == t[3]);
        if a.len() >= 3 && b.len() >= 3 {
            assert(s.skip(4) =~= b64_text(a.skip(3)));
            assert(t.skip(4) =~= b64_text(b.skip(3)));
            lemma_b64_injective(a.skip(3), b.skip(3));
            assert(a =~= seq![a[0], a[1], a[2]] + a.skip(3));
            assert(b =~= seq![b[0], b[1], b[2]] + b.skip(3));
        } else {
            assert(a =~= b);
        }
    } else {
        assert(a =~= b);
    }
}

/// The base64 form has four characters for each started group of three bytes.
pub proof fn lemma_b64_len(bytes: Seq<u8>)
    ensures
        b64_text(bytes).len() == b64_len(bytes.len()),
    decreases bytes.len(),
{
    if bytes.len() >= 3 {
        lemma_b64_len(bytes.skip(3));
    }
}

/// No base64 form holds a colon.
pub proof fn lemma_b64_no_colon(bytes: Seq<u8>)
    ensures
        !b64_text(bytes).contains(':'),
    decreases bytes.len(),
{
    let text = b64_text(bytes);
    if bytes.len() >= 3 {
        let rest = b64_text(bytes.skip(3));
        lemma_b64_no_colon(bytes.skip(3));
        assert forall|i: int| 0 <= i < text.len() implies text[i] != ':' by {
            if i >= 4 {
                assert(text[i] == rest[i - 4]);
                assert(rest.contains(rest[i - 4]));
            }
        }
    }
}

/// Decoding the base64 form of a byte string gives the byte string back.
pub proof fn lemma_b64_round_trip(bytes: Seq<u8>)
    ensures
        b64_decoded(b64_text(bytes)) == Some(bytes),
{
    let text = b64_text(bytes);
    lemma_b64_injective(choose|b: Seq<u8>| b64_text(b) == text, bytes);
}

} // verus!
