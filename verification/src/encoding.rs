//! The standard base64 text form of a byte string, and the proof that it can
//! be read back.

use vstd::prelude::*;

verus! {

/// The sixty-four symbols of the standard alphabet, in the order of their
/// values.
pub open spec fn alphabet() -> Seq<char> {
    "ABCDEFGHIJKLMNOPQRSTUVWXYZabcdefghijklmnopqrstuvwxyz0123456789+/"@
}

/// The symbol that stands for a six-bit value.
pub open spec fn symbol(value: int) -> char
    recommends
        0 <= value < 64,
{
    alphabet()[value]
}

/// The six-bit value that a symbol stands for, if it is a symbol.
pub open spec fn symbol_value(c: char) -> Option<int> {
    if 'A' <= c <= 'Z' {
        Some(c as int - 'A' as int)
    } else if 'a' <= c <= 'z' {
        Some(c as int - 'a' as int + 26)
    } else if '0' <= c <= '9' {
        Some(c as int - '0' as int + 52)
    } else if c == '+' {
        Some(62)
    } else if c == '/' {
        Some(63)
    } else {
        None
    }
}

/// The four symbols that spell three bytes: their twenty-four bits, cut
/// into four values of six bits.
pub open spec fn quad(b0: int, b1: int, b2: int) -> Seq<char> {
    seq![
        symbol(b0 / 4),
        symbol(b0 % 4 * 16 + b1 / 16),
        symbol(b1 % 16 * 4 + b2 / 64),
        symbol(b2 % 64),
    ]
}

/// Standard base64 with padding: every three bytes become four symbols; a
/// last group of one or two bytes is filled up with zero bits, and `=`
/// stands where a symbol would hold none of its bits.
pub open spec fn base64_encoding(bytes: Seq<u8>) -> Seq<char>
    decreases bytes.len(),
{
    if bytes.len() == 0 {
        Seq::empty()
    } else if bytes.len() == 1 {
        quad(bytes[0] as int, 0, 0).subrange(0, 2) + seq!['=', '=']
    } else if bytes.len() == 2 {
        quad(bytes[0] as int, bytes[1] as int, 0).subrange(0, 3) + seq!['=']
    } else {
        quad(bytes[0] as int, bytes[1] as int, bytes[2] as int) + base64_encoding(bytes.skip(3))
    }
}

/// Number of characters in the base64 text of `len` bytes.
pub open spec fn base64_len(len: int) -> int {
    (len + 2) / 3 * 4
}

/// Reads canonical standard base64 back into bytes. Text that is not the
/// encoding of any byte string has no decoding.
pub open spec fn base64_decoding(text: Seq<char>) -> Option<Seq<u8>>
    decreases text.len(),
{
    if text.len() == 0 {
        Some(Seq::empty())
    } else if text.len() < 4 {
        None
    } else {
        match (symbol_value(text[0]), symbol_value(text[1])) {
            (Some(a), Some(b)) => {
                if text.len() == 4 && text[2] == '=' && text[3] == '=' {
                    if b % 16 == 0 {
                        Some(seq![(a * 4 + b / 16) as u8])
                    } else {
                        None
                    }
                } else {
                    match symbol_value(text[2]) {
                        Some(c) => {
                            if text.len() == 4 && text[3] == '=' {
                                if c % 4 == 0 {
                                    Some(seq![(a * 4 + b / 16) as u8, (b % 16 * 16 + c / 4) as u8])
                                } else {
                                    None
                                }
                            } else {
                                match (symbol_value(text[3]), base64_decoding(text.skip(4))) {
                                    (Some(d), Some(rest)) => Some(
                                        seq![
                                            (a * 4 + b / 16) as u8,
                                            (b % 16 * 16 + c / 4) as u8,
                                            (c % 4 * 64 + d) as u8,
                                        ] + rest,
                                    ),
                                    _ => None,
                                }
                            }
                        },
                        None => None,
                    }
                }
            },
            _ => None,
        }
    }
}

/// Every six-bit value has a symbol of its own, and none of them is the
/// padding character.
pub proof fn lemma_symbol_value(value: int)
    requires
        0 <= value < 64,
    ensures
        symbol_value(symbol(value)) == Some(value),
        symbol(value) != '=',
{
    reveal_strlit("ABCDEFGHIJKLMNOPQRSTUVWXYZabcdefghijklmnopqrstuvwxyz0123456789+/");
}

/// The base64 text of a byte string has four characters for every group of
/// up to three bytes.
pub proof fn lemma_base64_len(bytes: Seq<u8>)
    ensures
        base64_encoding(bytes).len() == base64_len(bytes.len() as int),
    decreases bytes.len(),
{
    if bytes.len() >= 3 {
        lemma_base64_len(bytes.skip(3));
    }
}

/// Every character of a base64 text is a symbol of the alphabet or the
/// padding character.
pub proof fn lemma_base64_characters(bytes: Seq<u8>, at: int)
    requires
        0 <= at < base64_encoding(bytes).len(),
    ensures
        base64_encoding(bytes)[at] == '=' || symbol_value(base64_encoding(bytes)[at]) is Some,
    decreases bytes.len(),
{
    let b0 = bytes[0] as int;
    let b1 = if bytes.len() >= 2 { bytes[1] as int } else { 0 };
    let b2 = if bytes.len() >= 3 { bytes[2] as int } else { 0 };
    lemma_symbol_value(b0 / 4);
    lemma_symbol_value(b0 % 4 * 16 + b1 / 16);
    lemma_symbol_value(b1 % 16 * 4 + b2 / 64);
    lemma_symbol_value(b2 % 64);
    if bytes.len() >= 3 && at >= 4 {
        lemma_base64_characters(bytes.skip(3), at - 4);
    }
}

/// Round trip: decoding the base64 text of a byte string gives back exactly
/// that byte string.
pub proof fn lemma_base64_round_trip(bytes: Seq<u8>)
    ensures
        base64_decoding(base64_encoding(bytes)) == Some(bytes),
    decreases bytes.len(),
{
    let text = base64_encoding(bytes);
    if bytes.len() == 0 {
        assert(bytes =~= Seq::empty());
    } else if bytes.len() == 1 {
        let b0 = bytes[0] as int;
        lemma_symbol_value(b0 / 4);
        lemma_symbol_value(b0 % 4 * 16);
        assert(seq![(b0 / 4 * 4 + b0 % 4 * 16 / 16) as u8] =~= bytes);
    } else if bytes.len() == 2 {
        let b0 = bytes[0] as int;
        let b1 = bytes[1] as int;
        lemma_symbol_value(b0 / 4);
        lemma_symbol_value(b0 % 4 * 16 + b1 / 16);
        lemma_symbol_value(b1 % 16 * 4);
        let b = b0 % 4 * 16 + b1 / 16;
        let c = b1 % 16 * 4;
        assert(seq![(b0 / 4 * 4 + b / 16) as u8, (b % 16 * 16 + c / 4) as u8] =~= bytes);
    } else {
        let b0 = bytes[0] as int;
        let b1 = bytes[1] as int;
        let b2 = bytes[2] as int;
        let a = b0 / 4;
        let b = b0 % 4 * 16 + b1 / 16;
        let c = b1 % 16 * 4 + b2 / 64;
        let d = b2 % 64;
        lemma_symbol_value(a);
        lemma_symbol_value(b);
        lemma_symbol_value(c);
        lemma_symbol_value(d);
        let rest = bytes.skip(3);
        lemma_base64_round_trip(rest);
        lemma_base64_len(rest);
        assert(text.skip(4) =~= base64_encoding(rest));
        assert(seq![(a * 4 + b / 16) as u8, (b % 16 * 16 + c / 4) as u8, (c % 4 * 64 + d) as u8]
            + rest =~= bytes);
    }
}

/// Calls `Engine::encode` of the `base64` crate on its `STANDARD` engine.
/// Trusted: the string returned is the padded standard base64 text of the
/// bytes. The outside function panics when the length of that text does not
/// fit the machine word, which the precondition rules out.
#[verifier::external_body]
fn encode_standard(bytes: &[u8]) -> (text: String)
    requires
        base64_len(bytes@.len() as int) <= usize::MAX,
    ensures
        text@ == base64_encoding(bytes@),
{
    base64::Engine::encode(&base64::engine::general_purpose::STANDARD, bytes)
}

/// The base64 text of a byte string.
pub fn encode(bytes: &[u8]) -> (text: String)
    requires
        base64_len(bytes@.len() as int) <= usize::MAX,
    ensures
        text@ == base64_encoding(bytes@),
        base64_decoding(text@) == Some(bytes@),
{
    proof {
        lemma_base64_round_trip(bytes@);
    }
    encode_standard(bytes)
}

} // verus!
