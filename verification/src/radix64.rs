//! Radix-64 text: the standard alphabet, with padding.

use base64::Engine;
use vstd::prelude::*;

verus! {

/// The character that stands for the six-bit value `v`.
pub open spec fn symbol(v: int) -> char
    recommends
        0 <= v < 64,
{
    if v < 26 {
        (v + 65) as char
    } else if v < 52 {
        (v + 71) as char
    } else if v < 62 {
        (v - 4) as char
    } else if v == 62 {
        '+'
    } else {
        '/'
    }
}

/// The six-bit value that a character of the alphabet stands for; 64 for any
/// other character.
pub open spec fn symbol_value(c: char) -> int {
    let n = c as int;
    if 65 <= n <= 90 {
        n - 65
    } else if 97 <= n <= 122 {
        n - 71
    } else if 48 <= n <= 57 {
        n + 4
    } else if c == '+' {
        62
    } else if c == '/' {
        63
    } else {
        64
    }
}

/// The padded text of a byte sequence: every three bytes give four symbols,
/// most significant bits first; a last group of one or two bytes is filled
/// with zero bits and closed with `=`.
pub open spec fn base64_text(bytes: Seq<u8>) -> Seq<char>
    decreases bytes.len(),
{
    if bytes.len() == 0 {
        Seq::empty()
    } else {
        let b0 = bytes[0] as int;
        if bytes.len() == 1 {
            seq![symbol(b0 / 4), symbol(b0 % 4 * 16), '=', '=']
        } else {
            let b1 = bytes[1] as int;
            if bytes.len() == 2 {
                seq![symbol(b0 / 4), symbol(b0 % 4 * 16 + b1 / 16), symbol(b1 % 16 * 4), '=']
            } else {
                let b2 = bytes[2] as int;
                seq![
                    symbol(b0 / 4),
                    symbol(b0 % 4 * 16 + b1 / 16),
                    symbol(b1 % 16 * 4 + b2 / 64),
                    symbol(b2 % 64),
                ] + base64_text(bytes.skip(3))
            }
        }
    }
}

/// The bytes that a padded text stands for. Reading stops at the first group
/// that carries padding, or where fewer than four characters are left.
pub open spec fn base64_bytes(text: Seq<char>) -> Seq<u8>
    decreases text.len(),
{
    if text.len() < 4 {
        Seq::empty()
    } else {
        let a = symbol_value(text[0]);
        let b = symbol_value(text[1]);
        let c = symbol_value(text[2]);
        let d = symbol_value(text[3]);
        if text[2] == '=' {
            seq![(a * 4 + b / 16) as u8]
        } else if text[3] == '=' {
            seq![(a * 4 + b / 16) as u8, (b % 16 * 16 + c / 4) as u8]
        } else {
            seq![(a * 4 + b / 16) as u8, (b % 16 * 16 + c / 4) as u8, (c % 4 * 64 + d) as u8]
                + base64_bytes(text.skip(4))
        }
    }
}

/// Number of characters in the padded text of `n` bytes.
pub open spec fn text_len(n: nat) -> nat {
    4 * ((n + 2) / 3)
}

/// Every symbol of the alphabet is read back as the value it stands for, and
/// none of them is the padding character.
pub proof fn lemma_symbol_value(v: int)
    requires
        0 <= v < 64,
    ensures
        symbol_value(symbol(v)) == v,
        symbol(v) != '=',
{
}

/// The padded text of `n` bytes has `text_len(n)` characters.
pub proof fn lemma_text_len(bytes: Seq<u8>)
    ensures
        base64_text(bytes).len() == text_len(bytes.len()),
    decreases bytes.len(),
{
    if bytes.len() >= 3 {
        lemma_text_len(bytes.skip(3));
    }
}

/// Rendering loses nothing: reading the padded text of a byte sequence gives
/// the byte sequence back.
pub proof fn lemma_text_round_trip(bytes: Seq<u8>)
    ensures
        base64_bytes(base64_text(bytes)) == bytes,
    decreases bytes.len(),
{
    let text = base64_text(bytes);
    if bytes.len() == 0 {
        assert(base64_bytes(text) =~= bytes);
    } else {
        let b0 = bytes[0] as int;
        lemma_symbol_value(b0 / 4);
        if bytes.len() == 1 {
            lemma_symbol_value(b0 % 4 * 16);
            assert(base64_bytes(text) =~= bytes);
        } else {
            let b1 = bytes[1] as int;
            lemma_symbol_value(b0 % 4 * 16 + b1 / 16);
            if bytes.len() == 2 {
                lemma_symbol_value(b1 % 16 * 4);
                assert(base64_bytes(text) =~= bytes);
            } else {
                let b2 = bytes[2] as int;
                lemma_symbol_value(b1 % 16 * 4 + b2 / 64);
                lemma_symbol_value(b2 % 64);
                lemma_text_round_trip(bytes.skip(3));
                assert(text.skip(4) =~= base64_text(bytes.skip(3)));
                assert(base64_bytes(text) =~= bytes);
            }
        }
    }
}

/// Whether the padded text of `n` bytes still has a length that fits in
/// `usize`.
pub open spec fn renderable(n: nat) -> bool {
    text_len(n) <= usize::MAX
}

/// Calls `base64::Engine::encode` on the `STANDARD` engine of
/// `base64::engine::general_purpose`: the standard alphabet with padding.
/// The contract restates that encoding as `base64_text`. The call panics
/// where the length of the text overflows `usize`, which `requires` excludes.
#[verifier::external_body]
fn standard_encode(bytes: &[u8]) -> (text: String)
    requires
        renderable(bytes@.len()),
    ensures
        text@ == base64_text(bytes@),
{
    base64::engine::general_purpose::STANDARD.encode(bytes)
}

/// Whether `render_text` accepts a byte sequence of length `n`.
pub fn can_render(n: usize) -> (ok: bool)
    ensures
        ok == renderable(n as nat),
{
    let groups: usize = if n % 3 == 0 {
        n / 3
    } else {
        n / 3 + 1
    };
    groups <= usize::MAX / 4
}

/// Renders bytes as radix-64 text for a text-based transport.
pub fn render_text(bytes: &[u8]) -> (text: String)
    requires
        renderable(bytes@.len()),
    ensures
        text@ == base64_text(bytes@),
        text@.len() == text_len(bytes@.len()),
        base64_bytes(text@) == bytes@,
{
    proof {
        lemma_text_len(bytes@);
        lemma_text_round_trip(bytes@);
    }
    standard_encode(bytes)
}

} // verus!
