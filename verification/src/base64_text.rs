//! Standard, padded Base64 (RFC 4648 §4) over plain values: the text an
//! encoding gives, and what a canonical decoder accepts.

use vstd::prelude::*;
use vstd::utf8::*;

verus! {

/// The code of the Base64 character for the six-bit value `v`: `A`-`Z` (65-90),
/// `a`-`z` (97-122), `0`-`9` (48-57), `+` (43), `/` (47).
pub open spec fn base64_code(v: int) -> int {
    if v < 26 {
        65 + v
    } else if v < 52 {
        71 + v
    } else if v < 62 {
        v - 4
    } else if v == 62 {
        43
    } else {
        47
    }
}

/// The standard Base64 alphabet: the character for each six-bit value.
pub open spec fn base64_alphabet() -> Seq<char> {
    Seq::new(64, |v: int| base64_code(v) as char)
}

/// The standard, padded Base64 text of `bytes`
/// (`base64::engine::general_purpose::STANDARD.encode`): each group of three bytes
/// becomes four characters of six bits each, most significant first; a final
/// group of one or two bytes is zero-filled and padded with `=` to four.
pub open spec fn base64_encoded(bytes: Seq<u8>) -> Seq<char>
    decreases bytes.len(),
{
    let a = base64_alphabet();
    if bytes.len() == 0 {
        Seq::empty()
    } else if bytes.len() == 1 {
        let b0 = bytes[0] as int;
        seq![a[b0 / 4], a[(b0 % 4) * 16], '=', '=']
    } else if bytes.len() == 2 {
        let (b0, b1) = (bytes[0] as int, bytes[1] as int);
        seq![a[b0 / 4], a[(b0 % 4) * 16 + b1 / 16], a[(b1 % 16) * 4], '=']
    } else {
        let (b0, b1, b2) = (bytes[0] as int, bytes[1] as int, bytes[2] as int);
        seq![a[b0 / 4], a[(b0 % 4) * 16 + b1 / 16], a[(b1 % 16) * 4 + b2 / 64], a[b2 % 64]]
            + base64_encoded(bytes.subrange(3, bytes.len() as int))
    }
}

/// The bytes of the Base64 text of `bytes`.
pub open spec fn base64_bytes(bytes: Seq<u8>) -> Seq<u8> {
    encode_utf8(base64_encoded(bytes))
}

/// What the standard Base64 engine (`STANDARD`: padding required and canonical,
/// no stray trailing bits) decodes from `input`: the bytes whose encoding `input`
/// is, and `None` for any input that is no such encoding.
pub open spec fn base64_decoded(input: Seq<u8>) -> Option<Seq<u8>> {
    if exists|bytes: Seq<u8>| base64_bytes(bytes) == input {
        Some(choose|bytes: Seq<u8>| base64_bytes(bytes) == input)
    } else {
        None
    }
}

/// A byte that can stand in Base64 text: a character of the alphabet, or `=`.
pub open spec fn is_base64_byte(x: u8) -> bool {
    ||| 65 <= x <= 90
    ||| 97 <= x <= 122
    ||| 48 <= x <= 57
    ||| x == 43
    ||| x == 47
    ||| x == 61
}

/// A character of Base64 text: one of the alphabet (with its six-bit value), or
/// `=`.
spec fn is_base64_char(c: char) -> bool {
    c == '=' || exists|v: int| 0 <= v < 64 && c == base64_alphabet()[v]
}

/// The alphabet's characters are distinct, and none of them is `=`.
proof fn lemma_alphabet_distinct(v: int, w: int)
    requires
        0 <= v < 64,
        0 <= w < 64,
    ensures
        base64_alphabet()[v] == base64_alphabet()[w] ==> v == w,
        base64_alphabet()[v] != '=',
        base64_alphabet()[v] as int == base64_code(v),
{
}

/// Base64 text is four characters for each started group of three bytes.
proof fn lemma_base64_length(bytes: Seq<u8>)
    ensures
        base64_encoded(bytes).len() == 4 * ((bytes.len() + 2) / 3),
    decreases bytes.len(),
{
    if bytes.len() >= 3 {
        lemma_base64_length(bytes.subrange(3, bytes.len() as int));
    }
}

/// Every character of Base64 text is an ASCII character of the alphabet, or `=`.
proof fn lemma_base64_chars(bytes: Seq<u8>)
    ensures
        forall|k: int|
            0 <= k < base64_encoded(bytes).len() ==> is_base64_char(#[trigger] base64_encoded(bytes)[k])
                && is_base64_byte(base64_encoded(bytes)[k] as u8) && (base64_encoded(bytes)[k] as int) < 128,
    decreases bytes.len(),
{
    let e = base64_encoded(bytes);
    let a = base64_alphabet();
    if bytes.len() >= 3 {
        let rest = bytes.subrange(3, bytes.len() as int);
        lemma_base64_chars(rest);
        let (b0, b1, b2) = (bytes[0] as int, bytes[1] as int, bytes[2] as int);
        let vs = seq![b0 / 4, (b0 % 4) * 16 + b1 / 16, (b1 % 16) * 4 + b2 / 64, b2 % 64];
        assert forall|k: int| 0 <= k < e.len() implies is_base64_char(#[trigger] e[k])
            && is_base64_byte(e[k] as u8) && (e[k] as int) < 128 by {
            if k < 4 {
                lemma_alphabet_distinct(vs[k], vs[k]);
                assert(e[k] == a[vs[k]]);
            } else {
                assert(e[k] == base64_encoded(rest)[k - 4]);
            }
        }
    } else if bytes.len() > 0 {
        let b0 = bytes[0] as int;
        let b1 = if bytes.len() == 2 { bytes[1] as int } else { 0 };
        let vs = seq![b0 / 4, (b0 % 4) * 16 + b1 / 16, (b1 % 16) * 4];
        assert forall|k: int| 0 <= k < e.len() implies is_base64_char(#[trigger] e[k])
            && is_base64_byte(e[k] as u8) && (e[k] as int) < 128 by {
            if k < 2 || (k == 2 && bytes.len() == 2) {
                lemma_alphabet_distinct(vs[k], vs[k]);
                assert(e[k] == a[vs[k]]);
            }
        }
    }
}

/// The six-bit values of the first group of `bytes`, with missing bytes taken
/// as zero.
spec fn first_group_values(bytes: Seq<u8>) -> Seq<int> {
    let b0 = bytes[0] as int;
    let b1 = if bytes.len() >= 2 { bytes[1] as int } else { 0 };
    let b2 = if bytes.len() >= 3 { bytes[2] as int } else { 0 };
    seq![b0 / 4, (b0 % 4) * 16 + b1 / 16, (b1 % 16) * 4 + b2 / 64, b2 % 64]
}

/// The first four characters of Base64 text: the first group's values, with `=`
/// where the group ends early.
proof fn lemma_first_group(bytes: Seq<u8>)
    requires
        bytes.len() > 0,
    ensures
        base64_encoded(bytes).len() >= 4,
        forall|k: int| 0 <= k < 4 ==> 0 <= #[trigger] first_group_values(bytes)[k] < 64,
        base64_encoded(bytes)[0] == base64_alphabet()[first_group_values(bytes)[0]],
        base64_encoded(bytes)[1] == base64_alphabet()[first_group_values(bytes)[1]],
        base64_encoded(bytes)[2] == if bytes.len() >= 2 {
            base64_alphabet()[first_group_values(bytes)[2]]
        } else {
            '='
        },
        base64_encoded(bytes)[3] == if bytes.len() >= 3 {
            base64_alphabet()[first_group_values(bytes)[3]]
        } else {
            '='
        },
{
    lemma_base64_length(bytes);
}

/// The six-bit values of a group give back its three bytes.
proof fn lemma_group_values_determine(x0: int, x1: int, x2: int, y0: int, y1: int, y2: int)
    requires
        0 <= x0 < 256,
        0 <= x1 < 256,
        0 <= x2 < 256,
        0 <= y0 < 256,
        0 <= y1 < 256,
        0 <= y2 < 256,
        x0 / 4 == y0 / 4,
        (x0 % 4) * 16 + x1 / 16 == (y0 % 4) * 16 + y1 / 16,
        (x1 % 16) * 4 + x2 / 64 == (y1 % 16) * 4 + y2 / 64,
        x2 % 64 == y2 % 64,
    ensures
        x0 == y0,
        x1 == y1,
        x2 == y2,
{
}

/// Base64 text names the bytes it encodes: distinct byte strings have distinct
/// encodings.
pub proof fn lemma_base64_injective(a: Seq<u8>, b: Seq<u8>)
    requires
        base64_encoded(a) == base64_encoded(b),
    ensures
        a == b,
    decreases a.len(),
{
    let e = base64_encoded(a);
    lemma_base64_length(a);
    lemma_base64_length(b);
    if a.len() == 0 || b.len() == 0 {
        assert(a =~= b);
        return;
    }
    lemma_first_group(a);
    lemma_first_group(b);
    let va = first_group_values(a);
    let vb = first_group_values(b);
    // The padding shows how long the first group is: no character of the
    // alphabet is `=`.
    lemma_alphabet_distinct(va[2], vb[2]);
    lemma_alphabet_distinct(va[3], vb[3]);
    assert((a.len() >= 2) == (b.len() >= 2));
    assert((a.len() >= 3) == (b.len() >= 3));
    // Equal characters carry equal values; equal values carry equal bytes.
    lemma_alphabet_distinct(va[0], vb[0]);
    lemma_alphabet_distinct(va[1], vb[1]);
    assert(va[0] == vb[0] && va[1] == vb[1] && va[2] == vb[2] && va[3] == vb[3]);
    let a1 = if a.len() >= 2 { a[1] as int } else { 0 };
    let a2 = if a.len() >= 3 { a[2] as int } else { 0 };
    let b1 = if b.len() >= 2 { b[1] as int } else { 0 };
    let b2 = if b.len() >= 3 { b[2] as int } else { 0 };
    lemma_group_values_determine(a[0] as int, a1, a2, b[0] as int, b1, b2);
    if a.len() >= 3 {
        let ra = a.subrange(3, a.len() as int);
        let rb = b.subrange(3, b.len() as int);
        assert(base64_encoded(ra) =~= e.subrange(4, e.len() as int));
        assert(base64_encoded(rb) =~= e.subrange(4, e.len() as int));
        lemma_base64_injective(ra, rb);
        assert forall|k: int| 0 <= k < a.len() implies a[k] == b[k] by {
            if k >= 3 {
                assert(a[k] == ra[k - 3]);
                assert(b[k] == rb[k - 3]);
            }
        }
    }
    assert(a =~= b);
}

/// A standard encoder's output decodes back to exactly the bytes encoded.
pub proof fn lemma_base64_round_trip(bytes: Seq<u8>)
    ensures
        base64_decoded(base64_bytes(bytes)) == Some(bytes),
{
    let input = base64_bytes(bytes);
    assert(exists|b: Seq<u8>| base64_bytes(b) == input);
    let c = choose|b: Seq<u8>| base64_bytes(b) == input;
    encode_utf8_decode_utf8(base64_encoded(c));
    encode_utf8_decode_utf8(base64_encoded(bytes));
    lemma_base64_injective(c, bytes);
}

/// Input holding a byte that is neither a character of the alphabet nor `=` is
/// not Base64: the decoder refuses it.
pub proof fn lemma_base64_rejects_foreign_byte(input: Seq<u8>, i: int)
    requires
        0 <= i < input.len(),
        !is_base64_byte(input[i]),
    ensures
        base64_decoded(input) is None,
{
    if exists|b: Seq<u8>| base64_bytes(b) == input {
        let b = choose|b: Seq<u8>| base64_bytes(b) == input;
        let e = base64_encoded(b);
        lemma_base64_chars(b);
        assert(is_ascii_chars(e)) by {
            assert forall|k: int| 0 <= k < e.len() implies '\0' <= #[trigger] e[k] <= '\u{7f}' by {
                assert((e[k] as int) < 128);
            }
        }
        is_ascii_chars_encode_utf8(e);
        assert(input[i] == e[i] as u8);
        assert(is_base64_byte(e[i] as u8));
        assert(false);
    }
}

} // verus!
