//! Percent-encoding of a text as the value of a URL query parameter: the UTF-8
//! bytes of the text, each unreserved byte (`A`-`Z`, `a`-`z`, `0`-`9`, `-`,
//! `.`, `_`, `~`) kept and every other byte written as `%` and two upper-case
//! hexadecimal digits. The result holds no `&`, `#`, `+`, `=` or whitespace, so
//! it ends neither the parameter nor the query, and decoding gives the text back.
use vstd::prelude::*;
use vstd::utf8::{decode_utf8, encode_utf8, valid_utf8};
use vstd::string::StringSliceAdditionalSpecFns;
use crate::tts::str_from_utf8;

verus! {

/// Bytes kept as they are in a query value.
pub open spec fn is_unreserved(b: u8) -> bool {
    ||| 65 <= b <= 90
    ||| 97 <= b <= 122
    ||| 48 <= b <= 57
    ||| b == 45 || b == 46 || b == 95 || b == 126
}

/// The upper-case hexadecimal digit of a value below 16.
pub open spec fn hex_digit(n: u8) -> u8 {
    if n < 10 {
        (48 + n) as u8
    } else {
        (55 + n) as u8
    }
}

/// Whether a byte is a hexadecimal digit (either case).
pub open spec fn is_hex(d: u8) -> bool {
    ||| 48 <= d <= 57
    ||| 65 <= d <= 70
    ||| 97 <= d <= 102
}

/// The value of a hexadecimal digit.
pub open spec fn hex_value(d: u8) -> int {
    if 48 <= d <= 57 {
        d - 48
    } else if 65 <= d <= 70 {
        d - 55
    } else {
        d - 87
    }
}

/// The encoding of one byte.
pub open spec fn encode_byte(b: u8) -> Seq<u8> {
    if is_unreserved(b) {
        seq![b]
    } else {
        seq![37u8, hex_digit(b / 16), hex_digit(b % 16)]
    }
}

/// The percent-encoding of a byte string.
pub open spec fn percent_encode(bytes: Seq<u8>) -> Seq<u8>
    decreases bytes.len(),
{
    if bytes.len() == 0 {
        Seq::empty()
    } else {
        encode_byte(bytes[0]) + percent_encode(bytes.drop_first())
    }
}

/// Percent-decoding: `%` and two hexadecimal digits give the byte they write;
/// every other byte stands for itself.
pub open spec fn percent_decode(bytes: Seq<u8>) -> Seq<u8>
    decreases bytes.len(),
{
    if bytes.len() == 0 {
        Seq::empty()
    } else if bytes.len() >= 3 && bytes[0] == 37u8 && is_hex(bytes[1]) && is_hex(bytes[2]) {
        seq![(hex_value(bytes[1]) * 16 + hex_value(bytes[2])) as u8] + percent_decode(
            bytes.subrange(3, bytes.len() as int),
        )
    } else {
        seq![bytes[0]] + percent_decode(bytes.drop_first())
    }
}

/// The query value that encodes a text, as characters.
pub open spec fn query_value(text: Seq<char>) -> Seq<char> {
    decode_utf8(percent_encode(encode_utf8(text)))
}

/// Every byte of an encoding is unreserved or `%`.
pub open spec fn only_query_safe(bytes: Seq<u8>) -> bool {
    forall|i: int| 0 <= i < bytes.len() ==> is_unreserved(#[trigger] bytes[i]) || bytes[i] == 37u8
}

/// Encoding works byte by byte: the encoding of two byte strings one after the
/// other is their encodings one after the other.
pub proof fn lemma_encode_concat(a: Seq<u8>, b: Seq<u8>)
    ensures
        percent_encode(a + b) == percent_encode(a) + percent_encode(b),
    decreases a.len(),
{
    if a.len() == 0 {
        assert(a + b =~= b);
        assert(percent_encode(a) + percent_encode(b) =~= percent_encode(b));
    } else {
        assert((a + b).drop_first() =~= a.drop_first() + b);
        lemma_encode_concat(a.drop_first(), b);
        assert(encode_byte(a[0]) + percent_encode(a.drop_first()) + percent_encode(b)
            =~= encode_byte(a[0]) + (percent_encode(a.drop_first()) + percent_encode(b)));
    }
}

/// The encoding of one byte, spelt out: letters, digits, `-`, `.`, `_` and `~`
/// stand for themselves; any other byte becomes `%` followed by the upper-case
/// hexadecimal digits of its high and low halves.
pub proof fn lemma_byte_encoding(b: u8)
    ensures
        percent_encode(seq![b]) == if (65 <= b <= 90) || (97 <= b <= 122) || (48 <= b <= 57) || b
            == 45 || b == 46 || b == 95 || b == 126 {
            seq![b]
        } else {
            let hi = b / 16;
            let lo = b % 16;
            seq![
                37u8,
                (if hi < 10 { 48 + hi } else { 55 + hi }) as u8,
                (if lo < 10 { 48 + lo } else { 55 + lo }) as u8,
            ]
        },
{
    assert(seq![b].drop_first() =~= Seq::<u8>::empty());
    assert(percent_encode(Seq::<u8>::empty()) =~= Seq::<u8>::empty());
    assert(encode_byte(b) + Seq::<u8>::empty() =~= encode_byte(b));
    assert(percent_encode(seq![b]) == encode_byte(b));
}

/// Percent-decoding reads `%` and two hexadecimal digits (either case) as the
/// byte they write, high half first.
pub proof fn lemma_escape_decoding(h: u8, l: u8, rest: Seq<u8>)
    requires
        (48 <= h <= 57) || (65 <= h <= 70) || (97 <= h <= 102),
        (48 <= l <= 57) || (65 <= l <= 70) || (97 <= l <= 102),
    ensures
        ({
            let hv = if h <= 57 { h - 48 } else if h <= 70 { h - 55 } else { h - 87 };
            let lv = if l <= 57 { l - 48 } else if l <= 70 { l - 55 } else { l - 87 };
            percent_decode(seq![37u8, h, l] + rest) == seq![(hv * 16 + lv) as u8] + percent_decode(rest)
        }),
{
    let s = seq![37u8, h, l] + rest;
    assert(s.subrange(3, s.len() as int) =~= rest);
}

proof fn lemma_encode_safe(bytes: Seq<u8>)
    ensures
        only_query_safe(percent_encode(bytes)),
    decreases bytes.len(),
{
    if bytes.len() > 0 {
        lemma_encode_safe(bytes.drop_first());
        let head = encode_byte(bytes[0]);
        let tail = percent_encode(bytes.drop_first());
        assert forall|i: int| 0 <= i < (head + tail).len() implies is_unreserved(
            #[trigger] (head + tail)[i],
        ) || (head + tail)[i] == 37u8 by {
            if i >= head.len() {
                assert((head + tail)[i] == tail[i - head.len()]);
            }
        }
    }
}

proof fn lemma_safe_is_ascii_utf8(bytes: Seq<u8>)
    requires
        only_query_safe(bytes),
    ensures
        valid_utf8(bytes),
    decreases bytes.len(),
{
    if bytes.len() > 0 {
        let b = bytes[0];
        assert(b < 128);
        assert(b & 0x7f == b) by (bit_vector)
            requires
                b < 128,
        ;
        assert(bytes.subrange(1, bytes.len() as int) =~= bytes.drop_first());
        lemma_safe_is_ascii_utf8(bytes.drop_first());
    }
}

proof fn lemma_decode_encode(bytes: Seq<u8>)
    ensures
        percent_decode(percent_encode(bytes)) == bytes,
    decreases bytes.len(),
{
    if bytes.len() > 0 {
        let b = bytes[0];
        let rest = percent_encode(bytes.drop_first());
        lemma_decode_encode(bytes.drop_first());
        let e = encode_byte(b) + rest;
        if is_unreserved(b) {
            assert(e[0] == b);
            assert(e.drop_first() =~= rest);
        } else {
            let hi = b / 16;
            let lo = b % 16;
            assert(e[1] == hex_digit(hi));
            assert(e[2] == hex_digit(lo));
            assert(hex_value(hex_digit(hi)) == hi);
            assert(hex_value(hex_digit(lo)) == lo);
            assert(hi * 16 + lo == b);
            assert(e.subrange(3, e.len() as int) =~= rest);
        }
        assert(seq![b] + bytes.drop_first() =~= bytes);
    }
}

/// A text encoded as a query value is safe to put after `text=` at the end of a
/// query (its bytes are unreserved or `%`), and percent-decoding its bytes then
/// reading them as UTF-8 gives the text back.
pub proof fn lemma_query_value_round_trip(text: Seq<char>)
    ensures
        only_query_safe(encode_utf8(query_value(text))),
        forall|i: int|
            0 <= i < encode_utf8(query_value(text)).len() ==> {
                let b = #[trigger] encode_utf8(query_value(text))[i];
                &&& b < 128
                &&& b != 38u8 && b != 35u8 && b != 43u8 && b != 61u8 && b != 63u8
                &&& b != 32u8 && b != 9u8 && b != 10u8 && b != 13u8
            },
        valid_utf8(percent_decode(encode_utf8(query_value(text)))),
        decode_utf8(percent_decode(encode_utf8(query_value(text)))) == text,
{
    let pe = percent_encode(encode_utf8(text));
    lemma_encode_safe(encode_utf8(text));
    lemma_safe_is_ascii_utf8(pe);
    vstd::utf8::decode_utf8_encode_utf8(pe);
    lemma_decode_encode(encode_utf8(text));
    vstd::utf8::encode_utf8_valid_utf8(text);
    vstd::utf8::encode_utf8_decode_utf8(text);
}

/// Encodes a text as a query value.
pub fn encode_query_value(text: &str) -> (value: String)
    ensures
        value@ == query_value(text@),
{
    let bytes = text.as_bytes();
    let n: usize = bytes.len();
    let mut out: Vec<u8> = Vec::new();
    for i in 0..n
        invariant
            n == bytes@.len(),
            out@ == percent_encode(bytes@.take(i as int)),
    {
        let b: u8 = bytes[i];
        proof {
            assert(bytes@.take(i + 1) =~= bytes@.take(i as int) + seq![b]);
            lemma_encode_concat(bytes@.take(i as int), seq![b]);
            assert(seq![b].drop_first() =~= Seq::<u8>::empty());
            assert(percent_encode(Seq::<u8>::empty()) =~= Seq::<u8>::empty());
            assert(encode_byte(b) + Seq::<u8>::empty() =~= encode_byte(b));
            assert(percent_encode(seq![b]) =~= encode_byte(b));
        }
        if (65 <= b && b <= 90) || (97 <= b && b <= 122) || (48 <= b && b <= 57) || b == 45 || b
            == 46 || b == 95 || b == 126 {
            out.push(b);
        } else {
            out.push(37u8);
            out.push(hex_digit_of(b / 16));
            out.push(hex_digit_of(b % 16));
        }
        proof {
            assert(out@ =~= percent_encode(bytes@.take(i as int)) + encode_byte(b));
        }
    }
    proof {
        assert(bytes@.take(n as int) =~= bytes@);
        lemma_encode_safe(bytes@);
        lemma_safe_is_ascii_utf8(out@);
    }
    let value = match str_from_utf8(out.as_slice()) {
        Ok(s) => s.to_owned(),
        Err(_) => String::new(),
    };
    proof {
        vstd::utf8::encode_utf8_decode_utf8(value@);
    }
    value
}

fn hex_digit_of(n: u8) -> (d: u8)
    requires
        n < 16,
    ensures
        d == hex_digit(n),
{
    if n < 10 {
        48 + n
    } else {
        55 + n
    }
}

} // verus!
