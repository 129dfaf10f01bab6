//! Percent-encoding of query components.
//!
//! Every byte of the UTF-8 form of the input is kept when it is an
//! unreserved URL character (`A-Z a-z 0-9 - _ . ~`) and written as `%XX`
//! with upper-case hexadecimal digits otherwise.
use vstd::prelude::*;
use crate::text::push_char;
use vstd::string::StringSliceAdditionalSpecFns;
use vstd::utf8::{encode_utf8, encode_utf8_decode_utf8, encode_scalar, has_width_1_encoding};

verus! {

/// Bytes that stand for themselves in an encoded component.
pub open spec fn is_unreserved(b: u8) -> bool {
    ||| (65 <= b && b <= 90)
    ||| (97 <= b && b <= 122)
    ||| (48 <= b && b <= 57)
    ||| b == 45
    ||| b == 95
    ||| b == 46
    ||| b == 126
}

/// The upper-case hexadecimal digit for `n < 16`.
pub open spec fn hex_upper(n: u8) -> char
    recommends
        n < 16,
{
    if n < 10 {
        ((48 + n) as u8) as char
    } else {
        ((55 + n) as u8) as char
    }
}

/// The characters that encode one byte.
pub open spec fn encode_byte(b: u8) -> Seq<char> {
    if is_unreserved(b) {
        seq![b as char]
    } else {
        seq!['%', hex_upper(b / 16), hex_upper(b % 16)]
    }
}

/// The percent-encoding of a byte sequence, byte by byte from the front.
pub open spec fn percent_encode(bytes: Seq<u8>) -> Seq<char>
    decreases bytes.len(),
{
    if bytes.len() == 0 {
        seq![]
    } else {
        encode_byte(bytes[0]) + percent_encode(bytes.drop_first())
    }
}

/// Characters that may appear in an encoded component.
pub open spec fn is_url_safe_char(c: char) -> bool {
    c == '%' || ((c as u32) < 128 && is_unreserved(c as u8))
}

pub open spec fn is_hex_upper(c: char) -> bool {
    ('0' <= c && c <= '9') || ('A' <= c && c <= 'F')
}

pub open spec fn hex_value(c: char) -> int {
    if '0' <= c && c <= '9' {
        (c as int) - 48
    } else {
        (c as int) - 55
    }
}

/// Strict percent-decoding: `%XX` with upper-case hex digits gives one byte,
/// an unreserved character gives its own byte, anything else is rejected.
pub open spec fn percent_decode(cs: Seq<char>) -> Option<Seq<u8>>
    decreases cs.len(),
{
    if cs.len() == 0 {
        Some(seq![])
    } else if cs[0] == '%' {
        if cs.len() >= 3 && is_hex_upper(cs[1]) && is_hex_upper(cs[2]) {
            match percent_decode(cs.skip(3)) {
                Some(rest) => Some(seq![(hex_value(cs[1]) * 16 + hex_value(cs[2])) as u8] + rest),
                None => None,
            }
        } else {
            None
        }
    } else if (cs[0] as u32) < 128 && is_unreserved(cs[0] as u8) {
        match percent_decode(cs.skip(1)) {
            Some(rest) => Some(seq![cs[0] as u8] + rest),
            None => None,
        }
    } else {
        None
    }
}

/// Encoding is done byte by byte: the encoding of two byte sequences one
/// after the other is the two encodings one after the other.
pub proof fn lemma_percent_encode_append(a: Seq<u8>, b: Seq<u8>)
    ensures
        percent_encode(a + b) == percent_encode(a) + percent_encode(b),
    decreases a.len(),
{
    if a.len() == 0 {
        assert(a + b =~= b);
        assert(percent_encode(a) + percent_encode(b) =~= percent_encode(b));
    } else {
        assert((a + b).drop_first() =~= a.drop_first() + b);
        lemma_percent_encode_append(a.drop_first(), b);
        assert(percent_encode(a + b) =~= percent_encode(a) + percent_encode(b));
    }
}

fn hex_upper_char(n: u8) -> (c: char)
    requires
        n < 16,
    ensures
        c == hex_upper(n),
{
    if n < 10 {
        (48u8 + n) as char
    } else {
        (55u8 + n) as char
    }
}

/// The encoding of a text: the percent-encoding of its UTF-8 bytes.
pub open spec fn encode_component(cs: Seq<char>) -> Seq<char> {
    percent_encode(encode_utf8(cs))
}

/// Percent-encodes the UTF-8 bytes of `s`.
pub fn urlencoding(s: &str) -> (encoded: String)
    ensures
        encoded@ == percent_encode(s.spec_bytes()),
        encoded@ == encode_component(s@),
{
    let bytes = s.as_bytes();
    let mut encoded = String::new();
    let mut i: usize = 0;
    while i < bytes.len()
        invariant
            i <= bytes@.len(),
            bytes@ == s.spec_bytes(),
            encoded@ == percent_encode(bytes@.take(i as int)),
        decreases bytes@.len() - i,
    {
        let byte: u8 = bytes[i];
        proof {
            assert(bytes@.take(i + 1) =~= bytes@.take(i as int) + seq![byte]);
            lemma_percent_encode_append(bytes@.take(i as int), seq![byte]);
            assert(percent_encode(seq![byte]) =~= encode_byte(byte)) by {
                assert(seq![byte].drop_first() =~= Seq::<u8>::empty());
                assert(percent_encode(Seq::<u8>::empty()) =~= Seq::<char>::empty());
                assert(seq![byte][0] == byte);
                assert(encode_byte(byte) + Seq::<char>::empty() =~= encode_byte(byte));
            }
        }
        if (65 <= byte && byte <= 90) || (97 <= byte && byte <= 122) || (48 <= byte && byte <= 57)
            || byte == 45 || byte == 95 || byte == 46 || byte == 126 {
            push_char(&mut encoded, byte as char);
        } else {
            push_char(&mut encoded, '%');
            push_char(&mut encoded, hex_upper_char(byte / 16));
            push_char(&mut encoded, hex_upper_char(byte % 16));
        }
        assert(encoded@ =~= percent_encode(bytes@.take(i as int)) + encode_byte(byte));
        i = i + 1;
    }
    assert(bytes@.take(i as int) =~= bytes@);
    encoded
}

/// Decoding an encoded component gives back exactly the bytes that were
/// encoded: the encoding loses nothing and two different inputs never
/// share an encoding.
pub proof fn lemma_decode_encode(bytes: Seq<u8>)
    ensures
        percent_decode(percent_encode(bytes)) == Some(bytes),
    decreases bytes.len(),
{
    if bytes.len() == 0 {
    } else {
        let b = bytes[0];
        let rest = bytes.drop_first();
        let e = percent_encode(bytes);
        lemma_decode_encode(rest);
        if is_unreserved(b) {
            assert(e[0] == b as char);
            assert(e.skip(1) =~= percent_encode(rest));
            assert(seq![b] + rest =~= bytes);
        } else {
            assert(e[0] == '%');
            assert(e[1] == hex_upper(b / 16));
            assert(e[2] == hex_upper(b % 16));
            assert(e.skip(3) =~= percent_encode(rest));
            assert(hex_value(e[1]) * 16 + hex_value(e[2]) == b);
            assert(seq![b] + rest =~= bytes);
        }
    }
}

/// Every character of an encoded component is `%` or an unreserved ASCII
/// character; in particular it never holds `&`, `=`, `?`, `/` or a space,
/// so encoded components can be joined into a query without ambiguity.
pub proof fn lemma_encode_url_safe(bytes: Seq<u8>)
    ensures
        forall|i: int| 0 <= i < percent_encode(bytes).len() ==> is_url_safe_char(
            #[trigger] percent_encode(bytes)[i],
        ),
    decreases bytes.len(),
{
    if bytes.len() > 0 {
        lemma_encode_url_safe(bytes.drop_first());
        let b = bytes[0];
        let e = percent_encode(bytes);
        let head = encode_byte(b);
        assert forall|i: int| 0 <= i < e.len() implies is_url_safe_char(#[trigger] e[i]) by {
            if i < head.len() {
                assert(e[i] == head[i]);
            } else {
                assert(e[i] == percent_encode(bytes.drop_first())[i - head.len()]);
            }
        }
    }
}

/// A component made only of unreserved bytes is left as it is.
pub proof fn lemma_encode_unreserved_identity(bytes: Seq<u8>)
    requires
        forall|i: int| 0 <= i < bytes.len() ==> is_unreserved(#[trigger] bytes[i]),
    ensures
        percent_encode(bytes) == bytes.map_values(|b: u8| b as char),
    decreases bytes.len(),
{
    if bytes.len() == 0 {
        assert(bytes.map_values(|b: u8| b as char) =~= Seq::<char>::empty());
    } else {
        let rest = bytes.drop_first();
        assert forall|i: int| 0 <= i < rest.len() implies is_unreserved(#[trigger] rest[i]) by {
            assert(rest[i] == bytes[i + 1]);
        }
        lemma_encode_unreserved_identity(rest);
        assert(percent_encode(bytes) =~= bytes.map_values(|b: u8| b as char));
    }
}

/// Two byte sequences with the same encoding are equal.
pub proof fn lemma_percent_encode_injective(a: Seq<u8>, b: Seq<u8>)
    requires
        percent_encode(a) == percent_encode(b),
    ensures
        a == b,
{
    lemma_decode_encode(a);
    lemma_decode_encode(b);
}

/// Two texts with the same encoding are equal.
pub proof fn lemma_encode_component_injective(x: Seq<char>, y: Seq<char>)
    requires
        encode_component(x) == encode_component(y),
    ensures
        x == y,
{
    lemma_percent_encode_injective(encode_utf8(x), encode_utf8(y));
    encode_utf8_decode_utf8(x);
    encode_utf8_decode_utf8(y);
}

pub open spec fn all_unreserved(bytes: Seq<u8>) -> bool {
    forall|i: int| 0 <= i < bytes.len() ==> is_unreserved(#[trigger] bytes[i])
}

/// An unreserved byte takes one character and any other three, so an
/// encoding is never shorter than its input, and is as long exactly when
/// every byte is unreserved.
pub proof fn lemma_encode_len(bytes: Seq<u8>)
    ensures
        percent_encode(bytes).len() >= bytes.len(),
        percent_encode(bytes).len() == bytes.len() <==> all_unreserved(bytes),
    decreases bytes.len(),
{
    if bytes.len() > 0 {
        let rest = bytes.drop_first();
        lemma_encode_len(rest);
        assert(all_unreserved(bytes) <==> (is_unreserved(bytes[0]) && all_unreserved(rest))) by {
            if all_unreserved(bytes) {
                assert forall|j: int| 0 <= j < rest.len() implies is_unreserved(#[trigger] rest[j]) by {
                    assert(rest[j] == bytes[j + 1]);
                }
            }
            if is_unreserved(bytes[0]) && all_unreserved(rest) {
                assert forall|i: int| 0 <= i < bytes.len() implies is_unreserved(#[trigger] bytes[i]) by {
                    if i > 0 {
                        assert(bytes[i] == rest[i - 1]);
                    }
                }
            }
        }
    }
}

/// The encoding leaves a byte sequence unchanged (each byte read as the
/// character of the same code) exactly when every byte is unreserved.
pub proof fn lemma_encode_identity_iff(bytes: Seq<u8>)
    ensures
        percent_encode(bytes) == bytes.map_values(|b: u8| b as char) <==> all_unreserved(bytes),
{
    lemma_encode_len(bytes);
    if all_unreserved(bytes) {
        lemma_encode_unreserved_identity(bytes);
    } else {
        assert(bytes.map_values(|b: u8| b as char).len() == bytes.len());
    }
}

proof fn lemma_byte_bits(v: u32, y: u8)
    by (bit_vector)
    ensures
        v <= 0x7F ==> ((v & 0x7F) as u8) as u32 == v,
        (0xC0u8 | y) >= 0xC0u8,
        (0xE0u8 | y) >= 0xC0u8,
        (0xF0u8 | y) >= 0xC0u8,
{
}

/// The UTF-8 form of a character takes at least one byte, and when its
/// first byte is unreserved it is that one byte, the character's own code.
proof fn lemma_scalar_unreserved(c: char)
    ensures
        encode_scalar(c as u32).len() >= 1,
        is_unreserved(encode_scalar(c as u32)[0]) ==> encode_scalar(c as u32) =~= seq![c as u32 as u8]
            && (c as u32) < 128 && ((c as u32 as u8) as char) == c,
{
    let v = c as u32;
    lemma_byte_bits(v, ((v >> 6) & 0x1F) as u8);
    lemma_byte_bits(v, ((v >> 12) & 0x0F) as u8);
    lemma_byte_bits(v, ((v >> 18) & 0x7) as u8);
    if has_width_1_encoding(v) {
        assert((v as u8) as u32 == v);
    }
}

/// A text's UTF-8 form has at least one byte per character; when all its
/// bytes are unreserved, it is the text's own character codes.
proof fn lemma_utf8_unreserved(cs: Seq<char>)
    ensures
        encode_utf8(cs).len() >= cs.len(),
        all_unreserved(encode_utf8(cs)) ==> encode_utf8(cs).map_values(|b: u8| b as char) == cs,
    decreases cs.len(),
{
    if cs.len() > 0 {
        let rest = cs.drop_first();
        let head = encode_scalar(cs[0] as u32);
        let bytes = encode_utf8(cs);
        lemma_scalar_unreserved(cs[0]);
        lemma_utf8_unreserved(rest);
        assert(bytes == head + encode_utf8(rest));
        if all_unreserved(bytes) {
            assert(is_unreserved(bytes[0]));
            assert forall|j: int| 0 <= j < encode_utf8(rest).len() implies is_unreserved(#[trigger] encode_utf8(rest)[j]) by {
                assert(encode_utf8(rest)[j] == bytes[j + 1]);
            }
            let tail = encode_utf8(rest);
            assert(tail.map_values(|b: u8| b as char) == rest);
            assert(tail.map_values(|b: u8| b as char).len() == tail.len());
            assert(head =~= seq![cs[0] as u32 as u8]);
            assert(bytes.len() == cs.len());
            let chars = bytes.map_values(|b: u8| b as char);
            assert forall|i: int| 0 <= i < cs.len() implies #[trigger] chars[i] == cs[i] by {
                if i == 0 {
                    assert(bytes[0] == cs[0] as u32 as u8);
                } else {
                    assert(bytes[i] == tail[i - 1]);
                    assert(tail.map_values(|b: u8| b as char)[i - 1] == rest[i - 1]);
                }
            }
            assert(chars =~= cs);
        }
    }
}

/// The encoding leaves a text unchanged exactly when every byte of its
/// UTF-8 form is unreserved.
pub proof fn lemma_encode_component_identity_iff(cs: Seq<char>)
    ensures
        encode_component(cs) == cs <==> all_unreserved(encode_utf8(cs)),
{
    let bytes = encode_utf8(cs);
    lemma_utf8_unreserved(cs);
    lemma_encode_len(bytes);
    lemma_encode_identity_iff(bytes);
}

} // verus!
