//! Form-style percent-encoding and the address of the focus warning page.

use vstd::prelude::*;
use vstd::utf8::{encode_scalar, encode_utf8};
use crate::text::{push_char, push_str};

verus! {

/// Bytes that stay as they are: ASCII letters, digits and `-`, `_`, `.`, `~`.
pub open spec fn is_unreserved(b: u8) -> bool {
    (65 <= b <= 90) || (97 <= b <= 122) || (48 <= b <= 57) || b == 45 || b == 95 || b == 46
        || b == 126
}

/// Upper-case hexadecimal digit of `v < 16`.
pub open spec fn hex_digit(v: nat) -> char {
    if v < 10 {
        (48 + v) as char
    } else {
        (55 + v) as char
    }
}

/// The encoding of one byte: itself when unreserved, `+` for a space, and
/// `%` followed by two upper-case hex digits otherwise.
pub open spec fn byte_text(b: u8) -> Seq<char> {
    if is_unreserved(b) {
        seq![b as char]
    } else if b == 32 {
        seq!['+']
    } else {
        seq!['%', hex_digit((b / 16) as nat), hex_digit((b % 16) as nat)]
    }
}

/// The encoding of a byte sequence, byte by byte.
pub open spec fn encode_bytes(bytes: Seq<u8>) -> Seq<char>
    decreases bytes.len(),
{
    if bytes.len() == 0 {
        Seq::empty()
    } else {
        encode_bytes(bytes.drop_last()) + byte_text(bytes.last())
    }
}

fn hex_char(v: u8) -> (c: char)
    requires
        v < 16,
    ensures
        c == hex_digit(v as nat),
{
    if v < 10 {
        (v + 48) as char
    } else {
        (v + 55) as char
    }
}

/// Percent-encodes the UTF-8 bytes of `input` for a URL query.
pub fn url_encode(input: &str) -> (encoded: String)
    ensures
        encoded@ == encode_bytes(encode_utf8(input@)),
{
    let bytes = input.as_bytes();
    let mut encoded = String::new();
    let mut i: usize = 0;
    assert(bytes@.take(0) =~= Seq::<u8>::empty());
    while i < bytes.len()
        invariant
            i <= bytes@.len(),
            encoded@ == encode_bytes(bytes@.take(i as int)),
        decreases bytes@.len() - i,
    {
        let b = bytes[i];
        assert(bytes@.take(i + 1).drop_last() =~= bytes@.take(i as int));
        if (65 <= b && b <= 90) || (97 <= b && b <= 122) || (48 <= b && b <= 57) || b == 45
            || b == 95 || b == 46 || b == 126 {
            push_char(&mut encoded, b as char);
        } else if b == 32 {
            push_char(&mut encoded, '+');
        } else {
            push_char(&mut encoded, '%');
            push_char(&mut encoded, hex_char(b / 16));
            push_char(&mut encoded, hex_char(b % 16));
        }
        assert(encoded@ =~= encode_bytes(bytes@.take(i + 1)));
        i += 1;
    }
    assert(bytes@.take(bytes@.len() as int) =~= bytes@);
    encoded
}

/// The page that warns about an unproductive window, naming the
/// application and the site (with defaults when unknown), both encoded.
pub open spec fn focus_warning_address(app_name: Option<Seq<char>>, domain: Option<Seq<char>>) -> Seq<char> {
    let app = match app_name {
        Some(a) => a,
        None => "인터넷 브라우저"@,
    };
    let site = match domain {
        Some(d) => d,
        None => "비생산적 사이트"@,
    };
    "index.html#focus_warning?app="@ + encode_bytes(encode_utf8(app)) + "&domain="@
        + encode_bytes(encode_utf8(site))
}

/// The address of the focus warning page for an application and a site.
pub fn focus_warning_url(app_name: Option<&str>, domain: Option<&str>) -> (url: String)
    ensures
        url@ == focus_warning_address(
            match app_name {
                Some(a) => Some(a@),
                None => None,
            },
            match domain {
                Some(d) => Some(d@),
                None => None,
            },
        ),
{
    let app_encoded = match app_name {
        Some(a) => url_encode(a),
        None => url_encode("인터넷 브라우저"),
    };
    let domain_encoded = match domain {
        Some(d) => url_encode(d),
        None => url_encode("비생산적 사이트"),
    };
    let mut url = String::new();
    push_str(&mut url, "index.html#focus_warning?app=");
    push_str(&mut url, app_encoded.as_str());
    push_str(&mut url, "&domain=");
    push_str(&mut url, domain_encoded.as_str());
    url
}

/// Characters that can appear in an encoding: unreserved ones, `+`, `%`
/// and (as part of the unreserved ones) upper-case hex digits.
pub open spec fn url_safe(c: char) -> bool {
    let v = c as u32;
    v < 128 && (is_unreserved(v as u8) || v == 43 || v == 37)
}

/// Characters left unchanged by the encoding.
pub open spec fn unreserved_char(c: char) -> bool {
    (c as u32) < 128 && is_unreserved((c as u32) as u8)
}

/// Encoding a concatenation encodes the parts one after the other.
pub proof fn lemma_encode_bytes_concat(a: Seq<u8>, b: Seq<u8>)
    ensures
        encode_bytes(a + b) == encode_bytes(a) + encode_bytes(b),
    decreases b.len(),
{
    if b.len() == 0 {
        assert(a + b =~= a);
        assert(encode_bytes(a) + encode_bytes(b) =~= encode_bytes(a));
    } else {
        assert((a + b).drop_last() =~= a + b.drop_last());
        assert((a + b).last() == b.last());
        lemma_encode_bytes_concat(a, b.drop_last());
        assert(encode_bytes(a + b) =~= encode_bytes(a) + encode_bytes(b));
    }
}

proof fn lemma_encode_utf8_concat(a: Seq<char>, b: Seq<char>)
    ensures
        encode_utf8(a + b) == encode_utf8(a) + encode_utf8(b),
    decreases a.len(),
{
    if a.len() == 0 {
        assert(a + b =~= b);
        assert(encode_utf8(a) + encode_utf8(b) =~= encode_utf8(b));
    } else {
        assert((a + b)[0] == a[0]);
        assert((a + b).drop_first() =~= a.drop_first() + b);
        lemma_encode_utf8_concat(a.drop_first(), b);
        assert(encode_utf8(a + b) =~= encode_utf8(a) + encode_utf8(b));
    }
}

/// The encoding of two strings one after the other is the encoding of the
/// first followed by that of the second.
pub proof fn lemma_url_encoding_concat(a: Seq<char>, b: Seq<char>)
    ensures
        encode_bytes(encode_utf8(a + b)) == encode_bytes(encode_utf8(a)) + encode_bytes(
            encode_utf8(b),
        ),
{
    lemma_encode_utf8_concat(a, b);
    lemma_encode_bytes_concat(encode_utf8(a), encode_utf8(b));
}

proof fn lemma_byte_text_url_safe(b: u8)
    ensures
        forall|i: int| 0 <= i < byte_text(b).len() ==> url_safe(#[trigger] byte_text(b)[i]),
{
    let t = byte_text(b);
    if !is_unreserved(b) && b != 32 {
        assert(b / 16 < 16 && b % 16 < 16);
        assert(forall|v: nat| v < 16 ==> url_safe(#[trigger] hex_digit(v)));
    }
}

/// Every character of an encoding is safe in a URL query.
pub proof fn lemma_encoding_is_url_safe(bytes: Seq<u8>)
    ensures
        forall|i: int|
            0 <= i < encode_bytes(bytes).len() ==> url_safe(#[trigger] encode_bytes(bytes)[i]),
    decreases bytes.len(),
{
    if bytes.len() > 0 {
        lemma_encoding_is_url_safe(bytes.drop_last());
        lemma_byte_text_url_safe(bytes.last());
        let front = encode_bytes(bytes.drop_last());
        let back = byte_text(bytes.last());
        assert forall|i: int| 0 <= i < encode_bytes(bytes).len() implies url_safe(
            #[trigger] encode_bytes(bytes)[i],
        ) by {
            if i < front.len() {
                assert(encode_bytes(bytes)[i] == front[i]);
            } else {
                assert(encode_bytes(bytes)[i] == back[i - front.len()]);
            }
        }
    }
}

/// Text made of unreserved characters is its own encoding.
pub proof fn lemma_unreserved_text_unchanged(s: Seq<char>)
    requires
        forall|i: int| 0 <= i < s.len() ==> unreserved_char(#[trigger] s[i]),
    ensures
        encode_bytes(encode_utf8(s)) == s,
    decreases s.len(),
{
    if s.len() > 0 {
        let c = s[0];
        assert(unreserved_char(c));
        let v = c as u32;
        assert(v <= 0x7F ==> v & 0x7F == v) by (bit_vector);
        assert(encode_scalar(v) == seq![(v & 0x7F) as u8]);
        assert(encode_utf8(s) == encode_scalar(v) + encode_utf8(s.drop_first()));
        let rest = s.drop_first();
        assert forall|i: int| 0 <= i < rest.len() implies unreserved_char(#[trigger] rest[i]) by {
            assert(rest[i] == s[i + 1]);
        }
        lemma_unreserved_text_unchanged(rest);
        lemma_encode_bytes_concat(encode_scalar(v), encode_utf8(rest));
        let one = seq![v as u8];
        assert(one.drop_last() =~= Seq::<u8>::empty());
        assert(encode_bytes(Seq::<u8>::empty()) =~= Seq::<char>::empty());
        assert(one.last() == v as u8);
        assert(encode_bytes(one) =~= byte_text(v as u8));
        assert((v as u8) as int == v as int);
        vstd::utf8::char_u32_cast(c, v);
        assert((v as char) == c);
        assert(((v as u8) as char) == c);
        assert(encode_bytes(encode_utf8(s)) =~= s);
    }
}

/// The value of an upper-case hexadecimal digit (0 for any other character).
pub open spec fn hex_value(c: char) -> int {
    let v = c as u32;
    if 48 <= v <= 57 {
        v - 48
    } else if 65 <= v <= 70 {
        v - 55
    } else {
        0
    }
}

/// Form decoding, as the warning page applies it: `+` is a space, `%`
/// with two upper-case hex digits is the byte they write, and any other
/// character stands for its own code.
pub open spec fn form_decode(s: Seq<char>) -> Seq<u8>
    decreases s.len(),
{
    if s.len() == 0 {
        Seq::empty()
    } else if s[0] == '+' {
        seq![32u8] + form_decode(s.drop_first())
    } else if s[0] == '%' && s.len() >= 3 {
        seq![(16 * hex_value(s[1]) + hex_value(s[2])) as u8] + form_decode(s.subrange(3, s.len() as int))
    } else {
        seq![(s[0] as u32) as u8] + form_decode(s.drop_first())
    }
}

proof fn lemma_hex_value_of_digit(v: nat)
    requires
        v < 16,
    ensures
        hex_value(hex_digit(v)) == v,
{
    if v < 10 {
        assert(((48 + v) as char) as u32 == 48 + v);
    } else {
        assert(((55 + v) as char) as u32 == 55 + v);
    }
}

proof fn lemma_decode_byte_text(b: u8, rest: Seq<char>)
    ensures
        form_decode(byte_text(b) + rest) == seq![b] + form_decode(rest),
{
    let s = byte_text(b) + rest;
    if is_unreserved(b) {
        assert((b as char) as u32 == b as u32);
        assert(('+' as u32) == 43 && ('%' as u32) == 37);
        assert(s[0] == b as char);
        assert(s[0] != '+' && s[0] != '%');
        assert(s.drop_first() =~= rest);
    } else if b == 32 {
        assert(s[0] == '+');
        assert(s.drop_first() =~= rest);
    } else {
        assert(('+' as u32) == 43 && ('%' as u32) == 37);
        assert(s[0] == '%');
        assert(s[0] != '+');
        assert(s.len() >= 3);
        assert(s.subrange(3, s.len() as int) =~= rest);
        lemma_hex_value_of_digit((b / 16) as nat);
        lemma_hex_value_of_digit((b % 16) as nat);
        assert(s[1] == hex_digit((b / 16) as nat));
        assert(s[2] == hex_digit((b % 16) as nat));
        assert(16 * (b / 16) + b % 16 == b);
    }
}

proof fn lemma_decode_encoding(bytes: Seq<u8>)
    ensures
        form_decode(encode_bytes(bytes)) == bytes,
    decreases bytes.len(),
{
    if bytes.len() == 0 {
        assert(form_decode(Seq::<char>::empty()) =~= Seq::<u8>::empty());
    } else {
        let b = bytes[0];
        let tail = bytes.drop_first();
        assert(bytes =~= seq![b] + tail);
        lemma_encode_bytes_concat(seq![b], tail);
        assert(seq![b].drop_last() =~= Seq::<u8>::empty());
        assert(encode_bytes(Seq::<u8>::empty()) =~= Seq::<char>::empty());
        assert(encode_bytes(seq![b]) =~= byte_text(b));
        lemma_decode_byte_text(b, encode_bytes(tail));
        lemma_decode_encoding(tail);
        assert(seq![b] + tail =~= bytes);
    }
}

/// Form-decoding the encoding of a text gives back its UTF-8 bytes: every
/// byte other than an ASCII letter, digit, `-`, `_`, `.`, `~` or a space is
/// written as `%` and two upper-case hex digits, so a `+` in the encoding
/// only ever stands for a space (a `+` itself is written `%2B`).
pub proof fn lemma_url_encoding_decodes(s: Seq<char>)
    ensures
        form_decode(encode_bytes(encode_utf8(s))) == encode_utf8(s),
{
    lemma_decode_encoding(encode_utf8(s));
}

/// Byte by byte, the encoding decodes back to the bytes it was made from.
pub proof fn lemma_byte_encoding_decodes(bytes: Seq<u8>)
    ensures
        form_decode(encode_bytes(bytes)) == bytes,
{
    lemma_decode_encoding(bytes);
}

} // verus!
