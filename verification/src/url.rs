//! Percent-encoding of URI components, through the `urlencoding` crate.
use vstd::prelude::*;
use vstd::utf8::*;

verus! {

/// The value of an ASCII hexadecimal digit (either case).
pub open spec fn hex_value(b: u8) -> Option<u8> {
    if 48 <= b <= 57 {
        Some((b - 48) as u8)
    } else if 65 <= b <= 70 {
        Some((b - 55) as u8)
    } else if 97 <= b <= 102 {
        Some((b - 87) as u8)
    } else {
        None
    }
}

/// `urlencoding::decode_binary`: every `%` followed by two hexadecimal digits
/// becomes the byte they spell; every other byte, `%` and `+` included, is kept.
pub open spec fn percent_decode(s: Seq<u8>) -> Seq<u8>
    decreases s.len(),
{
    if s.len() == 0 {
        Seq::<u8>::empty()
    } else if s[0] == 37 && s.len() >= 3 && hex_value(s[1]) is Some && hex_value(s[2]) is Some {
        seq![(hex_value(s[1]).unwrap() * 16 + hex_value(s[2]).unwrap()) as u8] + percent_decode(
            s.skip(3),
        )
    } else {
        seq![s[0]] + percent_decode(s.drop_first())
    }
}

/// `urlencoding::decode`: percent-decodes the UTF-8 bytes of `s` and reads the
/// result back as UTF-8; `None` where those bytes are not valid UTF-8.
pub open spec fn url_decode(s: Seq<char>) -> Option<Seq<char>> {
    let b = percent_decode(encode_utf8(s));
    if valid_utf8(b) {
        Some(decode_utf8(b))
    } else {
        None
    }
}

/// The bytes that `urlencoding` leaves as they are.
pub open spec fn is_unreserved(b: u8) -> bool {
    ||| 48 <= b <= 57
    ||| 65 <= b <= 90
    ||| 97 <= b <= 122
    ||| b == 45
    ||| b == 46
    ||| b == 95
    ||| b == 126
}

/// An upper-case hexadecimal digit for a value below 16.
pub open spec fn hex_digit(d: u8) -> u8 {
    if d < 10 {
        (48 + d) as u8
    } else {
        (55 + d) as u8
    }
}

/// `urlencoding::encode_binary`, as bytes: unreserved bytes are kept, every
/// other byte becomes `%` and two upper-case hexadecimal digits.
pub open spec fn percent_encode(b: Seq<u8>) -> Seq<u8>
    decreases b.len(),
{
    if b.len() == 0 {
        Seq::<u8>::empty()
    } else {
        (if is_unreserved(b[0]) {
            seq![b[0]]
        } else {
            seq![37u8, hex_digit(b[0] >> 4), hex_digit(b[0] & 15)]
        }) + percent_encode(b.drop_first())
    }
}

/// The characters of a sequence of ASCII bytes.
pub open spec fn ascii_chars(b: Seq<u8>) -> Seq<char> {
    b.map_values(|x: u8| x as char)
}

/// `urlencoding::encode`: percent-encodes the UTF-8 bytes of `s`.
pub open spec fn url_encode(s: Seq<char>) -> Seq<char> {
    ascii_chars(percent_encode(encode_utf8(s)))
}

/// `urlencoding::decode`: the text with its percent escapes decoded, or `None`
/// where the decoded bytes are not UTF-8.
#[verifier::external_body]
pub(crate) fn url_decode_str(s: &str) -> (r: Option<String>)
    ensures
        match r {
            Some(t) => url_decode(s@) == Some(t@),
            None => url_decode(s@) is None,
        },
{
    urlencoding::decode(s).ok().map(|c| c.into_owned())
}

/// `urlencoding::encode`: the text with every byte but the unreserved ones
/// percent-encoded.
#[verifier::external_body]
pub(crate) fn url_encode_str(s: &str) -> (r: String)
    ensures
        r@ == url_encode(s@),
{
    urlencoding::encode(s).into_owned()
}

/// Percent-decodes a character vector (see `url_decode`).
pub fn url_decode_chars(s: &Vec<char>) -> (r: Option<Vec<char>>)
    ensures
        match r {
            Some(t) => url_decode(s@) == Some(t@),
            None => url_decode(s@) is None,
        },
{
    let st = crate::text::string_of(s);
    match url_decode_str(st.as_str()) {
        Some(t) => Some(crate::text::chars_of(t.as_str())),
        None => None,
    }
}

/// Percent-encodes a character vector (see `url_encode`).
pub fn url_encode_chars(s: &Vec<char>) -> (r: Vec<char>)
    ensures
        r@ == url_encode(s@),
{
    let st = crate::text::string_of(s);
    let t = url_encode_str(st.as_str());
    crate::text::chars_of(t.as_str())
}

pub proof fn lemma_encode_utf8_concat(a: Seq<char>, b: Seq<char>)
    ensures
        encode_utf8(a + b) == encode_utf8(a) + encode_utf8(b),
    decreases a.len(),
{
    if a.len() == 0 {
        assert(a + b =~= b);
    } else {
        lemma_encode_utf8_concat(a.drop_first(), b);
        assert((a + b).drop_first() =~= a.drop_first() + b);
        assert((a + b)[0] == a[0]);
    }
}

proof fn lemma_hex_roundtrip(x: u8)
    ensures
        hex_value(hex_digit(x >> 4)) == Some(x >> 4),
        hex_value(hex_digit(x & 15)) == Some(x & 15),
        ((x >> 4) * 16 + (x & 15)) as u8 == x,
        hex_digit(x >> 4) != 37,
{
    assert((x >> 4) < 16 && (x & 15) < 16 && ((x >> 4) * 16 + (x & 15)) == x) by (bit_vector);
}

/// Decoding undoes encoding, whatever follows the encoded bytes.
pub proof fn lemma_percent_decode_encode(b: Seq<u8>, rest: Seq<u8>)
    ensures
        percent_decode(percent_encode(b) + rest) == b + percent_decode(rest),
    decreases b.len(),
{
    if b.len() == 0 {
        assert(percent_encode(b) + rest =~= rest);
        assert(b + percent_decode(rest) =~= percent_decode(rest));
    } else {
        lemma_percent_decode_encode(b.drop_first(), rest);
        let tail = percent_encode(b.drop_first()) + rest;
        let x = b[0];
        if is_unreserved(x) {
            let s = percent_encode(b) + rest;
            assert(s =~= seq![x] + tail);
            assert(s.drop_first() =~= tail);
            assert(x != 37);
        } else {
            lemma_hex_roundtrip(x);
            let s = percent_encode(b) + rest;
            assert(s =~= seq![37u8, hex_digit(x >> 4), hex_digit(x & 15)] + tail);
            assert(s.skip(3) =~= tail);
        }
        assert(b =~= seq![x] + b.drop_first());
        assert(b + percent_decode(rest) =~= seq![x] + (b.drop_first() + percent_decode(rest)));
    }
}

/// Percent-encoding yields only ASCII bytes.
pub proof fn lemma_percent_encode_ascii(b: Seq<u8>)
    ensures
        forall|i: int| 0 <= i < percent_encode(b).len() ==> #[trigger] percent_encode(b)[i] < 128,
        forall|i: int|
            0 <= i < percent_encode(b).len() ==> #[trigger] percent_encode(b)[i] != 37
                ==> is_unreserved(percent_encode(b)[i]) || (48 <= percent_encode(b)[i] <= 57)
                || (65 <= percent_encode(b)[i] <= 70),
    decreases b.len(),
{
    if b.len() > 0 {
        lemma_percent_encode_ascii(b.drop_first());
        let x = b[0];
        assert((x >> 4) < 16 && (x & 15) < 16) by (bit_vector);
        let head = if is_unreserved(x) {
            seq![x]
        } else {
            seq![37u8, hex_digit(x >> 4), hex_digit(x & 15)]
        };
        assert forall|i: int| 0 <= i < percent_encode(b).len() implies #[trigger] percent_encode(
            b,
        )[i] < 128 by {
            if i >= head.len() {
                assert(percent_encode(b)[i] == percent_encode(b.drop_first())[i - head.len()]);
            }
        }
        assert forall|i: int|
            0 <= i < percent_encode(b).len() && #[trigger] percent_encode(b)[i] != 37 implies is_unreserved(
            percent_encode(b)[i],
        ) || (48 <= percent_encode(b)[i] <= 57) || (65 <= percent_encode(b)[i] <= 70) by {
            if i >= head.len() {
                assert(percent_encode(b)[i] == percent_encode(b.drop_first())[i - head.len()]);
            }
        }
    }
}

/// The UTF-8 bytes of ASCII characters are their codes.
pub proof fn lemma_encode_utf8_ascii_chars(b: Seq<u8>)
    requires
        forall|i: int| 0 <= i < b.len() ==> #[trigger] b[i] < 128,
    ensures
        encode_utf8(ascii_chars(b)) == b,
    decreases b.len(),
{
    if b.len() > 0 {
        lemma_encode_utf8_ascii_chars(b.drop_first());
        assert(ascii_chars(b).drop_first() =~= ascii_chars(b.drop_first()));
        let c = ascii_chars(b)[0];
        assert(c == b[0] as char);
        let b0 = b[0];
        let v = c as u32;
        assert(v == b0 as u32);
        assert((v & 0x7F) as u8 == b0) by (bit_vector)
            requires
                v == b0 as u32,
                b0 < 128,
        ;
        assert(encode_scalar(v) =~= seq![b0]);
        assert(b =~= seq![b[0]] + b.drop_first());
    } else {
        assert(ascii_chars(b) =~= Seq::<char>::empty());
    }
}

/// `url_encode` followed by `url_decode` gives back the text.
pub proof fn lemma_url_roundtrip(s: Seq<char>)
    ensures
        url_decode(url_encode(s)) == Some(s),
        encode_utf8(url_encode(s)) == percent_encode(encode_utf8(s)),
{
    let b = encode_utf8(s);
    lemma_percent_encode_ascii(b);
    lemma_encode_utf8_ascii_chars(percent_encode(b));
    lemma_percent_decode_encode(b, Seq::<u8>::empty());
    assert(b + Seq::<u8>::empty() =~= b);
    assert(percent_encode(b) + Seq::<u8>::empty() =~= percent_encode(b));
    encode_utf8_valid_utf8(s);
    encode_utf8_decode_utf8(s);
}


/// The characters that `url_encode` can produce: unreserved ones and `%`.
pub open spec fn is_url_safe(c: char) -> bool {
    ||| '0' <= c <= '9'
    ||| 'A' <= c <= 'Z'
    ||| 'a' <= c <= 'z'
    ||| c == '-'
    ||| c == '.'
    ||| c == '_'
    ||| c == '~'
    ||| c == '%'
}

pub proof fn lemma_url_encode_safe(s: Seq<char>)
    ensures
        forall|i: int| 0 <= i < url_encode(s).len() ==> is_url_safe(#[trigger] url_encode(s)[i]),
{
    let b = percent_encode(encode_utf8(s));
    lemma_percent_encode_ascii(encode_utf8(s));
    assert forall|i: int| 0 <= i < url_encode(s).len() implies is_url_safe(
        #[trigger] url_encode(s)[i],
    ) by {
        let x = b[i];
        assert(url_encode(s)[i] == x as char);
        assert(x < 128);
        assert((x as char) as u32 == x as u32);
    }
}

proof fn lemma_percent_decode_plain(b: Seq<u8>)
    requires
        forall|i: int| 0 <= i < b.len() ==> #[trigger] b[i] != 37,
    ensures
        percent_decode(b) == b,
    decreases b.len(),
{
    if b.len() > 0 {
        lemma_percent_decode_plain(b.drop_first());
        assert(b =~= seq![b[0]] + b.drop_first());
    }
}

/// Text of ASCII characters without `%` decodes to itself.
pub proof fn lemma_url_decode_plain(s: Seq<char>)
    requires
        is_ascii_chars(s),
        !s.contains('%'),
    ensures
        url_decode(s) == Some(s),
{
    is_ascii_chars_encode_utf8(s);
    let b = encode_utf8(s);
    assert forall|i: int| 0 <= i < b.len() implies #[trigger] b[i] != 37 by {
        assert(b[i] == s[i] as u8);
        let c = s[i];
        assert('\0' <= c <= '\u{7f}');
        let v = c as u32;
        assert(v <= 127);
        assert(c != '%');
        assert(v != 37);
        assert((v as u8) != 37u8) by (bit_vector)
            requires
                v < 128,
                v != 37,
        ;
    }
    lemma_percent_decode_plain(b);
    encode_utf8_valid_utf8(s);
    encode_utf8_decode_utf8(s);
}

/// An encoded `a`, a `:` and an encoded `b` decode to `a:b`.
pub proof fn lemma_url_decode_pair(a: Seq<char>, b: Seq<char>)
    ensures
        url_decode(url_encode(a) + seq![':'] + url_encode(b)) == Some(a + seq![':'] + b),
{
    let ea = encode_utf8(a);
    let eb = encode_utf8(b);
    lemma_url_roundtrip(a);
    lemma_url_roundtrip(b);
    let colon: Seq<char> = seq![':'];
    assert(encode_utf8(colon) =~= seq![58u8]) by {
        assert(colon.drop_first() =~= Seq::<char>::empty());
        assert(encode_utf8(Seq::<char>::empty()) =~= Seq::<u8>::empty());
        let v = colon[0] as u32;
        assert(v == 58);
        assert((v & 0x7F) as u8 == 58u8) by (bit_vector)
            requires
                v == 58,
        ;
    }
    lemma_encode_utf8_concat(url_encode(a), colon);
    lemma_encode_utf8_concat(url_encode(a) + colon, url_encode(b));
    let bytes = encode_utf8(url_encode(a) + colon + url_encode(b));
    assert(bytes =~= percent_encode(ea) + (seq![58u8] + percent_encode(eb)));
    lemma_percent_decode_encode(ea, seq![58u8] + percent_encode(eb));
    assert((seq![58u8] + percent_encode(eb)).drop_first() =~= percent_encode(eb));
    lemma_percent_decode_encode(eb, Seq::<u8>::empty());
    assert(percent_encode(eb) + Seq::<u8>::empty() =~= percent_encode(eb));
    assert(percent_decode(seq![58u8] + percent_encode(eb)) =~= seq![58u8] + eb);
    lemma_encode_utf8_concat(a, colon);
    lemma_encode_utf8_concat(a + colon, b);
    assert(percent_decode(bytes) =~= encode_utf8(a + colon + b));
    encode_utf8_valid_utf8(a + colon + b);
    encode_utf8_decode_utf8(a + colon + b);
}

} // verus!
