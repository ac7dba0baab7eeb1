//! The text of an `otpauth://` URI, and its QR code.
use crate::text::{chars_of, split_once, split_once_chars};
use qrcode::render::unicode::Dense1x2;
use vstd::prelude::*;
use vstd::utf8::encode_utf8;

verus! {

#[verifier::external_type_specification]
#[verifier::external_body]
pub struct ExQrCode(qrcode::QrCode);

#[verifier::external_type_specification]
#[verifier::external_body]
pub struct ExQrError(qrcode::types::QrError);

/// Whether `QrCode::with_error_correction_level` can encode the bytes at error
/// correction level L (it refuses data too long for the largest code).
pub uninterp spec fn qr_fits(data: Seq<u8>) -> bool;

/// The QR code that `QrCode::with_error_correction_level` makes of the bytes
/// at error correction level L (the smallest version that holds them, and the
/// mask that the crate's penalty rules pick): a function of the bytes alone.
pub uninterp spec fn qr_code_for(data: Seq<u8>) -> qrcode::QrCode;

/// The text that `unicode::Dense1x2` draws of a QR code, dark modules dark
/// and light ones light, without quiet zone: a function of the code alone.
pub uninterp spec fn dense_drawing(code: qrcode::QrCode) -> Seq<char>;

/// The drawing of the QR code of the bytes (see `qr_code_for` and
/// `dense_drawing`).
pub open spec fn qr_drawing(data: Seq<u8>) -> Seq<char> {
    dense_drawing(qr_code_for(data))
}

/// The number of times `c` occurs in `s`.
pub open spec fn count_char(s: Seq<char>, c: char) -> nat
    decreases s.len(),
{
    if s.len() == 0 {
        0
    } else {
        count_char(s.drop_last(), c) + if s.last() == c {
            1nat
        } else {
            0nat
        }
    }
}

/// A character occurs at most as many times as the text is long.
pub proof fn lemma_count_char_le(s: Seq<char>, c: char)
    ensures
        count_char(s, c) <= s.len(),
    decreases s.len(),
{
    if s.len() > 0 {
        lemma_count_char_le(s.drop_last(), c);
    }
}

/// The number of lines that `str::lines` finds in a text: lines end at `\n`,
/// and a final line ending adds no empty line.
pub open spec fn line_count(s: Seq<char>) -> nat {
    if s.len() == 0 {
        0
    } else if s.last() == '\n' {
        count_char(s, '\n')
    } else {
        count_char(s, '\n') + 1
    }
}

/// The first line that `str::lines` finds in a non-empty text, without its
/// line ending (`\n`, or `\r\n`).
pub open spec fn first_line(s: Seq<char>) -> Seq<char> {
    match split_once(s, '\n') {
        Some((a, _)) => if a.len() > 0 && a.last() == '\r' {
            a.drop_last()
        } else {
            a
        },
        None => s,
    }
}

/// The width of a drawing: the number of characters of its first line, or 0
/// where it has none.
pub open spec fn drawing_width(s: Seq<char>) -> nat {
    if s.len() == 0 {
        0
    } else {
        first_line(s).len()
    }
}

/// Width and height of a drawing, each cut to 16 bits (see `drawing_width`
/// and `line_count`).
pub fn drawing_size(text: &str) -> (r: (u16, u16))
    ensures
        r.0 == drawing_width(text@) as u16,
        r.1 == line_count(text@) as u16,
{
    let s = chars_of(text);
    let mut count: usize = 0;
    let mut i: usize = 0;
    while i < s.len()
        invariant
            i <= s.len(),
            count == count_char(s@.take(i as int), '\n'),
            count <= i,
        decreases s.len() - i,
    {
        assert(s@.take(i + 1).drop_last() =~= s@.take(i as int));
        if s[i] == '\n' {
            count = count + 1;
        }
        i = i + 1;
    }
    assert(s@.take(s.len() as int) =~= s@);
    let height: usize = if s.len() == 0 {
        0
    } else if s[s.len() - 1] == '\n' {
        count
    } else {
        proof {
            lemma_count_char_le(s@.drop_last(), '\n');
        }
        count + 1
    };
    let width: usize = if s.len() == 0 {
        0
    } else {
        match split_once_chars(&s, '\n') {
            Some((a, _)) => if a.len() > 0 && a[a.len() - 1] == '\r' {
                a.len() - 1
            } else {
                a.len()
            },
            None => s.len(),
        }
    };
    (#[verifier::truncate] (width as u16), #[verifier::truncate] (height as u16))
}

/// Draws a QR code with `unicode::Dense1x2` (two rows of modules per line of
/// text), dark modules dark and light ones light, without quiet zone (named
/// `dense_drawing`).
#[verifier::external_body]
fn draw_dense(code: &qrcode::QrCode) -> (r: String)
    ensures
        r@ == dense_drawing(*code),
{
    code.render::<Dense1x2>().dark_color(Dense1x2::Dark).light_color(Dense1x2::Light).quiet_zone(
        false,
    ).build()
}

/// An `otpauth://` URI.
#[derive(Debug, Clone)]
pub struct TotpURI(String);

impl View for TotpURI {
    type V = Seq<char>;

    closed spec fn view(&self) -> Seq<char> {
        self.0@
    }
}

impl TotpURI {
    /// Wraps the given text.
    pub fn new(uri: String) -> (r: Self)
        ensures
            r@ == uri@,
    {
        TotpURI(uri)
    }

    /// The URI's text.
    pub fn as_str(&self) -> (r: &str)
        ensures
            r@ == self@,
    {
        self.0.as_str()
    }

    /// Appends text to the URI.
    pub fn push_str(&mut self, s: &str)
        ensures
            final(self)@ == old(self)@ + s@,
    {
        self.0.append(s);
    }

    /// The URI's text (what `Display` writes).
    pub fn to_string(&self) -> (r: String)
        ensures
            r@ == self@,
    {
        self.0.clone()
    }

    /// `QrCode::with_error_correction_level` on the URI's UTF-8 bytes at error
    /// correction level L: succeeds exactly where `qr_fits` holds of them,
    /// with the code `qr_code_for` them.
    #[verifier::external_body]
    pub fn to_qrcode(&self) -> (r: Result<qrcode::QrCode, qrcode::types::QrError>)
        ensures
            r is Ok <==> qr_fits(encode_utf8(self@)),
            r matches Ok(c) ==> c == qr_code_for(encode_utf8(self@)),
    {
        qrcode::QrCode::with_error_correction_level(self.0.as_bytes(), qrcode::EcLevel::L)
    }

    /// The URI's QR code drawn as text (see `draw_dense`), with the drawing's
    /// width and height (see `drawing_size`).
    pub fn to_qrcode_rendered(&self) -> (r: Result<(String, u16, u16), qrcode::types::QrError>)
        ensures
            r is Ok <==> qr_fits(encode_utf8(self@)),
            r matches Ok((s, w, h)) ==> s@ == qr_drawing(encode_utf8(self@)) && w == drawing_width(
                s@,
            ) as u16 && h == line_count(s@) as u16,
    {
        let code = self.to_qrcode()?;
        let s = draw_dense(&code);
        let (w, h) = drawing_size(s.as_str());
        Ok((s, w, h))
    }

    /// The URI's QR code drawn as text.
    pub fn to_qrcode_string(&self) -> (r: Result<String, qrcode::types::QrError>)
        ensures
            r is Ok <==> qr_fits(encode_utf8(self@)),
            r matches Ok(s) ==> s@ == qr_drawing(encode_utf8(self@)),
    {
        let (s, _, _) = self.to_qrcode_rendered()?;
        Ok(s)
    }
}

} // verus!
