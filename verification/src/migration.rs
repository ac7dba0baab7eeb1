//! Google Authenticator's export format: `otpauth-migration://offline?data=...`,
//! whose `data` parameter is Base64 of a protocol buffer message
//! (`MigrationPayload`, a list of `OtpParameters`).
use crate::codec::{all_base32, base32_encode, base32_encoded, base64_decode, base64_decoded};
use crate::text::{chars_of, split, split_chars, string_of, strip_prefix, strip_prefix_chars, views};
use crate::totp::{Algorithm, EntryView, ErrorView, TotpEntry, TotpError};
use crate::url::{url_decode, url_decode_str};
use vstd::prelude::*;
use vstd::utf8::{decode_utf8, encode_utf8, valid_utf8};

verus! {

// ---------------------------------------------------------------------------
// Protocol buffer wire format
// ---------------------------------------------------------------------------

/// 128 to the power `i`.
pub open spec fn pow128(i: nat) -> nat
    decreases i,
{
    if i == 0 {
        1
    } else {
        128 * pow128((i - 1) as nat)
    }
}

/// The part of a varint that starts at its byte `i` (the varint itself starts
/// at `pos`): the value of the bytes from there on, little-endian base 128, and
/// the position after the last byte. A byte below 128 ends the varint; a varint
/// has at most ten bytes, and the tenth must end it and be 0 or 1 (so that the
/// value fits in 64 bits).
pub open spec fn varint_from(b: Seq<u8>, pos: int, i: nat) -> Option<(int, int)>
    decreases 10 - i,
{
    if i >= 10 || pos < 0 || pos + i >= b.len() {
        None
    } else {
        let byte = b[pos + i];
        proof {
            if i <= 8 {
                lemma_pow128_le(i as nat, 8);
            }
        }
        if byte < 128 {
            if i == 9 && byte > 1 {
                None
            } else {
                Some((byte as int, pos + i + 1))
            }
        } else {
            match varint_from(b, pos, i + 1) {
                Some((v, e)) => Some((byte - 128 + 128 * v, e)),
                None => None,
            }
        }
    }
}

/// The varint at `pos`: its value and the position after it.
pub open spec fn spec_varint(b: Seq<u8>, pos: int) -> Option<(int, int)> {
    varint_from(b, pos, 0)
}

/// The field key at `pos`: field number, wire type and the position after it.
/// The key must fit in 32 bits, its wire type (low three bits) must be one of
/// 0 to 5 and its field number must not be 0.
pub open spec fn spec_key(b: Seq<u8>, pos: int) -> Option<(int, int, int)> {
    match spec_varint(b, pos) {
        Some((k, e)) => if k > 0xFFFF_FFFF || k % 8 > 5 || k / 8 < 1 {
            None
        } else {
            Some((k / 8, k % 8, e))
        },
        None => None,
    }
}

/// The bytes of a length-delimited value whose length varint is at `pos`: the
/// positions where they start and end.
pub open spec fn spec_len_delim(b: Seq<u8>, pos: int) -> Option<(int, int)> {
    match spec_varint(b, pos) {
        Some((l, e)) => if e + l <= b.len() {
            Some((e, e + l))
        } else {
            None
        },
        None => None,
    }
}

/// How far the reading of a message may still go from `pos`.
pub open spec fn room(b: Seq<u8>, pos: int) -> nat {
    if 0 <= pos <= b.len() {
        (b.len() - pos) as nat
    } else {
        0
    }
}

/// The number of bytes that the value of an unknown field takes, the value
/// starting at `pos` (just after the key). `depth` is how many more levels of
/// groups may be entered; none left is an error, as is a lone end-group key.
pub open spec fn spec_skip(b: Seq<u8>, pos: int, wire: int, tag: int, depth: nat) -> Option<nat>
    decreases room(b, pos), 1int,
{
    if depth == 0 || pos < 0 || pos > b.len() {
        None
    } else if wire == 0 {
        match spec_varint(b, pos) {
            Some((_, e)) => Some((e - pos) as nat),
            None => None,
        }
    } else if wire == 1 {
        if pos + 8 <= b.len() {
            Some(8)
        } else {
            None
        }
    } else if wire == 2 {
        match spec_len_delim(b, pos) {
            Some((_, t)) => Some((t - pos) as nat),
            None => None,
        }
    } else if wire == 3 {
        spec_group(b, pos, tag, depth)
    } else if wire == 5 {
        if pos + 4 <= b.len() {
            Some(4)
        } else {
            None
        }
    } else {
        None
    }
}

/// The number of bytes that the rest of a group takes from `pos`, up to and
/// including its end-group key, which must carry the group's field number.
/// Each field inside is skipped one level deeper.
pub open spec fn spec_group(b: Seq<u8>, pos: int, tag: int, depth: nat) -> Option<nat>
    decreases room(b, pos), 0int,
{
    if pos < 0 || pos > b.len() || depth == 0 {
        None
    } else {
        match spec_key(b, pos) {
            None => None,
            Some((t, w, e)) => {
                proof {
                    lemma_key_bounds(b, pos);
                }
                if w == 4 {
                    if t == tag {
                        Some((e - pos) as nat)
                    } else {
                        None
                    }
                } else {
                    match spec_skip(b, e, w, t, (depth - 1) as nat) {
                        None => None,
                        Some(n) => match spec_group(b, e + n, tag, depth) {
                            None => None,
                            Some(m) => Some((e + n + m - pos) as nat),
                        },
                    }
                }
            },
        }
    }
}

/// A varint lies inside the bytes, after its start, and is not negative.
pub proof fn lemma_varint_from_bounds(b: Seq<u8>, pos: int, i: nat)
    ensures
        varint_from(b, pos, i) matches Some((v, e)) ==> 0 <= pos + i < e <= b.len() && v >= 0,
    decreases 10 - i,
{
    if !(i >= 10 || pos < 0 || pos + i >= b.len()) && b[pos + i] >= 128 {
        lemma_varint_from_bounds(b, pos, i + 1);
    }
}

pub proof fn lemma_varint_bounds(b: Seq<u8>, pos: int)
    ensures
        spec_varint(b, pos) matches Some((v, e)) ==> 0 <= pos < e <= b.len() && v >= 0,
{
    lemma_varint_from_bounds(b, pos, 0);
}

pub proof fn lemma_key_bounds(b: Seq<u8>, pos: int)
    ensures
        spec_key(b, pos) matches Some((t, w, e)) ==> 0 <= pos < e <= b.len() && 1 <= t
            <= 0x1FFF_FFFF && 0 <= w <= 5,
{
    lemma_varint_bounds(b, pos);
}

pub proof fn lemma_len_delim_bounds(b: Seq<u8>, pos: int)
    ensures
        spec_len_delim(b, pos) matches Some((s, t)) ==> 0 <= pos < s <= t <= b.len(),
{
    lemma_varint_bounds(b, pos);
}

/// A skipped field and a skipped group stay inside the bytes.
pub proof fn lemma_skip_bounds(b: Seq<u8>, pos: int, wire: int, tag: int, depth: nat)
    ensures
        spec_skip(b, pos, wire, tag, depth) matches Some(n) ==> 0 <= pos && pos + n <= b.len(),
        spec_group(b, pos, tag, depth) matches Some(n) ==> 0 <= pos && pos + n <= b.len(),
    decreases room(b, pos),
{
    lemma_varint_bounds(b, pos);
    lemma_len_delim_bounds(b, pos);
    if !(pos < 0 || pos > b.len() || depth == 0) {
        lemma_key_bounds(b, pos);
        if let Some((t, w, e)) = spec_key(b, pos) {
            if w != 4 {
                lemma_skip_bounds(b, e, w, t, (depth - 1) as nat);
                if let Some(n) = spec_skip(b, e, w, t, (depth - 1) as nat) {
                    lemma_skip_bounds(b, e + n, 0, tag, depth);
                }
            }
        }
    }
}

/// Powers of 128 grow with the exponent.
pub proof fn lemma_pow128_le(i: nat, j: nat)
    requires
        i <= j,
    ensures
        pow128(i) <= pow128(j),
    decreases j,
{
    if i < j {
        lemma_pow128_le(i, (j - 1) as nat);
    }
}

/// Reads the varint at `pos` (see `spec_varint`).
pub fn decode_varint(b: &[u8], pos: usize) -> (r: Option<(u64, usize)>)
    ensures
        match r {
            Some((v, e)) => spec_varint(b@, pos as int) == Some((v as int, e as int)),
            None => spec_varint(b@, pos as int) is None,
        },
{
    if pos >= b.len() {
        return None;
    }
    let mut i: usize = 0;
    let mut v: u64 = 0;
    let mut p: u64 = 1;
    proof {
        reveal_with_fuel(pow128, 10);
    }
    assert(pow128(8) == 0x100_0000_0000_0000);
    assert(pow128(9) == 0x8000_0000_0000_0000);
    loop
        invariant
            pos < b.len(),
            i < 10,
            p == pow128(i as nat),
            v < p,
            pow128(8) == 0x100_0000_0000_0000,
            pow128(9) == 0x8000_0000_0000_0000,
            spec_varint(b@, pos as int) == match varint_from(b@, pos as int, i as nat) {
                Some((w, e)) => Some((v + p * w, e)),
                None => None::<(int, int)>,
            },
        decreases 10 - i,
    {
        if i >= b.len() - pos {
            return None;
        }
        let byte = b[pos + i];
        proof {
            if i <= 8 {
                lemma_pow128_le(i as nat, 8);
            }
        }
        if byte < 128 {
            if i == 9 && byte > 1 {
                return None;
            }
            assert(p * byte <= 0xFFFF_FFFF_FFFF_FFFF - v) by (nonlinear_arith)
                requires
                    v < p,
                    i <= 8 ==> p <= 0x100_0000_0000_0000 && byte < 128,
                    i == 9 ==> p == 0x8000_0000_0000_0000 && byte <= 1,
                    i <= 9,
            ;
            return Some((v + p * (byte as u64), pos + i + 1));
        }
        if i == 9 {
            return None;
        }
        let low = (byte - 128) as u64;
        assert(p * low + p <= p * 128) by (nonlinear_arith)
            requires
                low < 128,
                p > 0,
        ;
        assert(p * 128 <= 0x8000_0000_0000_0000) by (nonlinear_arith)
            requires
                p <= 0x100_0000_0000_0000,
        ;
        proof {
            let ghost old_v = v as int;
            let ghost old_p = p as int;
            if let Some((w, e)) = varint_from(b@, pos as int, (i + 1) as nat) {
                assert(old_v + old_p * (low + 128 * w) == (old_v + old_p * low) + (old_p * 128) * w)
                    by (nonlinear_arith);
            }
        }
        v = v + p * low;
        p = p * 128;
        i = i + 1;
    }
}

/// Reads the field key at `pos` (see `spec_key`): field number, wire type and
/// the position after the key.
pub fn decode_key(b: &[u8], pos: usize) -> (r: Option<(u32, u8, usize)>)
    ensures
        match r {
            Some((t, w, e)) => spec_key(b@, pos as int) == Some((t as int, w as int, e as int)),
            None => spec_key(b@, pos as int) is None,
        },
{
    match decode_varint(b, pos) {
        None => None,
        Some((k, e)) => {
            if k > 0xFFFF_FFFF || k % 8 > 5 || k / 8 < 1 {
                None
            } else {
                Some(((k / 8) as u32, (k % 8) as u8, e))
            }
        },
    }
}

/// Reads the length-delimited value whose length is at `pos` (see
/// `spec_len_delim`).
pub fn decode_len_delim(b: &[u8], pos: usize) -> (r: Option<(usize, usize)>)
    ensures
        match r {
            Some((s, t)) => spec_len_delim(b@, pos as int) == Some((s as int, t as int)),
            None => spec_len_delim(b@, pos as int) is None,
        },
{
    proof {
        lemma_varint_bounds(b@, pos as int);
    }
    match decode_varint(b, pos) {
        None => None,
        Some((l, e)) => {
            if l > (b.len() - e) as u64 {
                None
            } else {
                Some((e, e + l as usize))
            }
        },
    }
}

/// Skips the value of an unknown field that starts at `pos` (see `spec_skip`):
/// the number of bytes it takes.
pub fn skip_field(b: &[u8], pos: usize, wire: u8, tag: u32, depth: u32) -> (r: Option<usize>)
    ensures
        match r {
            Some(n) => spec_skip(b@, pos as int, wire as int, tag as int, depth as nat) == Some(
                n as nat,
            ),
            None => spec_skip(b@, pos as int, wire as int, tag as int, depth as nat) is None,
        },
    decreases room(b@, pos as int), 1int,
{
    if depth == 0 || pos > b.len() {
        return None;
    }
    proof {
        lemma_varint_bounds(b@, pos as int);
        lemma_len_delim_bounds(b@, pos as int);
    }
    if wire == 0 {
        match decode_varint(b, pos) {
            Some((_, e)) => Some(e - pos),
            None => None,
        }
    } else if wire == 1 {
        if b.len() - pos >= 8 {
            Some(8)
        } else {
            None
        }
    } else if wire == 2 {
        match decode_len_delim(b, pos) {
            Some((_, t)) => Some(t - pos),
            None => None,
        }
    } else if wire == 3 {
        skip_group(b, pos, tag, depth)
    } else if wire == 5 {
        if b.len() - pos >= 4 {
            Some(4)
        } else {
            None
        }
    } else {
        None
    }
}

/// Skips the rest of a group from `pos` (see `spec_group`): the number of bytes
/// up to and including its end-group key.
pub fn skip_group(b: &[u8], pos: usize, tag: u32, depth: u32) -> (r: Option<usize>)
    requires
        depth >= 1,
        pos <= b.len(),
    ensures
        match r {
            Some(n) => spec_group(b@, pos as int, tag as int, depth as nat) == Some(n as nat),
            None => spec_group(b@, pos as int, tag as int, depth as nat) is None,
        },
    decreases room(b@, pos as int), 0int,
{
    let mut cur: usize = pos;
    loop
        invariant
            pos <= cur <= b.len(),
            depth >= 1,
            spec_group(b@, pos as int, tag as int, depth as nat) == match spec_group(
                b@,
                cur as int,
                tag as int,
                depth as nat,
            ) {
                Some(m) => Some((cur + m - pos) as nat),
                None => None::<nat>,
            },
        decreases room(b@, cur as int),
    {
        proof {
            lemma_key_bounds(b@, cur as int);
        }
        let (t, w, e) = match decode_key(b, cur) {
            Some(k) => k,
            None => return None,
        };
        if w == 4 {
            if t == tag {
                return Some(e - pos);
            } else {
                return None;
            }
        }
        let n = match skip_field(b, e, w, t, depth - 1) {
            Some(n) => n,
            None => return None,
        };
        proof {
            lemma_skip_bounds(b@, e as int, w as int, t as int, (depth - 1) as nat);
        }
        cur = e + n;
    }
}

// ---------------------------------------------------------------------------
// The export schema
// ---------------------------------------------------------------------------

/// One exported account (`OtpParameters`): field 1 the raw secret bytes, 2 the
/// name, 3 the issuer, 4 the algorithm, 5 the digit count and 6 the kind of
/// password (1 HOTP, 2 TOTP), the last three as `int32`.
#[derive(Debug)]
pub struct OtpParameters {
    pub secret: Vec<u8>,
    pub name: String,
    pub issuer: String,
    pub algorithm: i32,
    pub digits: i32,
    pub otp_type: i32,
}

pub struct ParamsView {
    pub secret: Seq<u8>,
    pub name: Seq<char>,
    pub issuer: Seq<char>,
    pub algorithm: i32,
    pub digits: i32,
    pub otp_type: i32,
}

impl View for OtpParameters {
    type V = ParamsView;

    open spec fn view(&self) -> ParamsView {
        ParamsView {
            secret: self.secret@,
            name: self.name@,
            issuer: self.issuer@,
            algorithm: self.algorithm,
            digits: self.digits,
            otp_type: self.otp_type,
        }
    }
}

/// The whole export (`MigrationPayload`): field 1, repeated, one
/// `OtpParameters` message each.
#[derive(Debug)]
pub struct MigrationPayload {
    pub otp_parameters: Vec<OtpParameters>,
}

/// The accounts of a list, each by its view.
pub open spec fn params_views(v: Seq<OtpParameters>) -> Seq<ParamsView> {
    v.map_values(|p: OtpParameters| p@)
}

impl View for MigrationPayload {
    type V = Seq<ParamsView>;

    open spec fn view(&self) -> Seq<ParamsView> {
        params_views(self.otp_parameters@)
    }
}

/// An account with no field set: empty texts and zero numbers.
pub open spec fn empty_params() -> ParamsView {
    ParamsView {
        secret: Seq::empty(),
        name: Seq::empty(),
        issuer: Seq::empty(),
        algorithm: 0,
        digits: 0,
        otp_type: 0,
    }
}

/// The text that UTF-8 bytes encode, or `None` where they are not UTF-8.
pub open spec fn utf8_text(bytes: Seq<u8>) -> Option<Seq<char>> {
    if valid_utf8(bytes) {
        Some(decode_utf8(bytes))
    } else {
        None
    }
}

/// Reads the fields of an `OtpParameters` message from `pos` to the end of
/// `b`, starting from the values in `acc`: a field that comes again replaces
/// the earlier value; a known field with the wrong wire type, a string that is
/// not UTF-8 or a field that runs past the end fails; unknown fields are
/// skipped (groups up to 99 levels deep).
pub open spec fn params_from(b: Seq<u8>, pos: int, acc: ParamsView) -> Option<ParamsView>
    decreases room(b, pos),
{
    if pos < 0 || pos > b.len() {
        None
    } else if pos == b.len() {
        Some(acc)
    } else {
        match spec_key(b, pos) {
            None => None,
            Some((tag, wire, e)) => {
                proof {
                    lemma_key_bounds(b, pos);
                    lemma_len_delim_bounds(b, e);
                    lemma_varint_bounds(b, e);
                    lemma_skip_bounds(b, e, wire, tag, 99);
                }
                if 1 <= tag <= 3 {
                    if wire != 2 {
                        None
                    } else {
                        match spec_len_delim(b, e) {
                            None => None,
                            Some((s, t)) => {
                                let bytes = b.subrange(s, t);
                                if tag == 1 {
                                    params_from(b, t, ParamsView { secret: bytes, ..acc })
                                } else {
                                    match utf8_text(bytes) {
                                        None => None,
                                        Some(text) => if tag == 2 {
                                            params_from(b, t, ParamsView { name: text, ..acc })
                                        } else {
                                            params_from(b, t, ParamsView { issuer: text, ..acc })
                                        },
                                    }
                                }
                            },
                        }
                    }
                } else if 4 <= tag <= 6 {
                    if wire != 0 {
                        None
                    } else {
                        match spec_varint(b, e) {
                            None => None,
                            Some((v, f)) => {
                                let x = v as i32;
                                if tag == 4 {
                                    params_from(b, f, ParamsView { algorithm: x, ..acc })
                                } else if tag == 5 {
                                    params_from(b, f, ParamsView { digits: x, ..acc })
                                } else {
                                    params_from(b, f, ParamsView { otp_type: x, ..acc })
                                }
                            },
                        }
                    }
                } else {
                    match spec_skip(b, e, wire, tag, 99) {
                        None => None,
                        Some(n) => params_from(b, e + n, acc),
                    }
                }
            },
        }
    }
}

/// Reads the fields of a `MigrationPayload` from `pos` to the end of `b`,
/// after the accounts already in `acc`: each field 1 is a length-delimited
/// `OtpParameters` message read on its own bytes; unknown fields are skipped
/// (groups up to 100 levels deep).
pub open spec fn payload_from(b: Seq<u8>, pos: int, acc: Seq<ParamsView>) -> Option<
    Seq<ParamsView>,
>
    decreases room(b, pos),
{
    if pos < 0 || pos > b.len() {
        None
    } else if pos == b.len() {
        Some(acc)
    } else {
        match spec_key(b, pos) {
            None => None,
            Some((tag, wire, e)) => {
                proof {
                    lemma_key_bounds(b, pos);
                    lemma_len_delim_bounds(b, e);
                    lemma_skip_bounds(b, e, wire, tag, 100);
                }
                if tag == 1 {
                    if wire != 2 {
                        None
                    } else {
                        match spec_len_delim(b, e) {
                            None => None,
                            Some((s, t)) => match params_from(b.subrange(s, t), 0, empty_params()) {
                                None => None,
                                Some(p) => payload_from(b, t, acc.push(p)),
                            },
                        }
                    }
                } else {
                    match spec_skip(b, e, wire, tag, 100) {
                        None => None,
                        Some(n) => payload_from(b, e + n, acc),
                    }
                }
            },
        }
    }
}

/// The accounts that a whole `MigrationPayload` message holds, or `None` where
/// the bytes are not one.
pub open spec fn spec_payload(b: Seq<u8>) -> Option<Seq<ParamsView>> {
    payload_from(b, 0, Seq::empty())
}

/// `std::str::from_utf8`: the text where the bytes are UTF-8 (the standard
/// library documents that it checks exactly that), as an owned string.
#[verifier::external_body]
fn utf8_string(bytes: &[u8]) -> (r: Option<String>)
    ensures
        match r {
            Some(s) => utf8_text(bytes@) == Some(s@),
            None => utf8_text(bytes@) is None,
        },
{
    match std::str::from_utf8(bytes) {
        Ok(s) => Some(String::from(s)),
        Err(_) => None,
    }
}

/// Reads a whole `OtpParameters` message (see `params_from`).
pub fn decode_params(b: &[u8]) -> (r: Option<OtpParameters>)
    ensures
        match r {
            Some(p) => params_from(b@, 0, empty_params()) == Some(p@),
            None => params_from(b@, 0, empty_params()) is None,
        },
{
    let mut acc = OtpParameters {
        secret: Vec::new(),
        name: String::new(),
        issuer: String::new(),
        algorithm: 0,
        digits: 0,
        otp_type: 0,
    };
    assert(acc@ == empty_params());
    let mut pos: usize = 0;
    loop
        invariant
            pos <= b.len(),
            params_from(b@, 0, empty_params()) == params_from(b@, pos as int, acc@),
        decreases room(b@, pos as int),
    {
        if pos == b.len() {
            return Some(acc);
        }
        proof {
            lemma_key_bounds(b@, pos as int);
        }
        let (t, w, e) = match decode_key(b, pos) {
            Some(k) => k,
            None => return None,
        };
        proof {
            lemma_len_delim_bounds(b@, e as int);
            lemma_varint_bounds(b@, e as int);
            lemma_skip_bounds(b@, e as int, w as int, t as int, 99);
        }
        if 1 <= t && t <= 3 {
            if w != 2 {
                return None;
            }
            let (s, f) = match decode_len_delim(b, e) {
                Some(x) => x,
                None => return None,
            };
            let bytes = vstd::slice::slice_subrange(b, s, f);
            if t == 1 {
                acc.secret = vstd::slice::slice_to_vec(bytes);
            } else {
                let text = match utf8_string(bytes) {
                    Some(x) => x,
                    None => return None,
                };
                if t == 2 {
                    acc.name = text;
                } else {
                    acc.issuer = text;
                }
            }
            pos = f;
        } else if 4 <= t && t <= 6 {
            if w != 0 {
                return None;
            }
            let (v, f) = match decode_varint(b, e) {
                Some(x) => x,
                None => return None,
            };
            let x = v as i32;
            if t == 4 {
                acc.algorithm = x;
            } else if t == 5 {
                acc.digits = x;
            } else {
                acc.otp_type = x;
            }
            pos = f;
        } else {
            let n = match skip_field(b, e, w, t, 99) {
                Some(n) => n,
                None => return None,
            };
            pos = e + n;
        }
    }
}

/// Reads a whole `MigrationPayload` message (see `spec_payload`); bytes that
/// are not one are refused with `InvalidUri("bad protobuf payload")`.
pub fn decode_payload(bytes: &[u8]) -> (r: Result<MigrationPayload, TotpError>)
    ensures
        match r {
            Ok(p) => spec_payload(bytes@) == Some(p@),
            Err(e) => spec_payload(bytes@) is None && e@ == ErrorView::InvalidUri(
                "bad protobuf payload"@,
            ),
        },
{
    let mut acc: Vec<OtpParameters> = Vec::new();
    let mut pos: usize = 0;
    assert(params_views(acc@) =~= Seq::<ParamsView>::empty());
    loop
        invariant
            pos <= bytes.len(),
            spec_payload(bytes@) == payload_from(bytes@, pos as int, params_views(acc@)),
        decreases room(bytes@, pos as int),
    {
        if pos == bytes.len() {
            return Ok(MigrationPayload { otp_parameters: acc });
        }
        proof {
            lemma_key_bounds(bytes@, pos as int);
        }
        let (t, w, e) = match decode_key(bytes, pos) {
            Some(k) => k,
            None => return Err(TotpError::InvalidUri("bad protobuf payload")),
        };
        proof {
            lemma_len_delim_bounds(bytes@, e as int);
            lemma_skip_bounds(bytes@, e as int, w as int, t as int, 100);
        }
        if t == 1 {
            if w != 2 {
                return Err(TotpError::InvalidUri("bad protobuf payload"));
            }
            let (s, f) = match decode_len_delim(bytes, e) {
                Some(x) => x,
                None => return Err(TotpError::InvalidUri("bad protobuf payload")),
            };
            let p = match decode_params(vstd::slice::slice_subrange(bytes, s, f)) {
                Some(p) => p,
                None => return Err(TotpError::InvalidUri("bad protobuf payload")),
            };
            let ghost before = acc@;
            acc.push(p);
            assert(params_views(acc@) =~= params_views(before).push(p@));
            pos = f;
        } else {
            let n = match skip_field(bytes, e, w, t, 100) {
                Some(n) => n,
                None => return Err(TotpError::InvalidUri("bad protobuf payload")),
            };
            pos = e + n;
        }
    }
}

// ---------------------------------------------------------------------------
// From exported accounts to entries
// ---------------------------------------------------------------------------

/// Google Authenticator's algorithm numbers: 2 is SHA-256, 3 is SHA-512, and
/// 1 (SHA-1) or anything else is SHA-1.
pub open spec fn spec_parse_algorithm(value: i32) -> Algorithm {
    if value == 2 {
        Algorithm::SHA256
    } else if value == 3 {
        Algorithm::SHA512
    } else {
        Algorithm::SHA1
    }
}

/// Google Authenticator's digit counts: 2 is eight digits, 1 (six) or anything
/// else is six.
pub open spec fn spec_parse_digits(value: i32) -> u8 {
    if value == 2 {
        8
    } else {
        6
    }
}

pub fn parse_algorithm(value: i32) -> (r: Algorithm)
    ensures
        r == spec_parse_algorithm(value),
{
    if value == 2 {
        Algorithm::SHA256
    } else if value == 3 {
        Algorithm::SHA512
    } else {
        Algorithm::SHA1
    }
}

pub fn parse_digits(value: i32) -> (r: u8)
    ensures
        r == spec_parse_digits(value),
{
    if value == 2 {
        8
    } else {
        6
    }
}

/// The entry an exported account becomes: the raw secret re-encoded as Base32
/// (RFC 4648, no padding), an empty issuer read as none, and a period of 30
/// seconds (the export does not carry one).
pub open spec fn spec_convert(p: ParamsView) -> EntryView {
    EntryView {
        name: p.name,
        issuer: if p.issuer.len() == 0 {
            None
        } else {
            Some(p.issuer)
        },
        secret: base32_encoded(p.secret),
        digits: spec_parse_digits(p.digits),
        period: 30,
        algorithm: spec_parse_algorithm(p.algorithm),
    }
}

/// Makes the entry of an exported account (see `spec_convert`); it never
/// fails, and its secret is canonical Base32 (`normalize_secret` gives it back
/// unchanged).
pub fn convert_entry(p: &OtpParameters) -> (r: Result<TotpEntry, TotpError>)
    ensures
        r matches Ok(e) && e@ == spec_convert(p@) && all_base32(e.secret@)
            && crate::totp::spec_normalize_secret(e.secret@) == Ok::<Seq<char>, ErrorView>(e.secret@),
{
    let secret = base32_encode(p.secret.as_slice());
    proof {
        crate::totp::lemma_normalized_base32(secret@);
    }
    let issuer = if p.issuer.as_str().is_empty() {
        None
    } else {
        Some(p.issuer.clone())
    };
    Ok(
        TotpEntry {
            name: p.name.clone(),
            issuer,
            secret,
            digits: parse_digits(p.digits),
            period: 30,
            algorithm: parse_algorithm(p.algorithm),
        },
    )
}

/// The TOTP accounts (kind 2) of an export, in order, as entries; HOTP and
/// other kinds are left out.
pub open spec fn totp_entries(ps: Seq<ParamsView>) -> Seq<EntryView>
    decreases ps.len(),
{
    if ps.len() == 0 {
        Seq::empty()
    } else {
        let before = totp_entries(ps.drop_last());
        if ps.last().otp_type == 2 {
            before.push(spec_convert(ps.last()))
        } else {
            before
        }
    }
}

/// The entries of a list, each by its view.
pub open spec fn entry_views(v: Seq<TotpEntry>) -> Seq<EntryView> {
    v.map_values(|e: TotpEntry| e@)
}

/// The value of the first `data=` parameter among the parts of a query.
pub open spec fn data_value(parts: Seq<Seq<char>>) -> Option<Seq<char>>
    decreases parts.len(),
{
    if parts.len() == 0 {
        None
    } else {
        match strip_prefix(parts[0], "data="@) {
            Some(v) => Some(v),
            None => data_value(parts.drop_first()),
        }
    }
}

/// The payload bytes of a migration URI: after the
/// `otpauth-migration://offline?` prefix, the query is split at `&`; the first
/// `data=` parameter is percent-decoded and its text Base64-decoded.
pub open spec fn spec_extract_data(uri: Seq<char>) -> Result<Seq<u8>, ErrorView> {
    match strip_prefix(uri, "otpauth-migration://offline?"@) {
        None => Err(ErrorView::InvalidUri("missing otpauth-migration://offline? prefix"@)),
        Some(query) => match data_value(split(query, '&')) {
            None => Err(ErrorView::InvalidUri("missing data param"@)),
            Some(d) => match url_decode(d) {
                None => Err(ErrorView::InvalidUri("bad data encoding"@)),
                Some(text) => match base64_decoded(encode_utf8(text)) {
                    None => Err(ErrorView::InvalidUri("bad base64 in data param"@)),
                    Some(bytes) => Ok(bytes),
                },
            },
        },
    }
}

/// What `parse` gives for a migration URI: its payload's TOTP accounts as
/// entries, or the first error met.
pub open spec fn spec_parse(uri: Seq<char>) -> Result<Seq<EntryView>, ErrorView> {
    match spec_extract_data(uri) {
        Err(e) => Err(e),
        Ok(bytes) => match spec_payload(bytes) {
            None => Err(ErrorView::InvalidUri("bad protobuf payload"@)),
            Some(ps) => Ok(totp_entries(ps)),
        },
    }
}

/// Extracts and decodes the payload bytes of a migration URI (see
/// `spec_extract_data`).
pub fn extract_data(uri: &str) -> (r: Result<Vec<u8>, TotpError>)
    ensures
        match r {
            Ok(v) => spec_extract_data(uri@) == Ok::<Seq<u8>, ErrorView>(v@),
            Err(e) => spec_extract_data(uri@) == Err::<Seq<u8>, ErrorView>(e@),
        },
{
    let cs = chars_of(uri);
    let prefix = chars_of("otpauth-migration://offline?");
    let query = match strip_prefix_chars(&cs, &prefix) {
        Some(q) => q,
        None => return Err(TotpError::InvalidUri("missing otpauth-migration://offline? prefix")),
    };
    let parts = split_chars(&query, '&');
    let key = chars_of("data=");
    let mut found: Option<Vec<char>> = None;
    let mut i: usize = 0;
    assert(views(parts@).skip(0) =~= views(parts@));
    while i < parts.len()
        invariant_except_break
            found is None,
        invariant
            i <= parts.len(),
            key@ == "data="@,
            data_value(views(parts@)) == data_value(views(parts@).skip(i as int)),
        ensures
            match found {
                Some(v) => data_value(views(parts@)) == Some(v@),
                None => i == parts.len(),
            },
        decreases parts.len() - i,
    {
        let ghost rest = views(parts@).skip(i as int);
        assert(rest[0] == parts@[i as int]@);
        assert(rest.drop_first() =~= views(parts@).skip(i + 1));
        match strip_prefix_chars(&parts[i], &key) {
            Some(v) => {
                found = Some(v);
                break;
            },
            None => {},
        }
        i = i + 1;
    }
    let value = match found {
        Some(v) => v,
        None => {
            assert(views(parts@).skip(i as int) =~= Seq::<Seq<char>>::empty());
            return Err(TotpError::InvalidUri("missing data param"));
        },
    };
    let text = match url_decode_str(string_of(&value).as_str()) {
        Some(t) => t,
        None => return Err(TotpError::InvalidUri("bad data encoding")),
    };
    match base64_decode(text.as_str().as_bytes()) {
        Some(bytes) => Ok(bytes),
        None => Err(TotpError::InvalidUri("bad base64 in data param")),
    }
}

/// Reads a Google Authenticator export URI (`otpauth-migration://offline?data=...`)
/// into entries; HOTP accounts are left out (see `spec_parse`).
pub fn parse(uri: &str) -> (r: Result<Vec<TotpEntry>, TotpError>)
    ensures
        match r {
            Ok(v) => spec_parse(uri@) == Ok::<Seq<EntryView>, ErrorView>(entry_views(v@)),
            Err(e) => spec_parse(uri@) == Err::<Seq<EntryView>, ErrorView>(e@),
        },
{
    let data = extract_data(uri)?;
    let payload = decode_payload(data.as_slice())?;
    let ps = &payload.otp_parameters;
    let mut out: Vec<TotpEntry> = Vec::new();
    let mut i: usize = 0;
    assert(entry_views(out@) =~= totp_entries(payload@.take(0)));
    while i < ps.len()
        invariant
            i <= ps.len(),
            payload@ == params_views(ps@),
            entry_views(out@) == totp_entries(payload@.take(i as int)),
        decreases ps.len() - i,
    {
        assert(payload@.take(i + 1).drop_last() =~= payload@.take(i as int));
        assert(payload@.take(i + 1).last() == ps@[i as int]@);
        if ps[i].otp_type == 2 {
            let e = match convert_entry(&ps[i]) {
                Ok(e) => e,
                Err(err) => return Err(err),
            };
            let ghost before = out@;
            out.push(e);
            assert(entry_views(out@) =~= entry_views(before).push(e@));
        }
        i = i + 1;
    }
    assert(payload@.take(ps.len() as int) =~= payload@);
    Ok(out)
}

/// Every entry read from an export has a 30-second period and six or eight
/// digits, and an issuer only where it is not empty; there are no more
/// entries than accounts in the export.
pub proof fn lemma_migration_entries(ps: Seq<ParamsView>)
    ensures
        totp_entries(ps).len() <= ps.len(),
        forall|i: int|
            0 <= i < totp_entries(ps).len() ==> {
                let e = #[trigger] totp_entries(ps)[i];
                &&& e.period == 30
                &&& e.digits == 6 || e.digits == 8
                &&& e.issuer matches Some(x) ==> x.len() > 0
            },
    decreases ps.len(),
{
    if ps.len() > 0 {
        lemma_migration_entries(ps.drop_last());
        let before = totp_entries(ps.drop_last());
        assert forall|i: int| 0 <= i < totp_entries(ps).len() implies {
            let e = #[trigger] totp_entries(ps)[i];
            &&& e.period == 30
            &&& e.digits == 6 || e.digits == 8
            &&& e.issuer matches Some(x) ==> x.len() > 0
        } by {
            if i < before.len() {
                assert(totp_entries(ps)[i] == before[i]);
            }
        }
    }
}

} // verus!
