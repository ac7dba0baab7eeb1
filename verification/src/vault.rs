//! Password-encrypted vault files: the header layout, key derivation with
//! Argon2id and AES-256-GCM encryption.
use aes_gcm::aead::rand_core::RngCore;
use aes_gcm::aead::Aead;
use aes_gcm::KeyInit;
use crate::totp::{opt_view, EntryView, TotpEntry, TotpError, res_view, spec_new_entry, error_message};
use vstd::prelude::*;

verus! {

/// The extension of vault files.
pub const EXTENSION_NAME: &'static str = ".2fa";

pub const VERSION: u8 = 1;

pub const ALGO_AES256GCM: u8 = 0x01;

pub const SALT_LEN: usize = 32;

pub const NONCE_LEN: usize = 12;

pub const TAG_LEN: usize = 16;

pub const ARGON2_MEM_KB: u32 = 19_456;

pub const ARGON2_ITERS: u32 = 2;

pub const ARGON2_LANES: u32 = 1;

/// Magic (4), version (1), algorithm (1), three Argon2 costs (4 each), salt
/// and nonce: the ciphertext starts at this offset.
pub const HEADER_LEN: usize = 4 + 1 + 1 + 4 + 4 + 4 + SALT_LEN + NONCE_LEN;

#[verifier::external_type_specification]
#[verifier::external_body]
pub struct ExPathBuf(std::path::PathBuf);

#[verifier::external_type_specification]
#[verifier::external_body]
pub struct ExIoError(std::io::Error);

/// The bytes `ENCR` that open every vault file.
pub open spec fn magic() -> Seq<u8> {
    seq![69u8, 78u8, 67u8, 82u8]
}

/// The little-endian bytes of a `u32` (`u32::to_le_bytes`).
pub open spec fn le32(x: u32) -> Seq<u8> {
    seq![
        (x % 256) as u8,
        ((x / 256) % 256) as u8,
        ((x / 65536) % 256) as u8,
        (x / 16777216) as u8,
    ]
}

/// The `u32` that four little-endian bytes hold (`u32::from_le_bytes`).
pub open spec fn le32_value(b: Seq<u8>) -> u32 {
    (b[0] + b[1] * 256 + b[2] * 65536 + b[3] * 16777216) as u32
}

/// The file layout: magic, version, algorithm, the Argon2 memory, time and
/// parallelism costs, the salt, the nonce, then the ciphertext.
pub open spec fn spec_frame(salt: Seq<u8>, nonce: Seq<u8>, ciphertext: Seq<u8>) -> Seq<u8> {
    magic() + seq![VERSION, ALGO_AES256GCM] + le32(ARGON2_MEM_KB) + le32(ARGON2_ITERS) + le32(
        ARGON2_LANES,
    ) + salt + nonce + ciphertext
}

/// The message with which `argon2::Params::new(m, t, p, Some(32))` refuses
/// its costs (checked in this order), or `None` where it accepts them. The
/// product `8 * p` is taken modulo 2^32, as the crate's `u32` arithmetic does
/// where it does not stop on overflow.
pub open spec fn argon2_params_error(m: u32, t: u32, p: u32) -> Option<Seq<char>> {
    if m < 8 {
        Some("memory cost is too small"@)
    } else if (m as nat) < ((p as nat) * 8) % 0x1_0000_0000 {
        Some("memory cost is too small"@)
    } else if t < 1 {
        Some("time cost is too small"@)
    } else if p < 1 {
        Some("not enough threads"@)
    } else if p > 0xFF_FFFF {
        Some("too many threads"@)
    } else {
        None
    }
}

/// The message with which Argon2id key derivation fails, or `None`: the cost
/// checks, then the password and salt lengths that `hash_password_into` checks.
pub open spec fn derive_error(password_len: nat, salt_len: nat, m: u32, t: u32, p: u32) -> Option<
    Seq<char>,
> {
    match argon2_params_error(m, t, p) {
        Some(e) => Some(e),
        None => if password_len > 0xFFFF_FFFF {
            Some("password is too long"@)
        } else if salt_len < 8 {
            Some("salt is too short"@)
        } else if salt_len > 0xFFFF_FFFF {
            Some("salt is too long"@)
        } else {
            None
        },
    }
}

/// The 32-byte Argon2id (version 0x13) hash of a password with a salt and the
/// given memory, time and parallelism costs.
pub uninterp spec fn argon2id_key(password: Seq<u8>, salt: Seq<u8>, m: u32, t: u32, p: u32) -> Seq<u8>;

/// AES-256-GCM encryption (no associated data): ciphertext followed by the tag.
pub uninterp spec fn aes256gcm_seal(key: Seq<u8>, nonce: Seq<u8>, plaintext: Seq<u8>) -> Seq<u8>;

/// AES-256-GCM decryption (no associated data): the plaintext, or `None`
/// where the tag does not authenticate the input.
pub uninterp spec fn aes256gcm_open(key: Seq<u8>, nonce: Seq<u8>, ciphertext: Seq<u8>) -> Option<
    Seq<u8>,
>;

/// Argon2id key derivation: `argon2::Params::new(m, t, p, Some(32))`, then
/// `Argon2::new(Argon2id, V0x13, params).hash_password_into` into 32 bytes.
/// As the crate's source shows, it fails exactly where `derive_error` gives a
/// message (the error's `Display` text); the key is named `argon2id_key`.
/// `Params::new` multiplies `p` by 8 in `u32`, so `p` is kept below 2^29.
#[verifier::external_body]
fn argon2id_derive(password: &[u8], salt: &[u8], m: u32, t: u32, p: u32) -> (r: Result<
    [u8; 32],
    String,
>)
    requires
        p <= 0x1FFF_FFFF,
    ensures
        match r {
            Ok(k) => derive_error(password@.len(), salt@.len(), m, t, p) is None && k@
                == argon2id_key(password@, salt@, m, t, p),
            Err(msg) => derive_error(password@.len(), salt@.len(), m, t, p) == Some(msg@),
        },
{
    let params = argon2::Params::new(m, t, p, Some(32)).map_err(|e| e.to_string())?;
    let mut key = [0u8; 32];
    argon2::Argon2::new(argon2::Algorithm::Argon2id, argon2::Version::V0x13, params)
        .hash_password_into(password, salt, &mut key)
        .map_err(|e| e.to_string())?;
    Ok(key)
}

/// `Aes256Gcm::new(key).encrypt(nonce, plaintext)`. As the source shows, it
/// fails only for plaintexts over 2^36 bytes; the output is the ciphertext
/// (as long as the plaintext) followed by a 16-byte tag, and, as an AEAD,
/// decrypting it under the same key and nonce gives the plaintext back.
#[verifier::external_body]
fn aes_encrypt(key: &[u8; 32], nonce: &[u8; 12], plaintext: &[u8]) -> (r: Option<Vec<u8>>)
    ensures
        r is Some <==> plaintext@.len() <= 0x10_0000_0000,
        r matches Some(c) ==> {
            &&& c@ == aes256gcm_seal(key@, nonce@, plaintext@)
            &&& c@.len() == plaintext@.len() + 16
            &&& aes256gcm_open(key@, nonce@, c@) == Some(plaintext@)
        },
{
    let cipher = aes_gcm::Aes256Gcm::new(aes_gcm::Key::<aes_gcm::Aes256Gcm>::from_slice(key));
    cipher.encrypt(aes_gcm::Nonce::from_slice(nonce), plaintext).ok()
}

/// `Aes256Gcm::new(key).decrypt(nonce, ciphertext)`: the plaintext, or `None`
/// where the tag does not authenticate the input (named `aes256gcm_open`).
#[verifier::external_body]
fn aes_decrypt(key: &[u8; 32], nonce: &[u8; 12], ciphertext: &[u8]) -> (r: Option<Vec<u8>>)
    ensures
        match r {
            Some(p) => aes256gcm_open(key@, nonce@, ciphertext@) == Some(p@),
            None => aes256gcm_open(key@, nonce@, ciphertext@) is None,
        },
{
    let cipher = aes_gcm::Aes256Gcm::new(aes_gcm::Key::<aes_gcm::Aes256Gcm>::from_slice(key));
    cipher.decrypt(aes_gcm::Nonce::from_slice(nonce), ciphertext).ok()
}

/// Fills the buffer from the operating system's random source
/// (`OsRng.fill_bytes`). Nothing is stated of the bytes.
#[verifier::external_body]
fn fill_random<const N: usize>(buf: &mut [u8; N]) {
    aes_gcm::aead::OsRng.fill_bytes(buf);
}

/// A key derived from a password.
pub struct DerivedKey(pub [u8; 32]);

/// Why a vault could not be read or written.
#[derive(Debug)]
pub enum VaultError {
    NotFound,
    AccountNotFound(String),
    TooShort,
    BadMagic,
    UnsupportedVersion(u8),
    UnsupportedAlgorithm(u8),
    WrongPassword,
    Io(std::io::Error),
    SerializationFailed(String),
    CryptoError(String),
    EncryptionFailed,
}

pub enum VaultErrorView {
    NotFound,
    AccountNotFound(Seq<char>),
    TooShort,
    BadMagic,
    UnsupportedVersion(u8),
    UnsupportedAlgorithm(u8),
    WrongPassword,
    Io,
    SerializationFailed(Seq<char>),
    CryptoError(Seq<char>),
    EncryptionFailed,
}

impl View for VaultError {
    type V = VaultErrorView;

    open spec fn view(&self) -> VaultErrorView {
        match self {
            VaultError::NotFound => VaultErrorView::NotFound,
            VaultError::AccountNotFound(s) => VaultErrorView::AccountNotFound(s@),
            VaultError::TooShort => VaultErrorView::TooShort,
            VaultError::BadMagic => VaultErrorView::BadMagic,
            VaultError::UnsupportedVersion(v) => VaultErrorView::UnsupportedVersion(*v),
            VaultError::UnsupportedAlgorithm(a) => VaultErrorView::UnsupportedAlgorithm(*a),
            VaultError::WrongPassword => VaultErrorView::WrongPassword,
            VaultError::Io(_) => VaultErrorView::Io,
            VaultError::SerializationFailed(s) => VaultErrorView::SerializationFailed(s@),
            VaultError::CryptoError(s) => VaultErrorView::CryptoError(s@),
            VaultError::EncryptionFailed => VaultErrorView::EncryptionFailed,
        }
    }
}

/// The key that `derive_key_with_params` derives, or the message with which it fails.
pub open spec fn spec_derive_key(password: Seq<u8>, salt: Seq<u8>, m: u32, t: u32, p: u32) -> Result<
    Seq<u8>,
    Seq<char>,
> {
    match derive_error(password.len(), salt.len(), m, t, p) {
        Some(e) => Err(e),
        None => Ok(argon2id_key(password, salt, m, t, p)),
    }
}

/// What reading a vault file's bytes gives: the checks of the header in
/// order, then key derivation with the costs and salt it records, then
/// authenticated decryption of the rest.
pub open spec fn spec_decrypt(data: Seq<u8>, password: Seq<u8>) -> Result<Seq<u8>, VaultErrorView> {
    if data.len() < HEADER_LEN + TAG_LEN + 1 {
        Err(VaultErrorView::TooShort)
    } else if data.take(4) != magic() {
        Err(VaultErrorView::BadMagic)
    } else if data[4] != VERSION {
        Err(VaultErrorView::UnsupportedVersion(data[4]))
    } else if data[5] != ALGO_AES256GCM {
        Err(VaultErrorView::UnsupportedAlgorithm(data[5]))
    } else {
        let m = le32_value(data.subrange(6, 10));
        let t = le32_value(data.subrange(10, 14));
        let p = le32_value(data.subrange(14, 18));
        let salt = data.subrange(18, 50);
        let nonce = data.subrange(50, 62);
        match spec_derive_key(password, salt, m, t, p) {
            Err(msg) => Err(VaultErrorView::CryptoError(msg)),
            Ok(key) => match aes256gcm_open(key, nonce, data.skip(62)) {
                None => Err(VaultErrorView::WrongPassword),
                Some(plain) => Ok(plain),
            },
        }
    }
}

fn read_le32(data: &[u8], off: usize) -> (r: u32)
    requires
        off + 4 <= data@.len(),
    ensures
        r == le32_value(data@.subrange(off as int, off + 4)),
{
    let b0 = data[off] as u32;
    let b1 = data[off + 1] as u32;
    let b2 = data[off + 2] as u32;
    let b3 = data[off + 3] as u32;
    b0 + b1 * 256 + b2 * 65536 + b3 * 16777216
}

fn push_le32(out: &mut Vec<u8>, x: u32)
    ensures
        final(out)@ == old(out)@ + le32(x),
{
    out.push((x % 256) as u8);
    out.push(((x / 256) % 256) as u8);
    out.push(((x / 65536) % 256) as u8);
    out.push((x / 16777216) as u8);
    assert(out@ =~= old(out)@ + le32(x));
}

fn push_all(out: &mut Vec<u8>, src: &[u8])
    ensures
        final(out)@ == old(out)@ + src@,
{
    let mut i: usize = 0;
    while i < src.len()
        invariant
            i <= src@.len(),
            out@ == old(out)@ + src@.take(i as int),
        decreases src@.len() - i,
    {
        out.push(src[i]);
        i = i + 1;
        assert(out@ =~= old(out)@ + src@.take(i as int));
    }
    assert(src@.take(src@.len() as int) =~= src@);
}

/// Reading back a laid-out file parses the header that `spec_frame` wrote.
pub proof fn lemma_frame_decrypt(salt: Seq<u8>, nonce: Seq<u8>, ciphertext: Seq<u8>, password: Seq<u8>)
    requires
        salt.len() == SALT_LEN,
        nonce.len() == NONCE_LEN,
        ciphertext.len() > TAG_LEN,
    ensures
        spec_decrypt(spec_frame(salt, nonce, ciphertext), password) == match spec_derive_key(
            password,
            salt,
            ARGON2_MEM_KB,
            ARGON2_ITERS,
            ARGON2_LANES,
        ) {
            Err(msg) => Err(VaultErrorView::CryptoError(msg)),
            Ok(key) => match aes256gcm_open(key, nonce, ciphertext) {
                None => Err(VaultErrorView::WrongPassword),
                Some(plain) => Ok(plain),
            },
        },
{
    let d = spec_frame(salt, nonce, ciphertext);
    assert(d.take(4) =~= magic());
    assert(d.subrange(6, 10) =~= le32(ARGON2_MEM_KB));
    assert(d.subrange(10, 14) =~= le32(ARGON2_ITERS));
    assert(d.subrange(14, 18) =~= le32(ARGON2_LANES));
    assert(le32_value(le32(ARGON2_MEM_KB)) == ARGON2_MEM_KB);
    assert(le32_value(le32(ARGON2_ITERS)) == ARGON2_ITERS);
    assert(le32_value(le32(ARGON2_LANES)) == ARGON2_LANES);
    assert(d.subrange(18, 50) =~= salt);
    assert(d.subrange(50, 62) =~= nonce);
    assert(d.skip(62) =~= ciphertext);
}

/// An upper-case hexadecimal digit.
pub open spec fn hex_char(d: nat) -> char {
    if d < 10 {
        crate::text::digit_char(d)
    } else if d == 10 {
        'A'
    } else if d == 11 {
        'B'
    } else if d == 12 {
        'C'
    } else if d == 13 {
        'D'
    } else if d == 14 {
        'E'
    } else {
        'F'
    }
}

fn hex_digit_char(d: u8) -> (c: char)
    requires
        d < 16,
    ensures
        c == hex_char(d as nat),
{
    if d < 10 {
        crate::text::digit_to_char(d as u64)
    } else if d == 10 {
        'A'
    } else if d == 11 {
        'B'
    } else if d == 12 {
        'C'
    } else if d == 13 {
        'D'
    } else if d == 14 {
        'E'
    } else {
        'F'
    }
}

/// The message that `Display` writes for a vault error (for `Io`, the
/// prefix that comes before the I/O error's own text).
pub open spec fn vault_error_message(e: VaultErrorView) -> Seq<char> {
    match e {
        VaultErrorView::NotFound => "vault file not found"@,
        VaultErrorView::TooShort => "file too short to be a valid vault"@,
        VaultErrorView::BadMagic => "invalid magic bytes — not a vault file"@,
        VaultErrorView::UnsupportedVersion(v) => "unsupported vault version: "@ + crate::text::decimal(
            v as nat,
        ),
        VaultErrorView::UnsupportedAlgorithm(a) => "unsupported algorithm id: 0x"@ + seq![
            hex_char(a as nat / 16),
            hex_char(a as nat % 16),
        ],
        VaultErrorView::WrongPassword => "wrong password or file is corrupted"@,
        VaultErrorView::Io => "io error: "@,
        VaultErrorView::CryptoError(m) => "crypto error: "@ + m,
        VaultErrorView::SerializationFailed(m) => "serialization failed: "@ + m,
        VaultErrorView::EncryptionFailed => "encryption failed"@,
        VaultErrorView::AccountNotFound(m) => "Account '"@ + m + "' not found"@,
    }
}

impl VaultError {
    /// The error's message (what `Display` writes).
    pub fn to_string(&self) -> (r: String)
        ensures
            self is Io ==> vault_error_message(self@).len() <= r@.len() && r@.take(
                vault_error_message(self@).len() as int,
            ) == vault_error_message(self@),
            !(self is Io) ==> r@ == vault_error_message(self@),
    {
        match self {
            VaultError::NotFound => String::from_str("vault file not found"),
            VaultError::TooShort => String::from_str("file too short to be a valid vault"),
            VaultError::BadMagic => String::from_str("invalid magic bytes — not a vault file"),
            VaultError::UnsupportedVersion(v) => {
                let mut s = String::from_str("unsupported vault version: ");
                let d = crate::text::decimal_chars(*v as u64);
                let ds = crate::text::string_of(&d);
                s.append(ds.as_str());
                s
            },
            VaultError::UnsupportedAlgorithm(a) => {
                let mut s = String::from_str("unsupported algorithm id: 0x");
                crate::text::push_char(&mut s, hex_digit_char(*a / 16));
                crate::text::push_char(&mut s, hex_digit_char(*a % 16));
                s
            },
            VaultError::WrongPassword => String::from_str("wrong password or file is corrupted"),
            VaultError::Io(e) => {
                let mut s = String::from_str("io error: ");
                let t = e.to_string();
                let ghost pre = s@;
                s.append(t.as_str());
                assert(s@.take(pre.len() as int) =~= pre);
                s
            },
            VaultError::CryptoError(e) => {
                let mut s = String::from_str("crypto error: ");
                s.append(e.as_str());
                s
            },
            VaultError::SerializationFailed(e) => {
                let mut s = String::from_str("serialization failed: ");
                s.append(e.as_str());
                s
            },
            VaultError::EncryptionFailed => String::from_str("encryption failed"),
            VaultError::AccountNotFound(e) => {
                let mut s = String::from_str("Account '");
                s.append(e.as_str());
                s.append("' not found");
                s
            },
        }
    }
}

/// What a vault stores of an account: its name, issuer and secret.
#[derive(Debug)]
pub struct VaultEntry {
    pub name: String,
    pub issuer: Option<String>,
    pub secret: String,
}

impl VaultEntry {
    /// The stored form of an account.
    pub fn from_totp(t: &TotpEntry) -> (r: Self)
        ensures
            r.name@ == t.name@,
            opt_view(r.issuer) == opt_view(t.issuer),
            r.secret@ == t.secret@,
    {
        VaultEntry {
            name: t.name.clone(),
            issuer: match &t.issuer {
                Some(i) => Some(i.clone()),
                None => None,
            },
            secret: t.secret.clone(),
        }
    }
}

/// The account that a stored entry loads as (`TotpEntry::from_entry`).
pub open spec fn spec_load_entry(name: Seq<char>, issuer: Option<Seq<char>>, secret: Seq<char>) -> Result<
    EntryView,
    crate::totp::ErrorView,
> {
    match spec_new_entry(secret, name) {
        Ok(e) => Ok(EntryView { issuer, ..e }),
        Err(err) => Err(err),
    }
}

/// What a vault stores of an account loads back as that account, with six
/// digits, a 30-second period and SHA-1 (what a vault does not store), where
/// its secret is canonical Base32.
pub proof fn lemma_store_load_roundtrip(e: EntryView)
    requires
        crate::codec::all_base32(e.secret),
    ensures
        spec_load_entry(e.name, e.issuer, e.secret) == Ok::<EntryView, crate::totp::ErrorView>(
            EntryView { digits: 6, period: 30, algorithm: crate::totp::Algorithm::SHA1, ..e },
        ),
{
    crate::totp::lemma_normalized_base32(e.secret);
}

/// Whether the stored entries before index `i` all load.
pub open spec fn loads_before(entries: Seq<VaultEntry>, i: int) -> bool {
    forall|j: int|
        0 <= j < i ==> #[trigger] spec_load_entry(
            entries[j].name@,
            opt_view(entries[j].issuer),
            entries[j].secret@,
        ) is Ok
}

/// Turns stored entries into accounts, in order; the first entry that does not
/// load makes the whole load fail with `SerializationFailed` and that error's
/// message.
pub fn entries_from_vault(entries: Vec<VaultEntry>) -> (r: Result<Vec<TotpEntry>, VaultError>)
    ensures
        match r {
            Ok(v) => {
                &&& v.len() == entries.len()
                &&& forall|i: int|
                    0 <= i < v.len() ==> spec_load_entry(
                        entries[i].name@,
                        opt_view(entries[i].issuer),
                        entries[i].secret@,
                    ) == Ok::<EntryView, crate::totp::ErrorView>(#[trigger] v[i]@)
            },
            Err(e) => exists|i: int|
                0 <= i < entries.len() && loads_before(entries@, i) && (#[trigger] spec_load_entry(
                    entries[i].name@,
                    opt_view(entries[i].issuer),
                    entries[i].secret@,
                ) matches Err(err) && e@ == VaultErrorView::SerializationFailed(
                    error_message(err),
                )),
        },
{
    let mut out: Vec<TotpEntry> = Vec::new();
    let mut i: usize = 0;
    while i < entries.len()
        invariant
            i <= entries.len(),
            out.len() == i,
            forall|k: int|
                0 <= k < i ==> spec_load_entry(
                    entries[k].name@,
                    opt_view(entries[k].issuer),
                    entries[k].secret@,
                ) == Ok::<EntryView, crate::totp::ErrorView>(#[trigger] out@[k]@),
        decreases entries.len() - i,
    {
        let e = &entries[i];
        let issuer = match &e.issuer {
            Some(s) => Some(s.clone()),
            None => None,
        };
        match TotpEntry::from_entry(e.secret.clone(), e.name.clone(), issuer) {
            Ok(t) => {
                out.push(t);
            },
            Err(err) => {
                let msg = err.to_string();
                proof {
                    assert forall|j: int| 0 <= j < i implies #[trigger] spec_load_entry(
                        entries[j].name@,
                        opt_view(entries[j].issuer),
                        entries[j].secret@,
                    ) is Ok by {
                        assert(spec_load_entry(
                            entries[j].name@,
                            opt_view(entries[j].issuer),
                            entries[j].secret@,
                        ) == Ok::<EntryView, crate::totp::ErrorView>(out@[j]@));
                    }
                    assert(loads_before(entries@, i as int));
                    assert(spec_load_entry(
                        entries[i as int].name@,
                        opt_view(entries[i as int].issuer),
                        entries[i as int].secret@,
                    ) == Err::<EntryView, crate::totp::ErrorView>(err@));
                }
                return Err(VaultError::SerializationFailed(msg));
            },
        }
        i = i + 1;
    }
    Ok(out)
}

/// The stored form of each account, in order.
pub fn vault_entries(accounts: &[TotpEntry]) -> (r: Vec<VaultEntry>)
    ensures
        r.len() == accounts.len(),
        forall|i: int|
            0 <= i < r.len() ==> {
                &&& (#[trigger] r[i]).name@ == accounts[i].name@
                &&& opt_view(r[i].issuer) == opt_view(accounts[i].issuer)
                &&& r[i].secret@ == accounts[i].secret@
            },
{
    let mut out: Vec<VaultEntry> = Vec::new();
    let mut i: usize = 0;
    while i < accounts.len()
        invariant
            i <= accounts.len(),
            out.len() == i,
            forall|k: int|
                0 <= k < i ==> {
                    &&& (#[trigger] out@[k]).name@ == accounts@[k].name@
                    &&& opt_view(out@[k].issuer) == opt_view(accounts@[k].issuer)
                    &&& out@[k].secret@ == accounts@[k].secret@
                },
        decreases accounts.len() - i,
    {
        out.push(VaultEntry::from_totp(&accounts[i]));
        i = i + 1;
    }
    out
}

/// The name of a vault's file: the vault name followed by `.2fa`.
pub fn vault_file_name(name: &str) -> (r: String)
    ensures
        r@ == name@ + ".2fa"@,
{
    let mut s = String::from_str(name);
    s.append(EXTENSION_NAME);
    s
}

/// `dirs::config_dir()`: the user's configuration directory, where the
/// platform has one. It depends on the environment: nothing is stated of it.
#[verifier::external_body]
fn config_dir() -> Option<std::path::PathBuf> {
    dirs::config_dir()
}

/// `PathBuf::from`.
#[verifier::external_body]
fn path_from(s: &str) -> std::path::PathBuf {
    std::path::PathBuf::from(s)
}

/// The path `base` with `name` joined to it, as `Path::join` makes it.
pub uninterp spec fn joined_path(base: std::path::PathBuf, name: Seq<char>) -> std::path::PathBuf;

/// Whether `path` is the file `file` in a directory `tufa` under some base
/// directory (see `Vault::dir`).
pub open spec fn in_vault_dir(path: std::path::PathBuf, file: Seq<char>) -> bool {
    exists|base: std::path::PathBuf| path == joined_path(#[trigger] joined_path(base, "tufa"@), file)
}

/// `Path::join`: a path made of `p` and `s` (named `joined_path`).
#[verifier::external_body]
fn path_join(p: &std::path::PathBuf, s: &str) -> (r: std::path::PathBuf)
    ensures
        r == joined_path(*p, s@),
{
    p.join(s)
}

/// A vault file.
#[derive(Debug)]
pub struct Vault {
    path: std::path::PathBuf,
}

impl Vault {
    /// Where the vault is stored.
    pub closed spec fn location(&self) -> std::path::PathBuf {
        self.path
    }

    /// A vault stored at the given path.
    pub fn with_path(path: std::path::PathBuf) -> (r: Self)
        ensures
            r.location() == path,
    {
        Vault { path }
    }

    /// The directory that holds the vaults: `tufa` under the configuration
    /// directory, or under the current directory where there is none.
    pub fn dir() -> (r: std::path::PathBuf)
        ensures
            exists|base: std::path::PathBuf| r == #[trigger] joined_path(base, "tufa"@),
    {
        Self::dir_in(config_dir())
    }

    /// The directory that holds the vaults, given what `dirs::config_dir`
    /// gave: `tufa` under the configuration directory where there is one;
    /// only where there is none, `tufa` under the current directory (`.`).
    pub fn dir_in(config: Option<std::path::PathBuf>) -> (r: std::path::PathBuf)
        ensures
            config matches Some(c) ==> r == joined_path(c, "tufa"@),
            exists|base: std::path::PathBuf| r == #[trigger] joined_path(base, "tufa"@),
    {
        let base = match config {
            Some(d) => d,
            None => path_from("."),
        };
        path_join(&base, "tufa")
    }

    /// The vault of the given name, in `dir()` (its file is `vault_file_name(name)`).
    pub fn new(name: &str) -> (r: Self)
        ensures
            in_vault_dir(r.location(), name@ + ".2fa"@),
    {
        Self::new_in(config_dir(), name)
    }

    /// The vault of the given name in `dir_in(config)`: where there is a
    /// configuration directory `c`, its file is `<name>.2fa` in `tufa` under
    /// `c`.
    pub fn new_in(config: Option<std::path::PathBuf>, name: &str) -> (r: Self)
        ensures
            config matches Some(c) ==> r.location() == joined_path(
                joined_path(c, "tufa"@),
                name@ + ".2fa"@,
            ),
            in_vault_dir(r.location(), name@ + ".2fa"@),
    {
        let file = vault_file_name(name);
        Vault { path: path_join(&Self::dir_in(config), file.as_str()) }
    }

    /// Where the vault is stored.
    pub fn path(&self) -> (r: &std::path::PathBuf)
        ensures
            *r == self.location(),
    {
        &self.path
    }

    /// Derives the vault key from a password and salt with the default costs.
    pub fn derive_key(&self, password: &[u8], salt: &[u8]) -> (r: Result<DerivedKey, VaultError>)
        ensures
            match r {
                Ok(k) => spec_derive_key(password@, salt@, ARGON2_MEM_KB, ARGON2_ITERS, ARGON2_LANES)
                    == Ok::<Seq<u8>, Seq<char>>(k.0@),
                Err(e) => spec_derive_key(password@, salt@, ARGON2_MEM_KB, ARGON2_ITERS, ARGON2_LANES)
                    matches Err(msg) && e@ == VaultErrorView::CryptoError(msg),
            },
    {
        self.derive_key_with_params(password, salt, ARGON2_MEM_KB, ARGON2_ITERS, ARGON2_LANES)
    }

    /// Derives a key with Argon2id (version 0x13) and the given memory (KiB),
    /// time and parallelism costs; a refusal becomes `CryptoError` with the
    /// crate's message.
    pub fn derive_key_with_params(
        &self,
        password: &[u8],
        salt: &[u8],
        mem_kb: u32,
        iters: u32,
        lanes: u32,
    ) -> (r: Result<DerivedKey, VaultError>)
        ensures
            match r {
                Ok(k) => spec_derive_key(password@, salt@, mem_kb, iters, lanes) == Ok::<
                    Seq<u8>,
                    Seq<char>,
                >(k.0@),
                Err(e) => spec_derive_key(password@, salt@, mem_kb, iters, lanes) matches Err(msg)
                    && e@ == VaultErrorView::CryptoError(msg),
            },
    {
        if lanes > 0x1FFF_FFFF {
            let msg = if mem_kb < 8 {
                String::from_str("memory cost is too small")
            } else if (mem_kb as u64) < ((lanes as u64) * 8) % 0x1_0000_0000 {
                String::from_str("memory cost is too small")
            } else if iters < 1 {
                String::from_str("time cost is too small")
            } else {
                String::from_str("too many threads")
            };
            return Err(VaultError::CryptoError(msg));
        }
        match argon2id_derive(password, salt, mem_kb, iters, lanes) {
            Ok(k) => Ok(DerivedKey(k)),
            Err(msg) => Err(VaultError::CryptoError(msg)),
        }
    }

    /// Lays out a vault file (see `spec_frame`).
    pub fn to_bytes(&self, salt: &[u8; SALT_LEN], nonce: &[u8; NONCE_LEN], ciphertext: &[u8]) -> (r:
        Vec<u8>)
        ensures
            r@ == spec_frame(salt@, nonce@, ciphertext@),
    {
        let mut out: Vec<u8> = Vec::new();
        out.push(69);
        out.push(78);
        out.push(67);
        out.push(82);
        out.push(VERSION);
        out.push(ALGO_AES256GCM);
        push_le32(&mut out, ARGON2_MEM_KB);
        push_le32(&mut out, ARGON2_ITERS);
        push_le32(&mut out, ARGON2_LANES);
        push_all(&mut out, salt.as_slice());
        push_all(&mut out, nonce.as_slice());
        push_all(&mut out, ciphertext);
        assert(out@ =~= spec_frame(salt@, nonce@, ciphertext@));
        out
    }

    /// Encrypts with a fresh random salt and nonce: derives the key with the
    /// default costs, seals the plaintext and lays out the file. Reading the
    /// result back with the same password gives the plaintext (where it is not
    /// empty: an empty plaintext makes a file too short to be read).
    pub fn encrypt(&self, plaintext: &[u8], password: &[u8]) -> (r: Result<Vec<u8>, VaultError>)
        ensures
            r is Ok <==> password@.len() <= 0xFFFF_FFFF && plaintext@.len() <= 0x10_0000_0000,
            r matches Ok(c) ==> c@.len() == HEADER_LEN + plaintext@.len() + TAG_LEN,
            r matches Err(e) ==> if password@.len() > 0xFFFF_FFFF {
                e@ == VaultErrorView::CryptoError("password is too long"@)
            } else {
                e@ == VaultErrorView::EncryptionFailed
            },
            r matches Ok(c) ==> exists|salt: Seq<u8>, nonce: Seq<u8>|
                {
                    &&& salt.len() == SALT_LEN
                    &&& nonce.len() == NONCE_LEN
                    &&& #[trigger] spec_frame(salt, nonce, aes256gcm_seal(
                        argon2id_key(password@, salt, ARGON2_MEM_KB, ARGON2_ITERS, ARGON2_LANES),
                        nonce,
                        plaintext@,
                    )) == c@
                },
            plaintext@.len() > 0 ==> (r matches Ok(c) ==> spec_decrypt(c@, password@) == Ok::<
                Seq<u8>,
                VaultErrorView,
            >(plaintext@)),
    {
        let mut salt = [0u8; SALT_LEN];
        let mut nonce_bytes = [0u8; NONCE_LEN];
        fill_random(&mut salt);
        fill_random(&mut nonce_bytes);
        let key = self.derive_key(password, salt.as_slice())?;
        let ciphertext = match aes_encrypt(&key.0, &nonce_bytes, plaintext) {
            Some(c) => c,
            None => return Err(VaultError::EncryptionFailed),
        };
        let out = self.to_bytes(&salt, &nonce_bytes, ciphertext.as_slice());
        proof {
            if plaintext@.len() > 0 {
                lemma_frame_decrypt(salt@, nonce_bytes@, ciphertext@, password@);
            }
        }
        Ok(out)
    }

    /// Reads a vault file's bytes with a password (see `spec_decrypt`).
    pub fn decrypt(&self, data: &[u8], password: &[u8]) -> (r: Result<Vec<u8>, VaultError>)
        ensures
            res_view(r) == spec_decrypt(data@, password@),
    {
        if data.len() < HEADER_LEN + TAG_LEN + 1 {
            return Err(VaultError::TooShort);
        }
        if data[0] != 69 || data[1] != 78 || data[2] != 67 || data[3] != 82 {
            proof {
                if data@.take(4) == magic() {
                    assert(data@.take(4)[0] == data@[0]);
                    assert(data@.take(4)[1] == data@[1]);
                    assert(data@.take(4)[2] == data@[2]);
                    assert(data@.take(4)[3] == data@[3]);
                }
            }
            return Err(VaultError::BadMagic);
        }
        assert(data@.take(4) =~= magic());
        let version = data[4];
        if version != VERSION {
            return Err(VaultError::UnsupportedVersion(version));
        }
        let algo_id = data[5];
        if algo_id != ALGO_AES256GCM {
            return Err(VaultError::UnsupportedAlgorithm(algo_id));
        }
        let mem_kb = read_le32(data, 6);
        let iters = read_le32(data, 10);
        let lanes = read_le32(data, 14);
        let mut salt = [0u8; SALT_LEN];
        let mut i: usize = 0;
        while i < SALT_LEN
            invariant
                i <= SALT_LEN,
                data@.len() >= HEADER_LEN + TAG_LEN + 1,
                forall|j: int| 0 <= j < i ==> salt@[j] == data@[18 + j],
            decreases SALT_LEN - i,
        {
            salt[i] = data[18 + i];
            i = i + 1;
        }
        let mut nonce = [0u8; NONCE_LEN];
        let mut i: usize = 0;
        while i < NONCE_LEN
            invariant
                i <= NONCE_LEN,
                data@.len() >= HEADER_LEN + TAG_LEN + 1,
                forall|j: int| 0 <= j < i ==> nonce@[j] == data@[50 + j],
            decreases NONCE_LEN - i,
        {
            nonce[i] = data[50 + i];
            i = i + 1;
        }
        assert(salt@ =~= data@.subrange(18, 50));
        assert(nonce@ =~= data@.subrange(50, 62));
        let ciphertext = vstd::slice::slice_subrange(data, HEADER_LEN, data.len());
        assert(ciphertext@ =~= data@.skip(62));
        let key = self.derive_key_with_params(password, salt.as_slice(), mem_kb, iters, lanes)?;
        match aes_decrypt(&key.0, &nonce, ciphertext) {
            Some(p) => Ok(p),
            None => Err(VaultError::WrongPassword),
        }
    }
}

} // verus!
