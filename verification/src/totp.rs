//! TOTP accounts: their secrets, their `otpauth://totp/` form and their codes.
use crate::codec::{all_base32, base32_decode, base32_decoded, is_base32_char};
use crate::migration::{entry_views, spec_parse};
use crate::text::{
    is_digit,
    ascii_upper, chars_of, has_prefix, is_white, is_whitespace, string_of, to_ascii_upper,
};
use crate::uri::spec_from_uri;
use vstd::prelude::*;

verus! {

/// The hash function of a TOTP account.
#[derive(Clone, Copy, Debug, PartialEq, Eq, Structural)]
pub enum Algorithm {
    SHA1,
    SHA256,
    SHA512,
}

/// The name under which an algorithm is written in URIs and shown to users.
pub open spec fn algorithm_name(a: Algorithm) -> Seq<char> {
    match a {
        Algorithm::SHA1 => "SHA1"@,
        Algorithm::SHA256 => "SHA256"@,
        Algorithm::SHA512 => "SHA512"@,
    }
}

impl Algorithm {
    /// The algorithm's name (what `Display` writes).
    pub fn to_string(&self) -> (r: String)
        ensures
            r@ == algorithm_name(*self),
    {
        match self {
            Algorithm::SHA1 => String::from_str("SHA1"),
            Algorithm::SHA256 => String::from_str("SHA256"),
            Algorithm::SHA512 => String::from_str("SHA512"),
        }
    }
}

impl Default for Algorithm {
    fn default() -> (r: Self)
        ensures
            r == Algorithm::SHA1,
    {
        Algorithm::SHA1
    }
}

/// A `Result` seen through the views of both sides.
pub open spec fn res_view<T: View, E: View>(r: Result<T, E>) -> Result<T::V, E::V> {
    match r {
        Ok(t) => Ok(t@),
        Err(e) => Err(e@),
    }
}

/// An optional string seen as an optional character sequence.
pub open spec fn opt_view(o: Option<String>) -> Option<Seq<char>> {
    match o {
        Some(s) => Some(s@),
        None => None,
    }
}

/// Why an account could not be made, read or used.
#[derive(Debug)]
pub enum TotpError {
    InvalidSecret,
    InvalidUri(&'static str),
    GenerationFailed(String),
    DuplicatedSecret,
}

pub enum ErrorView {
    InvalidSecret,
    InvalidUri(Seq<char>),
    GenerationFailed(Seq<char>),
    DuplicatedSecret,
}

impl View for TotpError {
    type V = ErrorView;

    open spec fn view(&self) -> ErrorView {
        match self {
            TotpError::InvalidSecret => ErrorView::InvalidSecret,
            TotpError::InvalidUri(m) => ErrorView::InvalidUri(m@),
            TotpError::GenerationFailed(m) => ErrorView::GenerationFailed(m@),
            TotpError::DuplicatedSecret => ErrorView::DuplicatedSecret,
        }
    }
}

/// The message that `Display` writes for an error.
pub open spec fn error_message(e: ErrorView) -> Seq<char> {
    match e {
        ErrorView::InvalidSecret => "invalid secret"@,
        ErrorView::GenerationFailed(m) => "generation failed: "@ + m,
        ErrorView::InvalidUri(m) => "invalid otpauth URI: "@ + m,
        ErrorView::DuplicatedSecret => "account with this secret already exists"@,
    }
}

impl TotpError {
    /// The error's message (what `Display` writes).
    pub fn to_string(&self) -> (r: String)
        ensures
            r@ == error_message(self@),
    {
        match self {
            TotpError::InvalidSecret => String::from_str("invalid secret"),
            TotpError::GenerationFailed(e) => {
                let mut s = String::from_str("generation failed: ");
                s.append(e.as_str());
                s
            },
            TotpError::InvalidUri(reason) => {
                let mut s = String::from_str("invalid otpauth URI: ");
                s.append(reason);
                s
            },
            TotpError::DuplicatedSecret => String::from_str(
                "account with this secret already exists",
            ),
        }
    }
}

/// One TOTP account.
#[derive(Debug)]
pub struct TotpEntry {
    pub name: String,
    pub issuer: Option<String>,
    pub secret: String,
    pub digits: u8,
    pub period: u64,
    pub algorithm: Algorithm,
}

pub struct EntryView {
    pub name: Seq<char>,
    pub issuer: Option<Seq<char>>,
    pub secret: Seq<char>,
    pub digits: u8,
    pub period: u64,
    pub algorithm: Algorithm,
}

impl View for TotpEntry {
    type V = EntryView;

    open spec fn view(&self) -> EntryView {
        EntryView {
            name: self.name@,
            issuer: opt_view(self.issuer),
            secret: self.secret@,
            digits: self.digits,
            period: self.period,
            algorithm: self.algorithm,
        }
    }
}

/// The number of digits an entry has when nothing else is said.
pub fn default_digits() -> (r: u8)
    ensures
        r == 6,
{
    6
}

/// The period (in seconds) an entry has when nothing else is said.
pub fn default_period() -> (r: u64)
    ensures
        r == 30,
{
    30
}

/// The secret with white space removed and ASCII letters upper-cased.
pub open spec fn normalized(s: Seq<char>) -> Seq<char>
    decreases s.len(),
{
    if s.len() == 0 {
        Seq::<char>::empty()
    } else {
        let r = normalized(s.drop_last());
        if is_white(s.last()) {
            r
        } else {
            r.push(ascii_upper(s.last()))
        }
    }
}

/// A Base32 secret is already in canonical form.
pub proof fn lemma_normalized_base32(s: Seq<char>)
    requires
        all_base32(s),
    ensures
        normalized(s) == s,
    decreases s.len(),
{
    if s.len() > 0 {
        let c = s.last();
        assert(is_base32_char(s[s.len() - 1]));
        assert(all_base32(s.drop_last())) by {
            assert forall|i: int| 0 <= i < s.drop_last().len() implies is_base32_char(
                #[trigger] s.drop_last()[i],
            ) by {
                assert(s.drop_last()[i] == s[i]);
            }
        }
        lemma_normalized_base32(s.drop_last());
        assert(!is_white(c));
        assert(ascii_upper(c) == c);
        assert(s.drop_last().push(c) =~= s);
    }
}

/// A secret in canonical form: the normalized text, which must be Base32.
pub open spec fn spec_normalize_secret(raw: Seq<char>) -> Result<Seq<char>, ErrorView> {
    let n = normalized(raw);
    if all_base32(n) {
        Ok(n)
    } else {
        Err(ErrorView::InvalidSecret)
    }
}

/// Normalizing a secret that was already normalized leaves it as it is.
pub proof fn lemma_normalize_idempotent(raw: Seq<char>)
    ensures
        spec_normalize_secret(raw) matches Ok(s) ==> spec_normalize_secret(s) == Ok::<
            Seq<char>,
            ErrorView,
        >(s),
{
    if let Ok(s) = spec_normalize_secret(raw) {
        lemma_normalized_base32(s);
    }
}

/// Computes `normalized`.
pub fn normalized_chars(raw: &Vec<char>) -> (r: Vec<char>)
    ensures
        r@ == normalized(raw@),
{
    let mut r: Vec<char> = Vec::new();
    let mut i: usize = 0;
    while i < raw.len()
        invariant
            i <= raw.len(),
            r@ == normalized(raw@.take(i as int)),
        decreases raw.len() - i,
    {
        let c = raw[i];
        assert(raw@.take(i + 1).drop_last() =~= raw@.take(i as int));
        assert(raw@.take(i + 1).last() == c);
        if !is_whitespace(c) {
            r.push(to_ascii_upper(c));
        }
        i = i + 1;
    }
    assert(raw@.take(raw.len() as int) =~= raw@);
    r
}

/// Brings a Base32 secret to canonical form: white space removed, letters
/// upper-cased; refused with `InvalidSecret` where the result is not Base32.
pub fn normalize_secret(raw: String) -> (r: Result<String, TotpError>)
    ensures
        res_view(r) == spec_normalize_secret(raw@),
{
    let cs = chars_of(raw.as_str());
    let n = normalized_chars(&cs);
    let s = string_of(&n);
    match base32_decode(s.as_str()) {
        Some(_) => Ok(s),
        None => Err(TotpError::InvalidSecret),
    }
}

/// The account that `TotpEntry::new` makes.
pub open spec fn spec_new_entry(secret: Seq<char>, name: Seq<char>) -> Result<EntryView, ErrorView> {
    match spec_normalize_secret(secret) {
        Ok(s) => Ok(
            EntryView {
                name,
                issuer: None,
                secret: s,
                digits: 6,
                period: 30,
                algorithm: Algorithm::SHA1,
            },
        ),
        Err(e) => Err(e),
    }
}

/// The name shown for an account: `issuer:name`, or the name alone.
pub open spec fn spec_display_name(e: EntryView) -> Seq<char> {
    match e.issuer {
        Some(i) => i + ":"@ + e.name,
        None => e.name,
    }
}

impl TotpEntry {
    /// A SHA1, 6-digit, 30-second account with the given secret (normalized)
    /// and name, and no issuer.
    pub fn new(secret: String, name: String) -> (r: Result<Self, TotpError>)
        ensures
            res_view(r) == spec_new_entry(secret@, name@),
    {
        let secret = normalize_secret(secret)?;
        Ok(TotpEntry {
            secret,
            name,
            issuer: None,
            digits: default_digits(),
            period: default_period(),
            algorithm: Algorithm::default(),
        })
    }

    /// The same account with the given issuer.
    pub fn with_issuer(self, issuer: String) -> (r: Self)
        ensures
            r@ == (EntryView { issuer: Some(issuer@), ..self@ }),
    {
        let mut e = self;
        e.issuer = Some(issuer);
        e
    }

    /// `new`, then the given issuer.
    pub fn from_entry(secret: String, name: String, issuer: Option<String>) -> (r: Result<
        Self,
        TotpError,
    >)
        ensures
            res_view(r) == match spec_new_entry(secret@, name@) {
                Ok(e) => Ok(EntryView { issuer: opt_view(issuer), ..e }),
                Err(err) => Err(err),
            },
    {
        let mut totp = Self::new(secret, name)?;
        totp.issuer = issuer;
        Ok(totp)
    }

    /// `issuer:name`, or the name alone.
    pub fn display_name(&self) -> (r: String)
        ensures
            r@ == spec_display_name(self@),
    {
        match &self.issuer {
            Some(issuer) => {
                let mut s = issuer.clone();
                s.append(":");
                s.append(self.name.as_str());
                s
            },
            None => self.name.clone(),
        }
    }

    /// An exact copy.
    pub fn duplicate(&self) -> (r: Self)
        ensures
            r@ == self@,
    {
        TotpEntry {
            name: self.name.clone(),
            issuer: match &self.issuer {
                Some(i) => Some(i.clone()),
                None => None,
            },
            secret: self.secret.clone(),
            digits: self.digits,
            period: self.period,
            algorithm: self.algorithm,
        }
    }
}


/// The code that `totp_rs` computes for an account at a Unix time: HMAC of the
/// time step under the secret, dynamically truncated to `digits` decimal
/// digits.
pub uninterp spec fn totp_code(
    algorithm: Algorithm,
    digits: nat,
    step: u64,
    secret: Seq<u8>,
    time: u64,
) -> Seq<char>;

/// `totp_rs::TOTP::new_unchecked(..).generate(time)`. Its source divides the
/// time by `step` and raises 10 to `digits` in a `u32`, so `step` must not be
/// 0 and `digits` at most 9. The code is named `totp_code`. As the source
/// shows, the time enters only as its step number `time / step` (the HMAC is
/// taken of that counter), so the code is the one of the start of the step;
/// and the code is the truncated value written in decimal, zero-padded to
/// `digits` characters (one character where `digits` is 0).
#[verifier::external_body]
fn totp_generate(algorithm: Algorithm, digits: usize, step: u64, secret: Vec<u8>, time: u64) -> (r:
    String)
    requires
        step > 0,
        digits <= 9,
    ensures
        r@ == totp_code(algorithm, digits as nat, step, secret@, time),
        r@ == totp_code(algorithm, digits as nat, step, secret@, (time / step * step) as u64),
        r@.len() == if digits == 0 {
            1
        } else {
            digits as int
        },
        forall|i: int| 0 <= i < r@.len() ==> is_digit(#[trigger] r@[i]),
{
    let a = match algorithm {
        Algorithm::SHA1 => totp_rs::Algorithm::SHA1,
        Algorithm::SHA256 => totp_rs::Algorithm::SHA256,
        Algorithm::SHA512 => totp_rs::Algorithm::SHA512,
    };
    totp_rs::TOTP::new_unchecked(a, digits, 1, step, secret).generate(time)
}

/// `UNIX_EPOCH.elapsed()` in whole seconds, or the clock error's message. The
/// value depends on the clock: nothing is stated of it.
#[verifier::external_body]
fn unix_time_secs() -> (r: Result<u64, String>) {
    std::time::UNIX_EPOCH.elapsed().map(|d| d.as_secs()).map_err(|e| e.to_string())
}

/// Seconds left in the current 30-second window at Unix time `now`.
pub open spec fn ttl_at(now: u64) -> u64 {
    (30 - now % 30) as u64
}

/// The code of an account for the time step that the Unix time `t` falls in:
/// the code at the start of that step (see `totp_generate`).
pub open spec fn step_code(e: EntryView, t: u64) -> Seq<char> {
    totp_code(e.algorithm, e.digits as nat, e.period, base32_decoded(e.secret), (t / e.period * e.period) as u64)
}

/// Two moments in the same time step of an account get the same code.
pub proof fn lemma_same_step_same_code(e: EntryView, t1: u64, t2: u64)
    requires
        e.period > 0,
        t1 / e.period == t2 / e.period,
    ensures
        step_code(e, t1) == step_code(e, t2),
{
}

/// The TTL counts down the seconds that the current code has left: it is
/// between 1 and 30, one second later it is one less (or 30 again once the
/// step changed), the moment `now + ttl` starts the next 30-second step, and
/// for an account with a 30-second period the code stays the same from `now`
/// until just before `now + ttl`.
pub proof fn lemma_ttl_is_code_lifetime(e: EntryView, now: u64, k: u64)
    requires
        now + 30 <= u64::MAX,
    ensures
        1 <= ttl_at(now) <= 30,
        ttl_at((now + 1) as u64) == if ttl_at(now) > 1 {
            (ttl_at(now) - 1) as u64
        } else {
            30u64
        },
        (now + ttl_at(now)) % 30 == 0,
        (now + ttl_at(now)) / 30 == now / 30 + 1,
        e.period == 30 && k < ttl_at(now) ==> step_code(e, (now + k) as u64) == step_code(e, now),
{
    assert((now + ttl_at(now)) % 30 == 0 && (now + ttl_at(now)) / 30 == now / 30 + 1) by (nonlinear_arith)
        requires
            ttl_at(now) == 30 - now % 30,
            now % 30 < 30,
            now == (now / 30) * 30 + now % 30,
    ;
    assert(ttl_at((now + 1) as u64) == if ttl_at(now) > 1 {
        (ttl_at(now) - 1) as u64
    } else {
        30u64
    }) by (nonlinear_arith)
        requires
            ttl_at(now) == 30 - now % 30,
            ttl_at((now + 1) as u64) == 30 - (now + 1) % 30,
            now % 30 < 30,
            now == (now / 30) * 30 + now % 30,
            now + 1 == ((now + 1) / 30) * 30 + (now + 1) % 30,
            (now + 1) % 30 < 30,
            0 <= (now + 1) % 30,
    ;
    if e.period == 30 && k < ttl_at(now) {
        assert((now + k) / 30 == now / 30) by (nonlinear_arith)
            requires
                k < 30 - now % 30,
                now % 30 < 30,
                now == (now / 30) * 30 + now % 30,
                0 <= k,
        ;
        lemma_same_step_same_code(e, (now + k) as u64, now);
    }
}

/// Computes `ttl_at`.
pub fn totp_ttl_at(now: u64) -> (r: u64)
    ensures
        r == ttl_at(now),
        1 <= r <= 30,
{
    30 - (now % 30)
}

/// Seconds left before the current 30-second code expires (30 where the clock
/// reads before the Unix epoch).
pub fn totp_ttl() -> (r: u64)
    ensures
        1 <= r <= 30,
        exists|now: u64| r == ttl_at(now),
{
    let r = totp_ttl_with(unix_time_secs());
    assert(r == ttl_at(0) || exists|now: u64| r == ttl_at(now));
    r
}

/// The TTL for a reading of the clock in Unix seconds: `ttl_at` the time read,
/// or a whole step (30) where the clock reads before the epoch (`Err`).
pub fn totp_ttl_with(clock: Result<u64, String>) -> (r: u64)
    ensures
        r == match clock {
            Ok(now) => ttl_at(now),
            Err(_) => 30u64,
        },
        1 <= r <= 30,
{
    let now = match clock {
        Ok(t) => t,
        Err(_) => 0,
    };
    totp_ttl_at(now)
}

/// An account whose codes can be computed: a non-zero period and at most 9
/// digits (`totp_rs` divides by the period and computes 10 to the digits in a
/// `u32`).
pub open spec fn can_generate(e: EntryView) -> bool {
    e.period > 0 && e.digits <= 9
}

impl TotpEntry {
    /// The code at Unix time `time`; `InvalidSecret` where the secret is not Base32.
    pub fn generate_otp_at(&self, time: u64) -> (r: Result<String, TotpError>)
        requires
            can_generate(self@),
        ensures
            match r {
                Ok(code) => all_base32(self.secret@) && code@ == totp_code(
                    self.algorithm,
                    self.digits as nat,
                    self.period,
                    base32_decoded(self.secret@),
                    time,
                ) && code@ == step_code(self@, time) && code@.len() == if self.digits == 0 {
                    1
                } else {
                    self.digits as int
                } && forall|i: int| 0 <= i < code@.len() ==> is_digit(#[trigger] code@[i]),
                Err(e) => !all_base32(self.secret@) && e@ == ErrorView::InvalidSecret,
            },
    {
        let secret = match base32_decode(self.secret.as_str()) {
            Some(s) => s,
            None => return Err(TotpError::InvalidSecret),
        };
        Ok(totp_generate(self.algorithm, self.digits as usize, self.period, secret, time))
    }

    /// The current code: `InvalidSecret` where the secret is not Base32,
    /// `GenerationFailed` where the clock reads before the Unix epoch.
    pub fn generate_otp(&self) -> (r: Result<String, TotpError>)
        requires
            can_generate(self@),
        ensures
            r matches Err(TotpError::InvalidSecret) <==> !all_base32(self.secret@),
            r is Err ==> (r matches Err(TotpError::InvalidSecret) || r matches Err(
                TotpError::GenerationFailed(_),
            )),
            r matches Ok(code) ==> exists|t: u64|
                code@ == totp_code(
                    self.algorithm,
                    self.digits as nat,
                    self.period,
                    base32_decoded(self.secret@),
                    t,
                ),
            r matches Ok(code) ==> code@.len() == (if self.digits == 0 {
                1
            } else {
                self.digits as int
            }) && forall|i: int| 0 <= i < code@.len() ==> is_digit(#[trigger] code@[i]),
    {
        self.generate_otp_with(unix_time_secs())
    }

    /// The code for a reading of the clock in Unix seconds: `InvalidSecret`
    /// where the secret is not Base32; otherwise the code of the time read
    /// (that of its time step), or `GenerationFailed` with the clock's message
    /// where it reads before the epoch (`Err`).
    pub fn generate_otp_with(&self, clock: Result<u64, String>) -> (r: Result<String, TotpError>)
        requires
            can_generate(self@),
        ensures
            !all_base32(self.secret@) ==> r matches Err(TotpError::InvalidSecret),
            all_base32(self.secret@) ==> match clock {
                Ok(t) => r matches Ok(code) && code@ == totp_code(
                    self.algorithm,
                    self.digits as nat,
                    self.period,
                    base32_decoded(self.secret@),
                    t,
                ) && code@ == step_code(self@, t),
                Err(m) => r matches Err(TotpError::GenerationFailed(m2)) && m2@ == m@,
            },
            r matches Ok(code) ==> code@.len() == (if self.digits == 0 {
                1
            } else {
                self.digits as int
            }) && forall|i: int| 0 <= i < code@.len() ==> is_digit(#[trigger] code@[i]),
    {
        let secret = match base32_decode(self.secret.as_str()) {
            Some(s) => s,
            None => return Err(TotpError::InvalidSecret),
        };
        let time = match clock {
            Ok(t) => t,
            Err(msg) => return Err(TotpError::GenerationFailed(msg)),
        };
        Ok(totp_generate(self.algorithm, self.digits as usize, self.period, secret, time))
    }
}

/// What `parse_uri` gives: one entry for an `otpauth://totp/` URI, the TOTP
/// accounts of an `otpauth-migration://` export, and `InvalidUri("unrecognized
/// URI scheme")` for anything else.
pub open spec fn spec_parse_uri(uri: Seq<char>) -> Result<Seq<EntryView>, ErrorView> {
    if uri.len() >= 15 && uri.take(15) == "otpauth://totp/"@ {
        match spec_from_uri(uri) {
            Ok(e) => Ok(seq![e]),
            Err(err) => Err(err),
        }
    } else if uri.len() >= 20 && uri.take(20) == "otpauth-migration://"@ {
        spec_parse(uri)
    } else {
        Err(ErrorView::InvalidUri("unrecognized URI scheme"@))
    }
}

/// Reads the accounts that a URI names (see `spec_parse_uri`).
pub fn parse_uri(uri: &str) -> (r: Result<Vec<TotpEntry>, TotpError>)
    ensures
        match r {
            Ok(v) => spec_parse_uri(uri@) == Ok::<Seq<EntryView>, ErrorView>(entry_views(v@)),
            Err(e) => spec_parse_uri(uri@) == Err::<Seq<EntryView>, ErrorView>(e@),
        },
{
    let cs = chars_of(uri);
    let totp_prefix = chars_of("otpauth://totp/");
    let migration_prefix = chars_of("otpauth-migration://");
    proof {
        reveal_strlit("otpauth://totp/");
        reveal_strlit("otpauth-migration://");
    }
    if has_prefix(&cs, &totp_prefix) {
        match TotpEntry::from_uri(uri) {
            Ok(e) => {
                let mut v: Vec<TotpEntry> = Vec::new();
                v.push(e);
                assert(entry_views(v@) =~= seq![v@[0]@]);
                Ok(v)
            },
            Err(err) => Err(err),
        }
    } else if has_prefix(&cs, &migration_prefix) {
        crate::migration::parse(uri)
    } else {
        Err(TotpError::InvalidUri("unrecognized URI scheme"))
    }
}

} // verus!
