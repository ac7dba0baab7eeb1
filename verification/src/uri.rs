//! Reading and writing accounts as `otpauth://totp/` URIs.
use crate::text::{
    append_chars, append_str, chars_eq, chars_of, decimal, decimal_chars, parse_unsigned, parse_unsigned_chars,
    split, split_chars, split_once, split_once_chars, string_of, strip_prefix, strip_prefix_chars,
    trim, trim_chars, views,
};
use crate::totp::{
    algorithm_name, normalize_secret, opt_view, res_view, spec_normalize_secret, Algorithm,
    EntryView, ErrorView, TotpEntry, TotpError,
};
use crate::url::{
    is_url_safe, lemma_url_decode_pair, lemma_url_decode_plain, lemma_url_encode_safe,
    lemma_url_roundtrip, url_decode, url_decode_chars, url_encode, url_encode_chars,
};
use crate::codec::{all_base32, is_base32_char};
use crate::text::{lemma_decimal_digits, lemma_parse_decimal, lemma_split_concat, lemma_split_once_absent, lemma_split_once_concat, lemma_split_single, lemma_trim_shape, is_digit, is_white, trim_start, trim_end};
use crate::totp::lemma_normalized_base32;
use vstd::utf8::is_ascii_chars;
use vstd::prelude::*;

verus! {

/// The settings gathered from the query of an `otpauth://totp/` URI.
pub struct ParamView {
    pub secret: Option<Seq<char>>,
    pub issuer: Option<Seq<char>>,
    pub digits: u8,
    pub period: u64,
    pub algorithm: Algorithm,
}

/// The effect of one `key=value` query parameter on the settings read so far.
pub open spec fn spec_apply_param(p: Seq<char>, st: ParamView) -> Result<ParamView, ErrorView> {
    match split_once(p, '=') {
        None => Err(ErrorView::InvalidUri("bad query param"@)),
        Some((k, v0)) => match url_decode(v0) {
            None => Err(ErrorView::InvalidUri("bad param encoding"@)),
            Some(v) => if k == "secret"@ {
                match spec_normalize_secret(v) {
                    Ok(s) => Ok(ParamView { secret: Some(s), ..st }),
                    Err(e) => Err(e),
                }
            } else if k == "issuer"@ {
                Ok(ParamView { issuer: Some(v), ..st })
            } else if k == "digits"@ {
                match parse_unsigned(v, 255) {
                    Some(d) => Ok(ParamView { digits: d as u8, ..st }),
                    None => Err(ErrorView::InvalidUri("bad digits value"@)),
                }
            } else if k == "period"@ {
                match parse_unsigned(v, u64::MAX as nat) {
                    Some(d) => Ok(ParamView { period: d as u64, ..st }),
                    None => Err(ErrorView::InvalidUri("bad period value"@)),
                }
            } else if k == "algorithm"@ {
                if v == "SHA1"@ {
                    Ok(ParamView { algorithm: Algorithm::SHA1, ..st })
                } else if v == "SHA256"@ {
                    Ok(ParamView { algorithm: Algorithm::SHA256, ..st })
                } else if v == "SHA512"@ {
                    Ok(ParamView { algorithm: Algorithm::SHA512, ..st })
                } else {
                    Err(ErrorView::InvalidUri("unknown algorithm"@))
                }
            } else {
                Ok(st)
            },
        },
    }
}

/// The query parameters applied in order; the first refusal stops the reading.
pub open spec fn spec_apply_params(ps: Seq<Seq<char>>, st: ParamView) -> Result<
    ParamView,
    ErrorView,
>
    decreases ps.len(),
{
    if ps.len() == 0 {
        Ok(st)
    } else {
        match spec_apply_param(ps[0], st) {
            Ok(st2) => spec_apply_params(ps.drop_first(), st2),
            Err(e) => Err(e),
        }
    }
}

/// The issuer and name that a decoded label gives: `issuer:name` splits at its
/// first `:`, and both parts are trimmed.
pub open spec fn label_parts(label: Seq<char>) -> (Option<Seq<char>>, Seq<char>) {
    match split_once(label, ':') {
        Some((i, n)) => (Some(trim(i)), trim(n)),
        None => (None, trim(label)),
    }
}

/// The account that an `otpauth://totp/LABEL?QUERY` URI describes.
pub open spec fn spec_from_uri(uri: Seq<char>) -> Result<EntryView, ErrorView> {
    match strip_prefix(trim(uri), "otpauth://totp/"@) {
        None => Err(ErrorView::InvalidUri("missing otpauth://totp/ prefix"@)),
        Some(rest) => match split_once(rest, '?') {
            None => Err(ErrorView::InvalidUri("missing query string"@)),
            Some((label0, query)) => match url_decode(label0) {
                None => Err(ErrorView::InvalidUri("bad label encoding"@)),
                Some(label) => {
                    let (issuer, name) = label_parts(label);
                    let init = ParamView {
                        secret: None,
                        issuer,
                        digits: 6,
                        period: 30,
                        algorithm: Algorithm::SHA1,
                    };
                    match spec_apply_params(split(query, '&'), init) {
                        Err(e) => Err(e),
                        Ok(st) => match st.secret {
                            None => Err(ErrorView::InvalidUri("missing secret"@)),
                            Some(secret) => Ok(
                                EntryView {
                                    name,
                                    issuer: st.issuer,
                                    secret,
                                    digits: st.digits,
                                    period: st.period,
                                    algorithm: st.algorithm,
                                },
                            ),
                        },
                    }
                },
            },
        },
    }
}

/// `key=value`.
pub open spec fn key_value(k: Seq<char>, v: Seq<char>) -> Seq<char> {
    k + seq!['='] + v
}

/// The label of an account's URI: the encoded `issuer:name`, or encoded name.
pub open spec fn uri_label(e: EntryView) -> Seq<char> {
    match e.issuer {
        Some(i) => url_encode(i) + seq![':'] + url_encode(e.name),
        None => url_encode(e.name),
    }
}

/// The query of an account's URI.
pub open spec fn uri_query(e: EntryView) -> Seq<char> {
    let tail = match e.issuer {
        Some(i) => seq!['&'] + key_value("issuer"@, url_encode(i)),
        None => Seq::<char>::empty(),
    };
    key_value("secret"@, e.secret) + seq!['&'] + key_value("digits"@, decimal(e.digits as nat))
        + seq!['&'] + key_value("period"@, decimal(e.period as nat)) + seq!['&'] + key_value(
        "algorithm"@,
        algorithm_name(e.algorithm),
    ) + tail
}

/// The `otpauth://totp/` URI of an account.
pub open spec fn spec_to_uri(e: EntryView) -> Seq<char> {
    "otpauth://totp/"@ + uri_label(e) + seq!['?'] + uri_query(e)
}

struct UriParams {
    secret: Option<Vec<char>>,
    issuer: Option<Vec<char>>,
    digits: u8,
    period: u64,
    algorithm: Algorithm,
}

pub open spec fn opt_chars(o: Option<Vec<char>>) -> Option<Seq<char>> {
    match o {
        Some(v) => Some(v@),
        None => None,
    }
}

impl View for UriParams {
    type V = ParamView;

    closed spec fn view(&self) -> ParamView {
        ParamView {
            secret: opt_chars(self.secret),
            issuer: opt_chars(self.issuer),
            digits: self.digits,
            period: self.period,
            algorithm: self.algorithm,
        }
    }
}

fn is_key(k: &Vec<char>, name: &str) -> (r: bool)
    ensures
        r == (k@ == name@),
{
    let n = chars_of(name);
    chars_eq(k, &n)
}

fn apply_param(p: &Vec<char>, st: UriParams) -> (r: Result<UriParams, TotpError>)
    ensures
        res_view(r) == spec_apply_param(p@, st@),
{
    let (k, v0) = match split_once_chars(p, '=') {
        Some(kv) => kv,
        None => return Err(TotpError::InvalidUri("bad query param")),
    };
    let v = match url_decode_chars(&v0) {
        Some(v) => v,
        None => return Err(TotpError::InvalidUri("bad param encoding")),
    };
    let mut st = st;
    if is_key(&k, "secret") {
        let s = normalize_secret(string_of(&v))?;
        st.secret = Some(chars_of(s.as_str()));
        Ok(st)
    } else if is_key(&k, "issuer") {
        st.issuer = Some(v);
        Ok(st)
    } else if is_key(&k, "digits") {
        match parse_unsigned_chars(&v, 255) {
            Some(d) => {
                st.digits = d as u8;
                Ok(st)
            },
            None => Err(TotpError::InvalidUri("bad digits value")),
        }
    } else if is_key(&k, "period") {
        match parse_unsigned_chars(&v, u64::MAX) {
            Some(d) => {
                st.period = d;
                Ok(st)
            },
            None => Err(TotpError::InvalidUri("bad period value")),
        }
    } else if is_key(&k, "algorithm") {
        if is_key(&v, "SHA1") {
            st.algorithm = Algorithm::SHA1;
            Ok(st)
        } else if is_key(&v, "SHA256") {
            st.algorithm = Algorithm::SHA256;
            Ok(st)
        } else if is_key(&v, "SHA512") {
            st.algorithm = Algorithm::SHA512;
            Ok(st)
        } else {
            Err(TotpError::InvalidUri("unknown algorithm"))
        }
    } else {
        Ok(st)
    }
}

fn opt_string(o: Option<Vec<char>>) -> (r: Option<String>)
    ensures
        opt_view(r) == opt_chars(o),
{
    match o {
        Some(v) => Some(string_of(&v)),
        None => None,
    }
}

impl TotpEntry {
    /// Reads an account from an `otpauth://totp/LABEL?QUERY` URI (surrounding
    /// white space ignored). The label is percent-decoded and split into
    /// issuer and name at its first `:`; the query's `secret`, `issuer`,
    /// `digits`, `period` and `algorithm` parameters are read in order, other
    /// keys are skipped, and a secret is required.
    pub fn from_uri(uri: &str) -> (r: Result<Self, TotpError>)
        ensures
            res_view(r) == spec_from_uri(uri@),
    {
        let u = chars_of(uri);
        let t = trim_chars(&u);
        let prefix = chars_of("otpauth://totp/");
        let rest = match strip_prefix_chars(&t, &prefix) {
            Some(r) => r,
            None => return Err(TotpError::InvalidUri("missing otpauth://totp/ prefix")),
        };
        let (label0, query) = match split_once_chars(&rest, '?') {
            Some(lq) => lq,
            None => return Err(TotpError::InvalidUri("missing query string")),
        };
        let label = match url_decode_chars(&label0) {
            Some(l) => l,
            None => return Err(TotpError::InvalidUri("bad label encoding")),
        };
        let (issuer, name) = match split_once_chars(&label, ':') {
            Some((i, n)) => (Some(trim_chars(&i)), trim_chars(&n)),
            None => (None, trim_chars(&label)),
        };
        let params = split_chars(&query, '&');
        let mut st = UriParams { secret: None, issuer, digits: 6, period: 30, algorithm: Algorithm::SHA1 };
        let ghost init = st@;
        let ghost ps = views(params@);
        assert(ps.skip(0) =~= ps);
        let mut i: usize = 0;
        #[verifier::loop_isolation(false)]
        while i < params.len()
            invariant
                i <= params.len(),
                ps == views(params@),
                spec_apply_params(ps, init) == spec_apply_params(ps.skip(i as int), st@),
            decreases params.len() - i,
        {
            assert(ps.skip(i as int).drop_first() =~= ps.skip(i + 1));
            assert(ps.skip(i as int)[0] == params@[i as int]@);
            st = match apply_param(&params[i], st) {
                Ok(s) => s,
                Err(e) => return Err(e),
            };
            i = i + 1;
        }
        assert(ps.skip(i as int) =~= Seq::<Seq<char>>::empty());
        let secret = match st.secret {
            Some(s) => s,
            None => return Err(TotpError::InvalidUri("missing secret")),
        };
        Ok(TotpEntry {
            name: string_of(&name),
            issuer: opt_string(st.issuer),
            secret: string_of(&secret),
            digits: st.digits,
            period: st.period,
            algorithm: st.algorithm,
        })
    }

    /// Writes the account as an `otpauth://totp/` URI: the label is the
    /// percent-encoded `issuer:name` (or name), followed by the secret,
    /// digits, period, algorithm and, with an issuer, the encoded issuer.
    pub fn to_uri(&self) -> (r: crate::totp_uri::TotpURI)
        ensures
            r@ == spec_to_uri(self@),
    {
        let name = chars_of(self.name.as_str());
        let mut out = chars_of("otpauth://totp/");
        match &self.issuer {
            Some(i) => {
                let ic = chars_of(i.as_str());
                let ei = url_encode_chars(&ic);
                append_chars(&mut out, &ei);
                out.push(':');
                let en = url_encode_chars(&name);
                append_chars(&mut out, &en);
            },
            None => {
                let en = url_encode_chars(&name);
                append_chars(&mut out, &en);
            },
        }
        out.push('?');
        append_str(&mut out, "secret");
        out.push('=');
        append_str(&mut out, self.secret.as_str());
        out.push('&');
        append_str(&mut out, "digits");
        out.push('=');
        let d = decimal_chars(self.digits as u64);
        append_chars(&mut out, &d);
        out.push('&');
        append_str(&mut out, "period");
        out.push('=');
        let p = decimal_chars(self.period);
        append_chars(&mut out, &p);
        out.push('&');
        append_str(&mut out, "algorithm");
        out.push('=');
        let a = self.algorithm.to_string();
        append_str(&mut out, a.as_str());
        match &self.issuer {
            Some(i) => {
                out.push('&');
                append_str(&mut out, "issuer");
                out.push('=');
                let ic = chars_of(i.as_str());
                let ei = url_encode_chars(&ic);
                append_chars(&mut out, &ei);
            },
            None => {},
        }
        assert(out@ =~= spec_to_uri(self@));
        crate::totp_uri::TotpURI::new(string_of(&out))
    }
}


/// Checks a predicate on every character of a short sequence, one index at a
/// time (used on literals, whose characters are known only at given indices).
proof fn lemma_chars_all(s: Seq<char>, p: spec_fn(char) -> bool)
    requires
        s.len() <= 10,
        0 < s.len() ==> p(s[0]),
        1 < s.len() ==> p(s[1]),
        2 < s.len() ==> p(s[2]),
        3 < s.len() ==> p(s[3]),
        4 < s.len() ==> p(s[4]),
        5 < s.len() ==> p(s[5]),
        6 < s.len() ==> p(s[6]),
        7 < s.len() ==> p(s[7]),
        8 < s.len() ==> p(s[8]),
        9 < s.len() ==> p(s[9]),
    ensures
        forall|j: int| 0 <= j < s.len() ==> p(#[trigger] s[j]),
{
    assert forall|j: int| 0 <= j < s.len() implies p(#[trigger] s[j]) by {
        if j == 0 {
        } else if j == 1 {
        } else if j == 2 {
        } else if j == 3 {
        } else if j == 4 {
        } else if j == 5 {
        } else if j == 6 {
        } else if j == 7 {
        } else if j == 8 {
        } else {
        }
    }
}

proof fn lemma_lacks(s: Seq<char>, c: char, p: spec_fn(char) -> bool)
    requires
        forall|j: int| 0 <= j < s.len() ==> p(#[trigger] s[j]),
        !p(c),
    ensures
        !s.contains(c),
{
    if s.contains(c) {
        let j = choose|j: int| 0 <= j < s.len() && s[j] == c;
        assert(p(s[j]));
    }
}

proof fn lemma_concat_lacks(a: Seq<char>, b: Seq<char>, c: char)
    requires
        !a.contains(c),
        !b.contains(c),
    ensures
        !(a + b).contains(c),
{
    if (a + b).contains(c) {
        let j = choose|j: int| 0 <= j < (a + b).len() && (a + b)[j] == c;
        if j < a.len() {
            assert(a[j] == c);
        } else {
            assert(b[j - a.len()] == c);
        }
    }
}

/// A character of a key (a lower-case ASCII letter).
pub open spec fn is_key_char(c: char) -> bool {
    'a' <= c <= 'z'
}

/// A character of an algorithm name.
pub open spec fn is_name_char(c: char) -> bool {
    ('A' <= c <= 'Z') || ('0' <= c <= '9')
}

proof fn lemma_key(k: Seq<char>)
    requires
        forall|j: int| 0 <= j < k.len() ==> is_key_char(#[trigger] k[j]),
    ensures
        !k.contains('='),
        !k.contains('&'),
{
    lemma_lacks(k, '=', |c: char| is_key_char(c));
    lemma_lacks(k, '&', |c: char| is_key_char(c));
}

/// A value of letters and digits: plain ASCII, decoded as it stands, with no
/// `&`, `%` or white space.
proof fn lemma_plain_value(v: Seq<char>)
    requires
        forall|j: int| 0 <= j < v.len() ==> is_name_char(#[trigger] v[j]),
    ensures
        url_decode(v) == Some(v),
        !v.contains('&'),
        v.len() > 0 ==> !is_white(v.last()),
{
    lemma_lacks(v, '&', |c: char| is_name_char(c));
    lemma_lacks(v, '%', |c: char| is_name_char(c));
    assert(is_ascii_chars(v)) by {
        assert forall|j: int| 0 <= j < v.len() implies '\0' <= #[trigger] v[j] <= '\u{7f}' by {
            assert(is_name_char(v[j]));
        }
    }
    lemma_url_decode_plain(v);
    if v.len() > 0 {
        assert(is_name_char(v[v.len() - 1]));
    }
}

/// The accounts that survive a trip through `to_uri` and `from_uri`: a
/// canonical Base32 secret, a name without surrounding white space, and no `:`
/// in the part of the label before the name (the issuer, or the name itself
/// where there is no issuer).
pub open spec fn uri_roundtrips(e: EntryView) -> bool {
    &&& all_base32(e.secret)
    &&& trim(e.name) == e.name
    &&& match e.issuer {
        Some(i) => !i.contains(':'),
        None => !e.name.contains(':'),
    }
}

proof fn lemma_keys()
    ensures
        !"secret"@.contains('='),
        !"secret"@.contains('&'),
        !"digits"@.contains('='),
        !"digits"@.contains('&'),
        !"period"@.contains('='),
        !"period"@.contains('&'),
        !"algorithm"@.contains('='),
        !"algorithm"@.contains('&'),
        !"issuer"@.contains('='),
        !"issuer"@.contains('&'),
        "digits"@ != "secret"@,
        "digits"@ != "issuer"@,
        "period"@ != "secret"@,
        "period"@ != "issuer"@,
        "period"@ != "digits"@,
        "issuer"@ != "secret"@,
        "algorithm"@ != "secret"@,
        "algorithm"@ != "issuer"@,
        "algorithm"@ != "digits"@,
        "algorithm"@ != "period"@,
{
    reveal_strlit("secret");
    reveal_strlit("digits");
    reveal_strlit("period");
    reveal_strlit("algorithm");
    reveal_strlit("issuer");
    let ks: Seq<char> = "secret"@;
    let kd: Seq<char> = "digits"@;
    let kp: Seq<char> = "period"@;
    let ka: Seq<char> = "algorithm"@;
    let ki: Seq<char> = "issuer"@;
    lemma_chars_all(ks, |c: char| is_key_char(c));
    lemma_chars_all(kd, |c: char| is_key_char(c));
    lemma_chars_all(kp, |c: char| is_key_char(c));
    lemma_chars_all(ka, |c: char| is_key_char(c));
    lemma_chars_all(ki, |c: char| is_key_char(c));
    lemma_key(ks);
    lemma_key(kd);
    lemma_key(kp);
    lemma_key(ka);
    lemma_key(ki);
    assert(kd[0] != ks[0] && kd[0] != ki[0]);
    assert(kp[0] != ks[0] && kp[0] != ki[0] && kp[0] != kd[0]);
    assert(ki[0] != ks[0]);
}

proof fn lemma_key_value_lacks_amp(k: Seq<char>, v: Seq<char>)
    requires
        !k.contains('&'),
        !v.contains('&'),
    ensures
        !key_value(k, v).contains('&'),
{
    lemma_lacks(seq!['='], '&', |c: char| c == '=');
    lemma_concat_lacks(k, seq!['='], '&');
    lemma_concat_lacks(k + seq!['='], v, '&');
}

proof fn lemma_param_secret(sv: Seq<char>, st: ParamView)
    requires
        all_base32(sv),
    ensures
        spec_apply_param(key_value("secret"@, sv), st) == Ok::<ParamView, ErrorView>(
            ParamView { secret: Some(sv), ..st },
        ),
        !sv.contains('&'),
{
    lemma_keys();
    assert forall|j: int| 0 <= j < sv.len() implies is_name_char(#[trigger] sv[j]) by {
        assert(is_base32_char(sv[j]));
    }
    lemma_plain_value(sv);
    lemma_normalized_base32(sv);
    lemma_split_once_concat("secret"@, sv, '=');
}

proof fn lemma_param_digits(d: u8, st: ParamView)
    ensures
        spec_apply_param(key_value("digits"@, decimal(d as nat)), st) == Ok::<
            ParamView,
            ErrorView,
        >(ParamView { digits: d, ..st }),
        !decimal(d as nat).contains('&'),
{
    lemma_keys();
    let dv = decimal(d as nat);
    lemma_decimal_digits(d as nat);
    assert forall|j: int| 0 <= j < dv.len() implies is_name_char(#[trigger] dv[j]) by {
        assert(is_digit(dv[j]));
    }
    lemma_plain_value(dv);
    lemma_parse_decimal(d as nat, 255);
    lemma_split_once_concat("digits"@, dv, '=');
}

proof fn lemma_param_period(p: u64, st: ParamView)
    ensures
        spec_apply_param(key_value("period"@, decimal(p as nat)), st) == Ok::<
            ParamView,
            ErrorView,
        >(ParamView { period: p, ..st }),
        !decimal(p as nat).contains('&'),
{
    lemma_keys();
    let pv = decimal(p as nat);
    lemma_decimal_digits(p as nat);
    assert forall|j: int| 0 <= j < pv.len() implies is_name_char(#[trigger] pv[j]) by {
        assert(is_digit(pv[j]));
    }
    lemma_plain_value(pv);
    lemma_parse_decimal(p as nat, u64::MAX as nat);
    lemma_split_once_concat("period"@, pv, '=');
}

proof fn lemma_param_algorithm(a: Algorithm, st: ParamView)
    ensures
        spec_apply_param(key_value("algorithm"@, algorithm_name(a)), st) == Ok::<
            ParamView,
            ErrorView,
        >(ParamView { algorithm: a, ..st }),
        !algorithm_name(a).contains('&'),
        algorithm_name(a).len() > 0,
        !is_white(algorithm_name(a).last()),
{
    lemma_keys();
    reveal_strlit("SHA1");
    reveal_strlit("SHA256");
    reveal_strlit("SHA512");
    let av = algorithm_name(a);
    assert("SHA256"@[3] != "SHA512"@[3]);
    lemma_chars_all(av, |c: char| is_name_char(c));
    lemma_plain_value(av);
    lemma_split_once_concat("algorithm"@, av, '=');
}

proof fn lemma_param_issuer(i: Seq<char>, st: ParamView)
    ensures
        spec_apply_param(key_value("issuer"@, url_encode(i)), st) == Ok::<ParamView, ErrorView>(
            ParamView { issuer: Some(i), ..st },
        ),
        !url_encode(i).contains('&'),
{
    lemma_keys();
    lemma_url_encode_safe(i);
    lemma_lacks(url_encode(i), '&', |c: char| is_url_safe(c));
    lemma_url_roundtrip(i);
    lemma_split_once_concat("issuer"@, url_encode(i), '=');
}

/// The query parameters of an account's URI, in order.
pub open spec fn uri_params(e: EntryView) -> Seq<Seq<char>> {
    let base = seq![
        key_value("secret"@, e.secret),
        key_value("digits"@, decimal(e.digits as nat)),
        key_value("period"@, decimal(e.period as nat)),
        key_value("algorithm"@, algorithm_name(e.algorithm)),
    ];
    match e.issuer {
        Some(i) => base.push(key_value("issuer"@, url_encode(i))),
        None => base,
    }
}

proof fn lemma_apply_cons(p: Seq<char>, ps: Seq<Seq<char>>, st: ParamView)
    ensures
        spec_apply_params(seq![p] + ps, st) == match spec_apply_param(p, st) {
            Ok(s2) => spec_apply_params(ps, s2),
            Err(e) => Err(e),
        },
{
    assert((seq![p] + ps).drop_first() =~= ps);
    assert((seq![p] + ps)[0] == p);
}

proof fn lemma_query_split(e: EntryView)
    requires
        all_base32(e.secret),
    ensures
        split(uri_query(e), '&') == uri_params(e),
{
    lemma_keys();
    lemma_param_secret(e.secret, ParamView { secret: None, issuer: None, digits: 0, period: 0, algorithm: e.algorithm });
    lemma_param_digits(e.digits, ParamView { secret: None, issuer: None, digits: 0, period: 0, algorithm: e.algorithm });
    lemma_param_period(e.period, ParamView { secret: None, issuer: None, digits: 0, period: 0, algorithm: e.algorithm });
    lemma_param_algorithm(e.algorithm, ParamView { secret: None, issuer: None, digits: 0, period: 0, algorithm: e.algorithm });
    let q0 = key_value("secret"@, e.secret);
    let q1 = key_value("digits"@, decimal(e.digits as nat));
    let q2 = key_value("period"@, decimal(e.period as nat));
    let q3 = key_value("algorithm"@, algorithm_name(e.algorithm));
    lemma_key_value_lacks_amp("secret"@, e.secret);
    lemma_key_value_lacks_amp("digits"@, decimal(e.digits as nat));
    lemma_key_value_lacks_amp("period"@, decimal(e.period as nat));
    lemma_key_value_lacks_amp("algorithm"@, algorithm_name(e.algorithm));
    let amp = seq!['&'];
    let tail = match e.issuer {
        Some(i) => amp + key_value("issuer"@, url_encode(i)),
        None => Seq::<char>::empty(),
    };
    let r3 = q3 + tail;
    let r2 = q2 + amp + r3;
    let r1 = q1 + amp + r2;
    assert(uri_query(e) =~= q0 + amp + r1);
    lemma_split_concat(q0, r1, '&');
    lemma_split_concat(q1, r2, '&');
    lemma_split_concat(q2, r3, '&');
    match e.issuer {
        Some(i) => {
            let q4 = key_value("issuer"@, url_encode(i));
            lemma_param_issuer(i, ParamView { secret: None, issuer: None, digits: 0, period: 0, algorithm: e.algorithm });
            lemma_key_value_lacks_amp("issuer"@, url_encode(i));
            assert(r3 =~= q3 + amp + q4);
            lemma_split_concat(q3, q4, '&');
            lemma_split_single(q4, '&');
            assert(split(uri_query(e), '&') =~= uri_params(e));
        },
        None => {
            assert(r3 =~= q3);
            lemma_split_single(q3, '&');
            assert(split(uri_query(e), '&') =~= uri_params(e));
        },
    }
}

proof fn lemma_query_params(e: EntryView, st: ParamView)
    requires
        all_base32(e.secret),
    ensures
        spec_apply_params(uri_params(e), st) == Ok::<ParamView, ErrorView>(
            ParamView {
                secret: Some(e.secret),
                issuer: match e.issuer {
                    Some(i) => Some(i),
                    None => st.issuer,
                },
                digits: e.digits,
                period: e.period,
                algorithm: e.algorithm,
            },
        ),
{
    let st1 = ParamView { secret: Some(e.secret), ..st };
    let st2 = ParamView { digits: e.digits, ..st1 };
    let st3 = ParamView { period: e.period, ..st2 };
    let st4 = ParamView { algorithm: e.algorithm, ..st3 };
    lemma_param_secret(e.secret, st);
    lemma_param_digits(e.digits, st1);
    lemma_param_period(e.period, st2);
    lemma_param_algorithm(e.algorithm, st3);
    let q0 = key_value("secret"@, e.secret);
    let q1 = key_value("digits"@, decimal(e.digits as nat));
    let q2 = key_value("period"@, decimal(e.period as nat));
    let q3 = key_value("algorithm"@, algorithm_name(e.algorithm));
    let last: Seq<Seq<char>> = match e.issuer {
        Some(i) => seq![key_value("issuer"@, url_encode(i))],
        None => Seq::<Seq<char>>::empty(),
    };
    let final_st = match e.issuer {
        Some(i) => ParamView { issuer: Some(i), ..st4 },
        None => st4,
    };
    match e.issuer {
        Some(i) => {
            lemma_param_issuer(i, st4);
            lemma_apply_cons(key_value("issuer"@, url_encode(i)), Seq::<Seq<char>>::empty(), st4);
            assert(seq![key_value("issuer"@, url_encode(i))] + Seq::<Seq<char>>::empty() =~= last);
        },
        None => {},
    }
    assert(spec_apply_params(last, st4) == Ok::<ParamView, ErrorView>(final_st));
    lemma_apply_cons(q3, last, st3);
    lemma_apply_cons(q2, seq![q3] + last, st2);
    lemma_apply_cons(q1, seq![q2] + (seq![q3] + last), st1);
    lemma_apply_cons(q0, seq![q1] + (seq![q2] + (seq![q3] + last)), st);
    assert(uri_params(e) =~= seq![q0] + (seq![q1] + (seq![q2] + (seq![q3] + last))));
}

/// The decoded label of an account's URI.
pub open spec fn plain_label(e: EntryView) -> Seq<char> {
    match e.issuer {
        Some(i) => i + seq![':'] + e.name,
        None => e.name,
    }
}

proof fn lemma_label(e: EntryView)
    requires
        uri_roundtrips(e),
    ensures
        url_decode(uri_label(e)) == Some(plain_label(e)),
        !uri_label(e).contains('?'),
        label_parts(plain_label(e)).1 == e.name,
        e.issuer is None ==> label_parts(plain_label(e)).0 is None,
{
    lemma_url_encode_safe(e.name);
    lemma_lacks(url_encode(e.name), '?', |c: char| is_url_safe(c));
    match e.issuer {
        Some(i) => {
            lemma_url_decode_pair(i, e.name);
            lemma_url_encode_safe(i);
            lemma_lacks(url_encode(i), '?', |c: char| is_url_safe(c));
            lemma_lacks(seq![':'], '?', |c: char| c == ':');
            lemma_concat_lacks(url_encode(i), seq![':'], '?');
            lemma_concat_lacks(url_encode(i) + seq![':'], url_encode(e.name), '?');
            lemma_split_once_concat(i, e.name, ':');
        },
        None => {
            lemma_url_roundtrip(e.name);
            assert forall|j: int| 0 <= j < e.name.len() implies e.name[j] != ':' by {
                if e.name[j] == ':' {
                    assert(e.name.contains(':'));
                }
            }
            lemma_split_once_absent(e.name, ':');
        },
    }
}

proof fn lemma_uri_trimmed(e: EntryView)
    requires
        all_base32(e.secret),
    ensures
        trim(spec_to_uri(e)) == spec_to_uri(e),
{
    reveal_strlit("otpauth://totp/");
    let u = spec_to_uri(e);
    let p: Seq<char> = "otpauth://totp/"@;
    assert(u[0] == p[0]);
    assert(trim_start(u) == u);
    lemma_param_algorithm(e.algorithm, ParamView { secret: None, issuer: None, digits: 0, period: 0, algorithm: e.algorithm });
    let av = algorithm_name(e.algorithm);
    let head = p + uri_label(e) + seq!['?'] + key_value("secret"@, e.secret) + seq!['&']
        + key_value("digits"@, decimal(e.digits as nat)) + seq!['&'] + key_value(
        "period"@,
        decimal(e.period as nat),
    ) + seq!['&'];
    match e.issuer {
        Some(i) => {
            let ei = url_encode(i);
            let last_piece = key_value("issuer"@, ei);
            assert(u =~= (head + key_value("algorithm"@, av) + seq!['&']) + last_piece);
            if ei.len() > 0 {
                lemma_url_encode_safe(i);
                assert(last_piece.last() == ei.last());
                assert(is_url_safe(ei[ei.len() - 1]));
            } else {
                assert(last_piece.last() == '=');
            }
            assert(!is_white(u.last()));
        },
        None => {
            assert(u =~= head + key_value("algorithm"@, av));
            assert(key_value("algorithm"@, av).last() == av.last());
            assert(!is_white(u.last()));
        },
    }
    assert(trim_end(u) == u);
}

/// A label `issuer:name` (split at its first `:`) gives the issuer and the
/// name each without the white space around them; a label without `:` is all
/// name, likewise trimmed. The name kept is the middle of the text after the
/// `:`, with only white space dropped at its ends, and it neither starts nor
/// ends with white space.
pub proof fn lemma_label_name(i: Seq<char>, n: Seq<char>)
    requires
        !i.contains(':'),
    ensures
        label_parts(i + seq![':'] + n) == (Some(trim(i)), trim(n)),
        !i.contains(':') ==> label_parts(i).1 == trim(i) && label_parts(i).0 is None,
        exists|a: int, b: int|
            0 <= a <= b <= n.len() && label_parts(i + seq![':'] + n).1 == n.subrange(a, b) && (
            forall|k: int| 0 <= k < a ==> is_white(#[trigger] n[k])) && (forall|k: int|
                b <= k < n.len() ==> is_white(#[trigger] n[k])),
        label_parts(i + seq![':'] + n).1.len() > 0 ==> !is_white(
            label_parts(i + seq![':'] + n).1[0],
        ) && !is_white(label_parts(i + seq![':'] + n).1.last()),
{
    lemma_split_once_concat(i, n, ':');
    assert forall|j: int| 0 <= j < i.len() implies i[j] != ':' by {
        if i[j] == ':' {
            assert(i.contains(':'));
        }
    }
    lemma_split_once_absent(i, ':');
    lemma_trim_shape(n);
}

/// The account that `from_uri` reads has a name without white space at
/// either end: trimming it changes nothing.
pub proof fn lemma_from_uri_name_trimmed(uri: Seq<char>)
    ensures
        spec_from_uri(uri) matches Ok(e) ==> trim(e.name) == e.name && (e.name.len() > 0 ==> !is_white(
            e.name[0],
        ) && !is_white(e.name.last())),
{
    match strip_prefix(trim(uri), "otpauth://totp/"@) {
        None => {},
        Some(rest) => match split_once(rest, '?') {
            None => {},
            Some((label0, query)) => match url_decode(label0) {
                None => {},
                Some(label) => {
                    match split_once(label, ':') {
                        Some((i, n)) => lemma_trim_shape(n),
                        None => lemma_trim_shape(label),
                    }
                },
            },
        },
    }
}

/// Exporting an account as an `otpauth://totp/` URI and importing that URI
/// gives back the same account.
pub proof fn lemma_uri_roundtrip(e: EntryView)
    requires
        uri_roundtrips(e),
    ensures
        spec_from_uri(spec_to_uri(e)) == Ok::<EntryView, ErrorView>(e),
{
    reveal_strlit("otpauth://totp/");
    lemma_uri_trimmed(e);
    lemma_label(e);
    let (iss0, name) = label_parts(plain_label(e));
    let init = ParamView {
        secret: None,
        issuer: iss0,
        digits: 6,
        period: 30,
        algorithm: Algorithm::SHA1,
    };
    lemma_query_split(e);
    lemma_query_params(e, init);
    let label = uri_label(e);
    let query = uri_query(e);
    let rest = label + seq!['?'] + query;
    lemma_split_once_concat(label, query, '?');
    let p: Seq<char> = "otpauth://totp/"@;
    let u = spec_to_uri(e);
    assert(u =~= p + rest);
    assert(strip_prefix(u, p) == Some(rest)) by {
        assert(u.take(p.len() as int) =~= p);
        assert(u.skip(p.len() as int) =~= rest);
    }
}

} // verus!
