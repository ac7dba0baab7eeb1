use tufa::totp::{normalize_secret, parse_uri, totp_ttl, totp_ttl_at, Algorithm, TotpEntry, TotpError};
use tufa::totp_uri::{drawing_size, TotpURI};

const RFC_SECRET_SHA1: &str = "GEZDGNBVGY3TQOJQGEZDGNBVGY3TQOJQ";

#[test]
fn new_entry_normalizes_secret() {
    let e = TotpEntry::new("jbsw y3dp\tehpk 3pxp".to_string(), "alice".to_string()).unwrap();
    assert_eq!(e.secret, "JBSWY3DPEHPK3PXP");
    assert_eq!(e.name, "alice");
    assert_eq!(e.issuer, None);
    assert_eq!(e.digits, 6);
    assert_eq!(e.period, 30);
    assert_eq!(e.algorithm, Algorithm::SHA1);
}

#[test]
fn new_entry_rejects_non_base32() {
    let r = TotpEntry::new("JBSWY3DP1".to_string(), "x".to_string());
    assert!(matches!(r, Err(TotpError::InvalidSecret)));
    assert!(matches!(normalize_secret("ABC=".to_string()), Err(TotpError::InvalidSecret)));
}

#[test]
fn normalizing_twice_changes_nothing() {
    let once = normalize_secret(" jbswy3dp ehpk3pxp ".to_string()).unwrap();
    let twice = normalize_secret(once.clone()).unwrap();
    assert_eq!(once, twice);
}

#[test]
fn display_name_with_and_without_issuer() {
    let e = TotpEntry::new("JBSWY3DPEHPK3PXP".to_string(), "alice".to_string()).unwrap();
    assert_eq!(e.display_name(), "alice");
    let e = e.with_issuer("GitHub".to_string());
    assert_eq!(e.display_name(), "GitHub:alice");
}

#[test]
fn from_entry_keeps_issuer() {
    let e = TotpEntry::from_entry("jbswy3dpehpk3pxp".to_string(), "bob".to_string(), Some("Acme".to_string()))
        .unwrap();
    assert_eq!(e.issuer.as_deref(), Some("Acme"));
    assert_eq!(e.secret, "JBSWY3DPEHPK3PXP");
}

#[test]
fn rfc6238_sha1_codes() {
    let mut e = TotpEntry::new(RFC_SECRET_SHA1.to_string(), "rfc".to_string()).unwrap();
    e.digits = 8;
    assert_eq!(e.generate_otp_at(59).unwrap(), "94287082");
    assert_eq!(e.generate_otp_at(1111111109).unwrap(), "07081804");
    assert_eq!(e.generate_otp_at(1234567890).unwrap(), "89005924");
    e.digits = 6;
    assert_eq!(e.generate_otp_at(59).unwrap(), "287082");
}

#[test]
fn rfc6238_sha256_code() {
    let mut e = TotpEntry::new(
        "GEZDGNBVGY3TQOJQGEZDGNBVGY3TQOJQGEZDGNBVGY3TQOJQGEZA".to_string(),
        "rfc".to_string(),
    )
    .unwrap();
    e.digits = 8;
    e.algorithm = Algorithm::SHA256;
    assert_eq!(e.generate_otp_at(59).unwrap(), "46119246");
}

#[test]
fn current_code_has_the_digit_count() {
    let e = TotpEntry::new("JBSWY3DPEHPK3PXP".to_string(), "a".to_string()).unwrap();
    let code = e.generate_otp().unwrap();
    assert_eq!(code.len(), 6);
    assert!(code.chars().all(|c| c.is_ascii_digit()));
}

#[test]
fn generation_with_bad_secret_fails() {
    let mut e = TotpEntry::new("JBSWY3DPEHPK3PXP".to_string(), "a".to_string()).unwrap();
    e.secret = "not base32!".to_string();
    assert!(matches!(e.generate_otp_at(59), Err(TotpError::InvalidSecret)));
}

#[test]
fn ttl_counts_down_the_window() {
    assert_eq!(totp_ttl_at(0), 30);
    assert_eq!(totp_ttl_at(1), 29);
    assert_eq!(totp_ttl_at(29), 1);
    assert_eq!(totp_ttl_at(30), 30);
    assert_eq!(totp_ttl_at(59), 1);
    let t = totp_ttl();
    assert!((1..=30).contains(&t));
}

#[test]
fn to_uri_with_issuer() {
    let e = TotpEntry::new("JBSWY3DPEHPK3PXP".to_string(), "alice smith".to_string())
        .unwrap()
        .with_issuer("Big Co".to_string());
    assert_eq!(
        e.to_uri().to_string(),
        "otpauth://totp/Big%20Co:alice%20smith?secret=JBSWY3DPEHPK3PXP&digits=6&period=30&algorithm=SHA1&issuer=Big%20Co"
    );
}

#[test]
fn to_uri_without_issuer() {
    let e = TotpEntry::new("JBSWY3DPEHPK3PXP".to_string(), "a:b".to_string()).unwrap();
    assert_eq!(
        e.to_uri().to_string(),
        "otpauth://totp/a%3Ab?secret=JBSWY3DPEHPK3PXP&digits=6&period=30&algorithm=SHA1"
    );
}

#[test]
fn from_uri_reads_all_parameters() {
    let e = TotpEntry::from_uri(
        "  otpauth://totp/ACME%20Co:john@example.com?secret=jbswy3dpehpk3pxp&issuer=ACME%20Co&algorithm=SHA256&digits=8&period=60  ",
    )
    .unwrap();
    assert_eq!(e.name, "john@example.com");
    assert_eq!(e.issuer.as_deref(), Some("ACME Co"));
    assert_eq!(e.secret, "JBSWY3DPEHPK3PXP");
    assert_eq!(e.digits, 8);
    assert_eq!(e.period, 60);
    assert_eq!(e.algorithm, Algorithm::SHA256);
}

#[test]
fn from_uri_issuer_parameter_overrides_label() {
    let e = TotpEntry::from_uri("otpauth://totp/Old:me?issuer=New&secret=JBSWY3DPEHPK3PXP").unwrap();
    assert_eq!(e.issuer.as_deref(), Some("New"));
    assert_eq!(e.name, "me");
}

#[test]
fn from_uri_errors() {
    fn err(u: &str) -> String {
        match TotpEntry::from_uri(u) {
            Err(TotpError::InvalidUri(m)) => m.to_string(),
            Err(e) => e.to_string(),
            Ok(_) => "ok".to_string(),
        }
    }
    assert_eq!(err("otpauth://hotp/x?secret=A"), "missing otpauth://totp/ prefix");
    assert_eq!(err("otpauth://totp/x"), "missing query string");
    assert_eq!(err("otpauth://totp/x?secret"), "bad query param");
    assert_eq!(err("otpauth://totp/x?digits=abc&secret=JBSWY3DP"), "bad digits value");
    assert_eq!(err("otpauth://totp/x?period=-1&secret=JBSWY3DP"), "bad period value");
    assert_eq!(err("otpauth://totp/x?algorithm=MD5&secret=JBSWY3DP"), "unknown algorithm");
    assert_eq!(err("otpauth://totp/x?issuer=a"), "missing secret");
    assert_eq!(err("otpauth://totp/%FF?secret=JBSWY3DP"), "bad label encoding");
    assert_eq!(err("otpauth://totp/x?issuer=%FF&secret=JBSWY3DP"), "bad param encoding");
    assert_eq!(err("otpauth://totp/x?secret=JBSW1"), "invalid secret");
}

#[test]
fn uri_round_trip() {
    let e = TotpEntry::new("JBSWY3DPEHPK3PXP".to_string(), "alice & bob".to_string())
        .unwrap()
        .with_issuer("Q&A=?".to_string());
    let back = TotpEntry::from_uri(e.to_uri().as_str()).unwrap();
    assert_eq!(back.name, e.name);
    assert_eq!(back.issuer, e.issuer);
    assert_eq!(back.secret, e.secret);
    assert_eq!(back.digits, e.digits);
    assert_eq!(back.period, e.period);
    assert_eq!(back.algorithm, e.algorithm);
}

#[test]
fn parse_uri_dispatches_on_scheme() {
    let v = parse_uri("otpauth://totp/a?secret=JBSWY3DPEHPK3PXP").unwrap();
    assert_eq!(v.len(), 1);
    assert_eq!(v[0].name, "a");
    match parse_uri("https://example.com") {
        Err(TotpError::InvalidUri(m)) => assert_eq!(m, "unrecognized URI scheme"),
        _ => panic!("expected an error"),
    }
    match parse_uri("otpauth-migration://online?data=") {
        Err(TotpError::InvalidUri(m)) => assert_eq!(m, "missing otpauth-migration://offline? prefix"),
        _ => panic!("expected an error"),
    }
}

#[test]
fn error_messages() {
    assert_eq!(TotpError::InvalidSecret.to_string(), "invalid secret");
    assert_eq!(TotpError::InvalidUri("x").to_string(), "invalid otpauth URI: x");
    assert_eq!(TotpError::GenerationFailed("y".to_string()).to_string(), "generation failed: y");
    assert_eq!(TotpError::DuplicatedSecret.to_string(), "account with this secret already exists");
    assert_eq!(Algorithm::SHA512.to_string(), "SHA512");
}

#[test]
fn qr_code_of_a_uri() {
    let uri = TotpURI::new("otpauth://totp/a?secret=JBSWY3DPEHPK3PXP".to_string());
    let (s, w, h) = uri.to_qrcode_rendered().unwrap();
    assert_eq!(drawing_size(&s), (w, h));
    assert!(w >= 21);
    assert_eq!(h as usize, s.lines().count());
    assert_eq!(uri.to_qrcode_string().unwrap(), s);
    let too_long = TotpURI::new("x".repeat(5000));
    assert!(too_long.to_qrcode_string().is_err());
}

#[test]
fn drawing_size_counts_lines() {
    assert_eq!(drawing_size(""), (0, 0));
    assert_eq!(drawing_size("abc"), (3, 1));
    assert_eq!(drawing_size("ab\ncde\n"), (2, 2));
    assert_eq!(drawing_size("ab\r\ncd"), (2, 2));
    assert_eq!(drawing_size("\n"), (0, 1));
    assert_eq!(drawing_size("é\nx"), (1, 2));
}

#[test]
fn totp_uri_text() {
    let mut u = TotpURI::new("otpauth://".to_string());
    u.push_str("totp/x");
    assert_eq!(u.as_str(), "otpauth://totp/x");
}

#[test]
fn qr_drawing_of_a_uri() {
    let uri = TotpURI::new("otpauth://totp/alice?secret=JBSWY3DPEHPK3PXP".to_string());
    let (s, w, h) = uri.to_qrcode_rendered().unwrap();
    assert!(!s.is_empty());
    assert_eq!(uri.to_qrcode_string().unwrap(), s);
    assert_eq!(h as usize, s.lines().count());
    assert_eq!(w as usize, s.lines().next().unwrap().chars().count());
}
