use base64::Engine;
use tufa::migration::{
    convert_entry, decode_key, decode_payload, decode_varint, extract_data, parse, parse_algorithm, parse_digits,
    skip_field, OtpParameters,
};
use tufa::totp::{normalize_secret, parse_uri, Algorithm, TotpError};

/// One `OtpParameters` message, field by field.
fn params(secret: &[u8], name: &str, issuer: &str, algorithm: u8, digits: u8, otp_type: u8) -> Vec<u8> {
    let mut m = Vec::new();
    m.push(0x0A);
    m.push(secret.len() as u8);
    m.extend_from_slice(secret);
    m.push(0x12);
    m.push(name.len() as u8);
    m.extend_from_slice(name.as_bytes());
    m.push(0x1A);
    m.push(issuer.len() as u8);
    m.extend_from_slice(issuer.as_bytes());
    m.extend_from_slice(&[0x20, algorithm, 0x28, digits, 0x30, otp_type]);
    m
}

/// A `MigrationPayload` holding the given messages.
fn payload(messages: &[Vec<u8>]) -> Vec<u8> {
    let mut p = Vec::new();
    for m in messages {
        p.push(0x0A);
        p.push(m.len() as u8);
        p.extend_from_slice(m);
    }
    p
}

fn migration_uri(bytes: &[u8]) -> String {
    let b64 = base64::engine::general_purpose::STANDARD.encode(bytes);
    format!("otpauth-migration://offline?data={}", urlencoding::encode(&b64))
}

#[test]
fn varints_decode_little_endian_base_128() {
    assert_eq!(decode_varint(&[0x00], 0), Some((0, 1)));
    assert_eq!(decode_varint(&[0x96, 0x01], 0), Some((150, 2)));
    assert_eq!(decode_varint(&[0xFF, 0x96, 0x01], 1), Some((150, 3)));
    let mut buf = Vec::new();
    prost::encoding::encode_varint(u64::MAX, &mut buf);
    assert_eq!(buf.len(), 10);
    assert_eq!(decode_varint(&buf, 0), Some((u64::MAX, 10)));
    let mut buf = Vec::new();
    prost::encoding::encode_varint(1 << 63, &mut buf);
    assert_eq!(decode_varint(&buf, 0), Some((1 << 63, 10)));
}

#[test]
fn bad_varints_are_refused() {
    assert_eq!(decode_varint(&[], 0), None);
    assert_eq!(decode_varint(&[0x80], 0), None);
    assert_eq!(decode_varint(&[0xFF; 9], 0), None);
    let mut eleven = vec![0xFF; 9];
    eleven.push(0x02);
    assert_eq!(decode_varint(&eleven, 0), None);
    assert_eq!(decode_varint(&[0xFF; 11], 0), None);
}

#[test]
fn keys_split_into_field_and_wire_type() {
    assert_eq!(decode_key(&[0x0A], 0), Some((1, 2, 1)));
    assert_eq!(decode_key(&[0x30], 0), Some((6, 0, 1)));
    assert_eq!(decode_key(&[0x07], 0), None);
    assert_eq!(decode_key(&[0x06], 0), None);
    assert_eq!(decode_key(&[0x02], 0), None);
}

#[test]
fn unknown_fields_are_skipped() {
    assert_eq!(skip_field(&[0x96, 0x01, 0x00], 0, 0, 9, 100), Some(2));
    assert_eq!(skip_field(&[1, 2, 3, 4, 5, 6, 7, 8], 0, 1, 9, 100), Some(8));
    assert_eq!(skip_field(&[1, 2, 3], 0, 1, 9, 100), None);
    assert_eq!(skip_field(&[2, 0xAA, 0xBB], 0, 2, 9, 100), Some(3));
    assert_eq!(skip_field(&[1, 2, 3, 4], 0, 5, 9, 100), Some(4));
    // A group with a varint inside, ended by the matching end-group key.
    assert_eq!(skip_field(&[0x08, 0x05, 0x4C], 0, 3, 9, 100), Some(3));
    // An end-group key with another field number.
    assert_eq!(skip_field(&[0x54], 0, 3, 9, 100), None);
    assert_eq!(skip_field(&[], 0, 4, 9, 100), None);
    assert_eq!(skip_field(&[0], 0, 0, 9, 0), None);
}

#[test]
fn nested_groups_hit_the_depth_limit() {
    // 99 nested group starts of field 1 inside the group being skipped, then
    // the 100 end keys.
    let mut deep = vec![0x0B; 99];
    deep.extend(vec![0x0C; 100]);
    assert_eq!(skip_field(&deep, 0, 3, 1, 100), Some(deep.len()));
    assert_eq!(skip_field(&deep, 0, 3, 1, 99), None);
}

#[test]
fn payload_decodes_accounts() {
    let bytes = payload(&[params(b"Hello!\xDE\xAD\xBE\xEF", "alice", "GitHub", 1, 1, 2)]);
    let p = decode_payload(&bytes).unwrap();
    assert_eq!(p.otp_parameters.len(), 1);
    let a = &p.otp_parameters[0];
    assert_eq!(a.secret, b"Hello!\xDE\xAD\xBE\xEF");
    assert_eq!(a.name, "alice");
    assert_eq!(a.issuer, "GitHub");
    assert_eq!((a.algorithm, a.digits, a.otp_type), (1, 1, 2));
}

#[test]
fn payload_errors() {
    for bad in [
        vec![0x0A, 0x05, 0x01],         // message longer than the bytes
        vec![0x08, 0x01],               // field 1 as a varint
        vec![0x0A, 0x02, 0x12, 0x01],   // name runs past the message
        vec![0x0A, 0x03, 0x12, 0x01, 0xFF], // name not UTF-8
        vec![0x0A, 0x02, 0x22, 0x00],   // algorithm with the wrong wire type
        vec![0x07],                     // wire type 7
    ] {
        match decode_payload(&bad) {
            Err(TotpError::InvalidUri(m)) => assert_eq!(m, "bad protobuf payload"),
            other => panic!("expected an error for {:?}, got {:?}", bad, other.map(|p| p.otp_parameters.len())),
        }
    }
}

#[test]
fn payload_last_value_wins_and_unknown_fields_pass() {
    let mut m = params(b"A", "first", "", 0, 0, 2);
    m.extend_from_slice(&[0x12, 0x06]);
    m.extend_from_slice(b"second");
    m.extend_from_slice(&[0x38, 0x01]); // field 7, unknown
    let mut bytes = payload(&[m]);
    bytes.extend_from_slice(&[0x10, 0x01]); // field 2 of the payload, unknown
    let p = decode_payload(&bytes).unwrap();
    assert_eq!(p.otp_parameters[0].name, "second");
    assert!(decode_payload(&[]).unwrap().otp_parameters.is_empty());
}

#[test]
fn negative_int32_fields() {
    let mut m = vec![0x20];
    let mut buf = Vec::new();
    prost::encoding::encode_varint((-1i64) as u64, &mut buf);
    m.extend_from_slice(&buf);
    let bytes = payload(&[m]);
    let p = decode_payload(&bytes).unwrap();
    assert_eq!(p.otp_parameters[0].algorithm, -1);
}

#[test]
fn algorithm_and_digit_numbers() {
    assert_eq!(parse_algorithm(1), Algorithm::SHA1);
    assert_eq!(parse_algorithm(2), Algorithm::SHA256);
    assert_eq!(parse_algorithm(3), Algorithm::SHA512);
    assert_eq!(parse_algorithm(0), Algorithm::SHA1);
    assert_eq!(parse_algorithm(-7), Algorithm::SHA1);
    assert_eq!(parse_digits(1), 6);
    assert_eq!(parse_digits(2), 8);
    assert_eq!(parse_digits(9), 6);
}

#[test]
fn migration_uri_becomes_entries() {
    let bytes = payload(&[
        params(b"Hello!\xDE\xAD\xBE\xEF", "alice", "GitHub", 2, 2, 2),
        params(b"12345", "counter", "", 1, 1, 1),
        params(b"12345678901234567890", "bob", "", 3, 1, 2),
    ]);
    let entries = parse(&migration_uri(&bytes)).unwrap();
    assert_eq!(entries.len(), 2);
    assert_eq!(entries[0].name, "alice");
    assert_eq!(entries[0].issuer.as_deref(), Some("GitHub"));
    assert_eq!(entries[0].secret, "JBSWY3DPEHPK3PXP");
    assert_eq!(entries[0].digits, 8);
    assert_eq!(entries[0].period, 30);
    assert_eq!(entries[0].algorithm, Algorithm::SHA256);
    assert_eq!(entries[1].name, "bob");
    assert_eq!(entries[1].issuer, None);
    assert_eq!(entries[1].secret, "GEZDGNBVGY3TQOJQGEZDGNBVGY3TQOJQ");
    assert_eq!(entries[1].digits, 6);
    assert_eq!(entries[1].algorithm, Algorithm::SHA512);
    let via_scheme = parse_uri(&migration_uri(&bytes)).unwrap();
    assert_eq!(via_scheme.len(), 2);
}

#[test]
fn extract_data_finds_the_data_parameter() {
    assert_eq!(
        extract_data("otpauth-migration://offline?x=1&data=AQID&data=BAUG").unwrap(),
        vec![1, 2, 3]
    );
    assert_eq!(extract_data("otpauth-migration://offline?data=AQ%3D%3D").unwrap(), vec![1]);
}

#[test]
fn extract_data_errors() {
    fn err(u: &str) -> &'static str {
        match extract_data(u) {
            Err(TotpError::InvalidUri(m)) => m,
            _ => "no error",
        }
    }
    assert_eq!(err("otpauth-migration://online?data=AQID"), "missing otpauth-migration://offline? prefix");
    assert_eq!(err("otpauth-migration://offline?x=1"), "missing data param");
    assert_eq!(err("otpauth-migration://offline?data=%FF"), "bad data encoding");
    assert_eq!(err("otpauth-migration://offline?data=!!!"), "bad base64 in data param");
    match parse("otpauth-migration://offline?data=Bw%3D%3D") {
        Err(TotpError::InvalidUri(m)) => assert_eq!(m, "bad protobuf payload"),
        _ => panic!("expected an error"),
    }
}

#[test]
fn converted_secrets_are_canonical() {
    let p = OtpParameters {
        secret: vec![0x48, 0x65, 0x6c, 0x6c, 0x6f, 0x21, 0xde, 0xad, 0xbe, 0xef],
        name: "alice".to_string(),
        issuer: String::new(),
        algorithm: 1,
        digits: 1,
        otp_type: 2,
    };
    let e = convert_entry(&p).unwrap();
    assert_eq!(normalize_secret(e.secret.clone()).unwrap(), e.secret);
}
