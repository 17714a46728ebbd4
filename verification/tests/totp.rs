use base32::Alphabet;
use ferro::totp::{
    counter_bytes, format_code, format_six, generate, generate_secret, otpauth_uri, step_counter,
    truncate, url_encode, verify, verify_with_window, STEP_SECS,
};
use time::OffsetDateTime;

/// RFC 6238 reference: secret "12345678901234567890" (ASCII), time 59 →
/// code 287082.
#[test]
fn rfc_6238_reference_vector() {
    let secret_ascii = b"12345678901234567890";
    let secret_b32 = base32::encode(Alphabet::Rfc4648 { padding: false }, secret_ascii);
    let at = OffsetDateTime::from_unix_timestamp(59).unwrap();
    assert_eq!(generate(&secret_b32, at.unix_timestamp()).unwrap(), "287082");
}

#[test]
fn verify_accepts_drift_within_window() {
    let secret = generate_secret();
    let now = OffsetDateTime::from_unix_timestamp(1_700_000_000).unwrap();
    let code = generate(&secret, now.unix_timestamp()).unwrap();
    // Same step
    assert!(verify(&secret, &code, now.unix_timestamp()));
    // One step earlier — within window.
    let before = now - time::Duration::seconds(STEP_SECS as i64);
    assert!(verify(&secret, &code, before.unix_timestamp()));
    // Two steps later — outside window.
    let after = now + time::Duration::seconds(STEP_SECS as i64 * 2);
    assert!(!verify(&secret, &code, after.unix_timestamp()));
}

#[test]
fn verify_rejects_wrong_code() {
    let secret = generate_secret();
    let now = OffsetDateTime::now_utc();
    assert!(!verify(&secret, "000000", now.unix_timestamp()));
}

#[test]
fn otpauth_uri_format() {
    let uri = otpauth_uri("JBSWY3DPEHPK3PXP", "alice@example.com", "Ferro CMS");
    assert!(uri.starts_with("otpauth://totp/Ferro%20CMS:alice%40example.com?"));
    assert!(uri.contains("secret=JBSWY3DPEHPK3PXP"));
    assert!(uri.contains("issuer=Ferro%20CMS"));
}

#[test]
fn otpauth_uri_exact_text() {
    assert_eq!(
        otpauth_uri("JBSWY3DPEHPK3PXP", "alice@example.com", "Ferro CMS"),
        "otpauth://totp/Ferro%20CMS:alice%40example.com?secret=JBSWY3DPEHPK3PXP\
         &issuer=Ferro%20CMS&algorithm=SHA1&digits=6&period=30"
    );
}

#[test]
fn url_encode_keeps_unreserved_and_escapes_the_rest() {
    assert_eq!(url_encode("AZaz09-_.~"), "AZaz09-_.~");
    assert_eq!(url_encode("a b/c?"), "a%20b%2Fc%3F");
    assert_eq!(url_encode("é"), "%C3%A9");
    assert_eq!(url_encode(""), "");
}

#[test]
fn step_counter_clamps_and_divides() {
    assert_eq!(step_counter(-5), 0);
    assert_eq!(step_counter(29), 0);
    assert_eq!(step_counter(30), 1);
    assert_eq!(step_counter(1_700_000_000), 56_666_666);
}

#[test]
fn counter_bytes_are_big_endian() {
    assert_eq!(counter_bytes(0x0102_0304_0506_0708), vec![1, 2, 3, 4, 5, 6, 7, 8]);
    assert_eq!(counter_bytes(1), vec![0, 0, 0, 0, 0, 0, 0, 1]);
}

#[test]
fn truncate_matches_rfc_4226_example() {
    // RFC 4226 §5.4 example tag: dynamic truncation gives 0x50ef7f19.
    let tag: [u8; 20] = [
        0x1f, 0x86, 0x98, 0x69, 0x0e, 0x02, 0xca, 0x16, 0x61, 0x85, 0x50, 0xef, 0x7f, 0x19,
        0xda, 0x8e, 0x94, 0x5b, 0x55, 0x5a,
    ];
    assert_eq!(truncate(&tag), 0x50ef_7f19 % 1_000_000);
    assert_eq!(truncate(&tag), 872_921);
}

#[test]
fn format_six_pads_with_zeros() {
    assert_eq!(format_six(7), "000007");
    assert_eq!(format_six(872_921), "872921");
    assert_eq!(format_six(0), "000000");
}

#[test]
fn format_code_matches_rfc_4226_vectors() {
    // RFC 4226 appendix D, secret "12345678901234567890".
    let key = b"12345678901234567890";
    assert_eq!(format_code(key, 0), "755224");
    assert_eq!(format_code(key, 1), "287082");
    assert_eq!(format_code(key, 9), "520489");
}

#[test]
fn generate_rejects_bad_secret() {
    assert!(generate("not base32!", 0).is_none());
    assert!(generate("jbswy3dp", 0).is_none());
    assert!(!verify("not base32!", "000000", 0));
}

#[test]
fn generated_secret_is_accepted() {
    let s = generate_secret();
    assert_eq!(s.len(), 32);
    assert!(s.chars().all(|c| c.is_ascii_uppercase() || ('2'..='7').contains(&c)));
    assert!(generate(&s, 1_000).is_some());
}

#[test]
fn window_zero_is_exact_and_negative_window_rejects() {
    let secret = base32::encode(Alphabet::Rfc4648 { padding: false }, b"12345678901234567890");
    assert!(verify_with_window(&secret, "287082", 59, 0));
    assert!(!verify_with_window(&secret, "287082", 60, 0));
    assert!(verify_with_window(&secret, "287082", 60, 1));
    assert!(!verify_with_window(&secret, "287082", 59, -1));
    // Before the epoch the step clamps to 0.
    assert!(verify_with_window(&secret, "755224", -100, 0));
}

#[test]
fn verify_accepts_exactly_the_three_neighbouring_codes() {
    let secret = base32::encode(Alphabet::Rfc4648 { padding: false }, b"12345678901234567890");
    let at: i64 = 1_111_111_109;
    let before = generate(&secret, at - 30).unwrap();
    let now = generate(&secret, at).unwrap();
    let after = generate(&secret, at + 30).unwrap();
    let far = generate(&secret, at + 60).unwrap();
    assert!(verify(&secret, &before, at));
    assert!(verify(&secret, &now, at));
    assert!(verify(&secret, &after, at));
    assert!(![&before, &now, &after].contains(&&far));
    assert!(!verify(&secret, &far, at));
    assert!(!verify(&secret, "28708", 59));
    assert!(!verify(&secret, "287082 ", 59));
}

#[test]
fn generated_secret_decodes_to_twenty_bytes() {
    let s = generate_secret();
    let key = base32::decode(Alphabet::Rfc4648 { padding: false }, &s).unwrap();
    assert_eq!(key.len(), 20);
    assert_eq!(base32::encode(Alphabet::Rfc4648 { padding: false }, &key), s);
}
