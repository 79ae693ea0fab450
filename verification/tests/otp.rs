use auth2_core::db::tokens::TokenAlg;
use auth2_core::error::Error;
use auth2_core::otp::{
    code_from_digest, compute_current, decode_secret, encode_secret, format_code,
    parse_provisioning_url, starts_as_totp_url, truncate_digest,
};

const SEED_SHA1: &[u8] = b"12345678901234567890";
const SEED_SHA256: &[u8] = b"12345678901234567890123456789012";
const SEED_SHA512: &[u8] = b"1234567890123456789012345678901234567890123456789012345678901234";

fn code(seed: &[u8], algorithm: TokenAlg, digits: u8, period: u32, time: u64) -> String {
    compute_current(seed.to_vec(), algorithm, digits, period, None, String::new(), time)
        .unwrap()
        .0
}

#[test]
fn vector_sha1_at_59() {
    assert_eq!(code(SEED_SHA1, TokenAlg::Sha1, 8, 30, 59), "94287082");
}

#[test]
fn vector_sha256_at_59() {
    assert_eq!(code(SEED_SHA256, TokenAlg::Sha256, 8, 30, 59), "46119246");
}

#[test]
fn vector_sha512_at_59() {
    assert_eq!(code(SEED_SHA512, TokenAlg::Sha512, 8, 30, 59), "90693936");
}

#[test]
fn vectors_at_later_times() {
    assert_eq!(code(SEED_SHA1, TokenAlg::Sha1, 8, 30, 1111111109), "07081804");
    assert_eq!(code(SEED_SHA256, TokenAlg::Sha256, 8, 30, 1111111109), "68084774");
    assert_eq!(code(SEED_SHA512, TokenAlg::Sha512, 8, 30, 1111111109), "25091201");
    assert_eq!(code(SEED_SHA1, TokenAlg::Sha1, 8, 30, 1234567890), "89005924");
    assert_eq!(code(SEED_SHA1, TokenAlg::Sha1, 8, 30, 20000000000), "65353130");
}

#[test]
fn code_is_constant_within_a_period() {
    let first = code(SEED_SHA1, TokenAlg::Sha1, 6, 30, 30);
    for time in 30..60 {
        assert_eq!(code(SEED_SHA1, TokenAlg::Sha1, 6, 30, time), first);
    }
    assert_eq!(first, "287082");
    assert_ne!(code(SEED_SHA1, TokenAlg::Sha1, 6, 30, 60), first);
}

#[test]
fn labels_take_no_part() {
    let plain = compute_current(SEED_SHA1.to_vec(), TokenAlg::Sha1, 6, 30, None, String::new(), 59);
    let labelled = compute_current(
        SEED_SHA1.to_vec(),
        TokenAlg::Sha1,
        6,
        30,
        Some("GitHub".into()),
        "me@example.com".into(),
        59,
    );
    assert_eq!(plain.unwrap(), labelled.unwrap());
}

#[test]
fn seconds_remaining_counts_to_the_next_period() {
    let remaining = |period: u32, time: u64| {
        compute_current(SEED_SHA1.to_vec(), TokenAlg::Sha1, 6, period, None, String::new(), time)
            .unwrap()
            .1
    };
    assert_eq!(remaining(30, 59), 1);
    assert_eq!(remaining(30, 60), 30);
    assert_eq!(remaining(30, 0), 30);
    assert_eq!(remaining(30, 61), 29);
    assert_eq!(remaining(60, 59), 1);
    assert_eq!(remaining(1, 12345), 1);
    assert_eq!(remaining(30, u64::MAX), 30 - (u64::MAX % 30) as u32);
    assert_eq!(remaining(u32::MAX, 5), u32::MAX - 5);
}

#[test]
fn period_of_zero_is_refused() {
    let res = compute_current(SEED_SHA1.to_vec(), TokenAlg::Sha1, 6, 0, None, String::new(), 59);
    assert!(matches!(res, Err(Error::InternalError(_))));
}

#[test]
fn digits_beyond_the_value_are_zeros() {
    assert_eq!(code(SEED_SHA1, TokenAlg::Sha1, 10, 30, 59), "1094287082");
    assert_eq!(code(SEED_SHA1, TokenAlg::Sha1, 12, 30, 59), "001094287082");
    assert_eq!(code(SEED_SHA1, TokenAlg::Sha1, 1, 30, 59), "2");
    assert_eq!(code(SEED_SHA1, TokenAlg::Sha1, 0, 30, 59), "0");
    let long = code(SEED_SHA1, TokenAlg::Sha1, 255, 30, 59);
    assert_eq!(long.len(), 255);
    assert!(long.ends_with("1094287082"));
    assert!(long[..245].chars().all(|c| c == '0'));
}

#[test]
fn truncation_of_the_reference_tag() {
    let tag: [u8; 20] = [
        0x1f, 0x86, 0x98, 0x69, 0x0e, 0x02, 0xca, 0x16, 0x61, 0x85, 0x50, 0xef, 0x7f, 0x19, 0xda,
        0x8e, 0x94, 0x5b, 0x55, 0x5a,
    ];
    assert_eq!(truncate_digest(&tag), 0x50ef7f19);
    assert_eq!(code_from_digest(&tag, 6), "872921");
    assert_eq!(code_from_digest(&tag, 8), "57872921");
    assert_eq!(code_from_digest(&tag, 10), "1357872921");
}

#[test]
fn truncation_drops_the_top_bit() {
    let mut tag = [0xffu8; 20];
    tag[19] = 0xf0;
    assert_eq!(truncate_digest(&tag), 0x7fff_ffff);
    assert_eq!(code_from_digest(&tag, 9), "147483647");
    let mut tag = [0u8; 64];
    tag[63] = 0x0f;
    tag[15] = 0x80;
    tag[18] = 0x07;
    assert_eq!(truncate_digest(&tag), 7);
    assert_eq!(code_from_digest(&tag, 6), "000007");
}

#[test]
fn format_pads_on_the_left() {
    assert_eq!(format_code(42, 6), "000042");
    assert_eq!(format_code(0, 6), "000000");
    assert_eq!(format_code(0, 0), "0");
    assert_eq!(format_code(0, 1), "0");
    assert_eq!(format_code(123456, 6), "123456");
    assert_eq!(format_code(1234567, 6), "1234567");
    assert_eq!(format_code(u32::MAX, 3), "4294967295");
    assert_eq!(format_code(u32::MAX, 12), "004294967295");
    assert_eq!(format_code(9, 2), "09");
    assert_eq!(format_code(10, 2), "10");
}

#[test]
fn base32_both_ways() {
    let text = encode_secret(&SEED_SHA1.to_vec());
    assert_eq!(text, "GEZDGNBVGY3TQOJQGEZDGNBVGY3TQOJQ");
    assert_eq!(decode_secret(text).unwrap(), SEED_SHA1);
    assert_eq!(encode_secret(&vec![0xf8, 0x3e, 0x7f, 0x83]), "7A7H7AY");
    assert_eq!(decode_secret("7A7H7AY".into()).unwrap(), vec![0xf8, 0x3e, 0x7f, 0x83]);
    assert_eq!(decode_secret("".into()).unwrap(), Vec::<u8>::new());
}

#[test]
fn base32_refuses_other_text() {
    let res = decode_secret("not base32 !".into());
    match res {
        Err(Error::InternalError(text)) => assert_eq!(text, "Could not decode base32 secret."),
        other => panic!("unexpected result: {:?}", other),
    }
}

#[test]
fn url_with_all_parameters() {
    let spec = parse_provisioning_url(
        "otpauth://totp/GitHub:me%40example.com?secret=GEZDGNBVGY3TQOJQGEZDGNBVGY3TQOJQ&issuer=GitHub&algorithm=SHA256&digits=8&period=60",
    )
    .unwrap();
    assert_eq!(spec.account, "me@example.com");
    assert_eq!(spec.issuer.as_deref(), Some("GitHub"));
    assert_eq!(spec.secret, SEED_SHA1);
    assert_eq!(spec.algorithm, TokenAlg::Sha256);
    assert_eq!(spec.digits, 8);
    assert_eq!(spec.period, 60);
}

#[test]
fn url_with_defaults() {
    let spec = parse_provisioning_url("otpauth://totp/me?secret=GEZDGNBV").unwrap();
    assert_eq!(spec.account, "me");
    assert_eq!(spec.issuer, None);
    assert_eq!(spec.secret, b"12345");
    assert_eq!(spec.algorithm, TokenAlg::Sha1);
    assert_eq!(spec.digits, 6);
    assert_eq!(spec.period, 30);
    let spec = parse_provisioning_url("otpauth://totp?secret=GEZDGNBV&algorithm=sha512").unwrap();
    assert_eq!(spec.account, "");
    assert_eq!(spec.algorithm, TokenAlg::Sha512);
}

#[test]
fn url_that_is_malformed() {
    for url in [
        "",
        "otpauth",
        "https://example.com/totp?secret=GEZDGNBV",
        "otpauth://hotp/me?secret=GEZDGNBV",
        "otpauth://totp.example/me?secret=GEZDGNBV",
        "otpauth://totp@/me?secret=GEZDGNBV",
        "otpauth://totp:80/me?secret=GEZDGNBV",
        "otpauth:///me?secret=GEZDGNBV",
        "otpauth:me?secret=GEZDGNBV",
        " otpauth://totp/me?secret=GEZDGNBV",
        "otpauth://totp/me",
        "otpauth://totp/me?secret=",
        "otpauth://totp/me?secret=not-base32",
        "otpauth://totp/me?secret=GEZDGNBV&digits=six",
        "otpauth://totp/me?secret=GEZDGNBV&period=-1",
        "otpauth://totp/me?secret=GEZDGNBV&algorithm=MD5",
        "otpauth://totp/A:me?secret=GEZDGNBV&issuer=B",
    ] {
        let res = parse_provisioning_url(url);
        assert!(matches!(res, Err(Error::InternalError(_))), "{}: {:?}", url, res);
    }
}

#[test]
fn url_prefix_test() {
    assert!(starts_as_totp_url("otpauth://totp"));
    assert!(starts_as_totp_url("otpauth://totp/"));
    assert!(starts_as_totp_url("otpauth://totp?secret=A"));
    assert!(starts_as_totp_url("otpauth://totp#x"));
    assert!(!starts_as_totp_url("otpauth://totpx"));
    assert!(!starts_as_totp_url("otpauth://tot"));
    assert!(!starts_as_totp_url("OTPAUTH://totp/"));
    assert!(!starts_as_totp_url("otpauth://totp@host/"));
    assert!(!starts_as_totp_url("ötpauth://totp/"));
}

#[test]
fn url_parser_returns_on_odd_input() {
    for rest in [
        "",
        "/",
        "?",
        "#",
        "/%",
        "/%zz?secret=GEZDGNBV",
        "/%00:%00?secret=GEZDGNBV",
        "/a:b:c?secret=GEZDGNBV",
        "/::?secret=GEZDGNBV",
        "?secret=GEZDGNBV&secret=",
        "?secret=GEZDGNBV&issuer=",
        "?&&&=&=&",
        "/\t\n?secret=GEZDGNBV",
        "/\u{0}?secret=GEZDGNBV",
        "//host/path?secret=GEZDGNBV",
        "/me?secret=GEZDGNBV&digits=99999999999999999999999",
        "/me?secret=GEZDGNBV&digits=18446744073709551615",
        "/me?secret=GEZDGNBV&period=0",
        "/me?secret=GEZDGNBV#fragment?x",
        "/\u{1F600}?secret=GEZDGNBV",
        "#secret=GEZDGNBV",
    ] {
        let url = format!("otpauth://totp{}", rest);
        assert!(starts_as_totp_url(&url) || rest.is_empty(), "{}", url);
        match parse_provisioning_url(&url) {
            Ok(spec) => assert!(!spec.secret.is_empty(), "{}", url),
            Err(Error::InternalError(_)) => (),
            Err(other) => panic!("{}: {:?}", url, other),
        }
    }
}
