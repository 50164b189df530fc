use mwc713::base58::{from_base58, from_base58check, to_base58, to_base58check};
use mwc713::error::ErrorKind;
use mwc713::protocol::{pct_decode, split_str, trim_str};
use mwc713::strutil::{hex_decode, hex_encode, parse_u64, u64_to_string};

#[test]
fn base58_known_value() {
    let encoded = to_base58(&vec![0u8, 1u8, 2u8]);
    assert_eq!(encoded, "15T");
    let decoded = from_base58("15T").unwrap();
    assert_eq!(decoded, vec![0u8, 1u8, 2u8]);
}

#[test]
fn base58_empty_and_zeros() {
    assert_eq!(to_base58(&vec![]), "");
    assert_eq!(to_base58(&vec![0u8, 0u8]), "11");
    assert_eq!(from_base58("11").unwrap(), vec![0u8, 0u8]);
    assert_eq!(from_base58("").unwrap(), Vec::<u8>::new());
}

#[test]
fn base58_round_trip_various() {
    let samples: Vec<Vec<u8>> = vec![
        vec![255u8],
        vec![0u8, 255u8, 0u8, 7u8],
        vec![1u8; 33],
        (0u8..=255u8).collect(),
    ];
    for s in samples {
        let enc = to_base58(&s);
        assert_eq!(from_base58(&enc).unwrap(), s);
    }
}

#[test]
fn base58_invalid_character() {
    match from_base58("1a0b") {
        Err(ErrorKind::InvalidBase58Character(c, i)) => {
            assert_eq!(c, '0');
            assert_eq!(i, 2);
        },
        other => panic!("expected invalid character, got {:?}", other),
    }
}

#[test]
fn base58check_round_trip() {
    let data = vec![9u8, 8u8, 7u8, 6u8];
    let version = vec![1u8, 69u8];
    let enc = to_base58check(&data, &version);
    let (v, d) = from_base58check(&enc, 2).unwrap();
    assert_eq!(v, version);
    assert_eq!(d, data);
}

#[test]
fn base58check_rejects_tampering() {
    let data = vec![9u8, 8u8, 7u8, 6u8];
    let version = vec![1u8, 69u8];
    let enc = to_base58check(&data, &version);
    // flip the first character to another alphabet character
    let mut chars: Vec<char> = enc.chars().collect();
    chars[0] = if chars[0] == '2' { '3' } else { '2' };
    let bad: String = chars.into_iter().collect();
    match from_base58check(&bad, 2) {
        Err(ErrorKind::InvalidBase58Checksum) => {},
        other => panic!("expected checksum failure, got {:?}", other),
    }
}

#[test]
fn base58check_too_short() {
    match from_base58check("1", 2) {
        Err(ErrorKind::InvalidBase58Length) => {},
        other => panic!("expected length failure, got {:?}", other),
    }
}

#[test]
fn hex_round_trip() {
    let bytes = vec![0u8, 15u8, 16u8, 255u8, 171u8];
    let enc = hex_encode(&bytes);
    assert_eq!(enc, "000f10ffab");
    assert_eq!(hex_decode(&enc).unwrap(), bytes);
    assert_eq!(hex_decode("ABCDEF").unwrap(), vec![0xabu8, 0xcdu8, 0xefu8]);
}

#[test]
fn hex_rejects_odd_and_bad() {
    assert!(hex_decode("abc").is_none());
    assert!(hex_decode("zz").is_none());
}

#[test]
fn decimal_round_trip() {
    assert_eq!(u64_to_string(0), "0");
    assert_eq!(u64_to_string(65535), "65535");
    assert_eq!(u64_to_string(18446744073709551615), "18446744073709551615");
    assert_eq!(parse_u64("123"), Some(123));
    assert_eq!(parse_u64("0"), Some(0));
    assert_eq!(parse_u64(""), None);
    assert_eq!(parse_u64("12x"), None);
    assert_eq!(parse_u64("18446744073709551616"), None);
}

#[test]
fn split_on_separator() {
    let parts = split_str("a&b&c", '&');
    assert_eq!(parts, vec!["a", "b", "c"]);
    let parts = split_str("lonely", '&');
    assert_eq!(parts, vec!["lonely"]);
    let parts = split_str("&", '&');
    assert_eq!(parts, vec!["", ""]);
}

#[test]
fn percent_decoding() {
    assert_eq!(pct_decode("%7B%22k%22%3A%5B1%2C2%5D%7D"), "{\"k\":%5B1,2%5D}");
    assert_eq!(pct_decode("%7B%22a%22%3A1%2C%22b%22%3A2%7D"), "{\"a\":1,\"b\":2}");
    assert_eq!(pct_decode("plain"), "plain");
    assert_eq!(pct_decode("%2"), "%2");
}

#[test]
fn trimming() {
    assert_eq!(trim_str("  hello \n"), "hello");
    assert_eq!(trim_str("\t\r\n "), "");
    assert_eq!(trim_str("x"), "x");
    assert_eq!(trim_str(""), "");
}
