//! Transaction hashing and block-time parsing.

use cosmscan::bytes_to_tx_hash;
use cosmscan::datetime::DateTime;
use cosmscan::to_hex_upper;
use cosmscan::tx_hashes_of;

#[test]
fn convert_parse_tendermint_time() {
    let date_format = "YYYY-MM-DDTHH:mm:ss";
    let time = &"2022-08-04T02:08:43.1201678Z"[..date_format.len()];
    let parsed = DateTime::parse(time);
    assert_eq!(
        parsed,
        Some(DateTime { year: 2022, month: 8, day: 4, hour: 2, minute: 8, second: 43 })
    );
}

#[test]
fn extension_parse_tendermint_time() {
    let date_format = "YYYY-MM-DDTHH:mm:ss";
    let time = &"2022-08-04T02:08:43.1201678Z"[..date_format.len()];
    let parsed = DateTime::parse(time);
    assert_eq!(
        parsed,
        Some(DateTime { year: 2022, month: 8, day: 4, hour: 2, minute: 8, second: 43 })
    );
}

#[test]
fn parse_accepts_exact_length() {
    let parsed = DateTime::parse("1999-12-31T23:59:59");
    assert_eq!(
        parsed,
        Some(DateTime { year: 1999, month: 12, day: 31, hour: 23, minute: 59, second: 59 })
    );
}

#[test]
fn parse_rejects_short_input() {
    assert_eq!(DateTime::parse("2022-08-04T02:08"), None);
}

#[test]
fn parse_rejects_bad_month() {
    assert_eq!(DateTime::parse("2022-13-04T02:08:43"), None);
    assert_eq!(DateTime::parse("2022-00-04T02:08:43"), None);
}

#[test]
fn parse_rejects_bad_punctuation() {
    assert_eq!(DateTime::parse("2022/08/04T02:08:43"), None);
    assert_eq!(DateTime::parse("2022-08-04 02:08:43"), None);
}

#[test]
fn parse_handles_leap_day() {
    assert_eq!(
        DateTime::parse("2020-02-29T00:00:00"),
        Some(DateTime { year: 2020, month: 2, day: 29, hour: 0, minute: 0, second: 0 })
    );
    assert_eq!(DateTime::parse("2021-02-29T00:00:00"), None);
    assert_eq!(DateTime::parse("1900-02-29T00:00:00"), None);
    assert_eq!(
        DateTime::parse("2000-02-29T00:00:00"),
        Some(DateTime { year: 2000, month: 2, day: 29, hour: 0, minute: 0, second: 0 })
    );
}

#[test]
fn parse_rejects_out_of_range_time() {
    assert_eq!(DateTime::parse("2022-08-04T24:08:43"), None);
    assert_eq!(DateTime::parse("2022-08-04T02:60:43"), None);
    assert_eq!(DateTime::parse("2022-08-04T02:08:60"), None);
}

#[test]
fn tx_hash_of_empty_bytes() {
    assert_eq!(
        bytes_to_tx_hash(b""),
        "E3B0C44298FC1C149AFBF4C8996FB92427AE41E4649B934CA495991B7852B855"
    );
}

#[test]
fn tx_hash_of_known_bytes() {
    assert_eq!(
        bytes_to_tx_hash(b"abc"),
        "BA7816BF8F01CFEA414140DE5DAE2223B00361A396177A9CB410FF61F20015AD"
    );
}

#[test]
fn hex_encoding_pads_each_byte() {
    assert_eq!(to_hex_upper(&[0x00, 0x0f, 0xa5]), "000FA5");
    assert_eq!(to_hex_upper(&[]), "");
}

#[test]
fn tx_hashes_in_body_order() {
    let bodies = vec![b"abc".to_vec(), b"".to_vec()];
    let hashes = tx_hashes_of(&bodies);
    assert_eq!(hashes.len(), 2);
    assert_eq!(
        hashes[0],
        "BA7816BF8F01CFEA414140DE5DAE2223B00361A396177A9CB410FF61F20015AD"
    );
    assert_eq!(
        hashes[1],
        "E3B0C44298FC1C149AFBF4C8996FB92427AE41E4649B934CA495991B7852B855"
    );
}
