use dash_button::error::Error;
use dash_button::mac::{matches_prefix, Mac};

fn bytes_of(m: Mac) -> [u8; 6] {
    m.octets().expect("a specific address")
}

#[test]
fn parse_with_colons() {
    let m = Mac::parse("AC:63:BE:12:34:56").unwrap();
    assert_eq!(bytes_of(m), [0xAC, 0x63, 0xBE, 0x12, 0x34, 0x56]);
}

#[test]
fn parse_without_colons() {
    let m = Mac::parse("AC63BE123456").unwrap();
    assert_eq!(bytes_of(m), [0xAC, 0x63, 0xBE, 0x12, 0x34, 0x56]);
}

#[test]
fn parse_lower_case_and_odd_colons() {
    let m = Mac::parse("a:c63b:e1234:56").unwrap();
    assert_eq!(bytes_of(m), [0xAC, 0x63, 0xBE, 0x12, 0x34, 0x56]);
}

#[test]
fn parse_all_zero() {
    let m = Mac::parse("000000000000").unwrap();
    assert_eq!(bytes_of(m), [0; 6]);
}

#[test]
fn parse_rejects_short_text() {
    assert_eq!(Mac::parse("AC:63:BE:12:34:5").unwrap_err(), Error::Parse);
    assert_eq!(Mac::parse("").unwrap_err(), Error::Parse);
}

#[test]
fn parse_rejects_long_text() {
    assert_eq!(Mac::parse("AC:63:BE:12:34:56:78").unwrap_err(), Error::Parse);
}

#[test]
fn parse_rejects_non_hex() {
    assert_eq!(Mac::parse("AC:63:BE:12:34:5G").unwrap_err(), Error::Parse);
    assert_eq!(Mac::parse("+C:63:BE:12:34:56").unwrap_err(), Error::Parse);
    assert_eq!(Mac::parse("AC-63-BE-12-34-56").unwrap_err(), Error::Parse);
}

#[test]
fn parse_rejects_non_ascii() {
    assert_eq!(Mac::parse("AC:63:BE:12:34:5é").unwrap_err(), Error::Parse);
}

#[test]
fn parse_then_format_is_canonical() {
    for text in ["ac63be123456", "AC:63:BE:12:34:56", "ac:63be:12:3456", "0a0B0c0D0e0F"] {
        let m = Mac::parse(text).unwrap();
        let expected = if text.starts_with("0a") { "0A:0B:0C:0D:0E:0F" } else { "AC:63:BE:12:34:56" };
        assert_eq!(m.to_text(), expected);
    }
}

#[test]
fn format_pads_each_byte() {
    let m = Mac::from_array([0x00, 0x01, 0x0A, 0xF0, 0xFF, 0x10]);
    assert_eq!(m.to_text(), "00:01:0A:F0:FF:10");
}

#[test]
fn format_wildcard() {
    assert_eq!(Mac::Any.to_text(), "*");
    assert!(Mac::Any.is_any());
    assert_eq!(Mac::Any.octets(), None);
}

#[test]
fn from_bytes_wrong_lengths() {
    for n in [0usize, 1, 5, 7, 12] {
        let v = vec![0x11u8; n];
        assert_eq!(Mac::from_bytes(&v).unwrap_err(), Error::Length { got: n });
    }
}

#[test]
fn from_bytes_six_round_trips() {
    let b = [0xAAu8, 0xBB, 0xCC, 0x01, 0x02, 0x03];
    let m = Mac::from_bytes(&b).unwrap();
    assert_eq!(bytes_of(m), b);
    assert!(!m.is_any());
}

#[test]
fn exact_match_compares_all_six_bytes() {
    let m = Mac::from_array([0xAA, 0xBB, 0xCC, 0x11, 0x11, 0x11]);
    assert!(m.matches_exact(&[0xAA, 0xBB, 0xCC, 0x11, 0x11, 0x11]));
    assert!(!m.matches_exact(&[0xAA, 0xBB, 0xCC, 0x11, 0x11, 0x12]));
    assert!(!m.matches_exact(&[0xAA, 0xBB, 0xCC, 0x11, 0x11]));
    assert!(!Mac::Any.matches_exact(&[0xAA, 0xBB, 0xCC, 0x11, 0x11, 0x11]));
}

#[test]
fn prefix_match_compares_three_bytes() {
    let p = [0xAAu8, 0xBB, 0xCC];
    assert!(matches_prefix(&[0xAA, 0xBB, 0xCC, 0x99, 0x99, 0x99], &p));
    assert!(!matches_prefix(&[0xAA, 0xBB, 0xCD, 0x99, 0x99, 0x99], &p));
    assert!(!matches_prefix(&[0xAA, 0xBB], &p));
}
