use html_to_pdf_service::decimal::{decimal, parse_unsigned};

#[test]
fn decimal_agrees_with_std() {
    for n in [0, 1, 9, 10, 11, 30, 99, 100, 3001, 5_242_880, u64::MAX - 1, u64::MAX] {
        assert_eq!(decimal(n), n.to_string());
    }
}

#[test]
fn written_numbers_read_back() {
    for n in [0, 7, 10, 65_535, 65_536, u64::MAX] {
        assert_eq!(parse_unsigned(&decimal(n), u64::MAX), Some(n));
    }
}

#[test]
fn parsing_agrees_with_std() {
    for s in [
        "", "+", "-", "0", "-0", "+0", "007", "+42", "++1", "1+", " 1", "1 ", "65535", "65536", "99999999999999999999",
        "18446744073709551615", "18446744073709551616", "1_000", "0x10", "1.0", "٣", "12a",
    ] {
        assert_eq!(parse_unsigned(s, u16::MAX as u64), s.parse::<u16>().ok().map(u64::from), "{}", s);
        assert_eq!(parse_unsigned(s, u64::MAX), s.parse::<u64>().ok(), "{}", s);
    }
}
