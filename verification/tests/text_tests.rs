use pve_vm_launcher::text::chars_of;
use pve_vm_launcher::text::decimal_string;
use pve_vm_launcher::text::parse_unsigned_chars;
use pve_vm_launcher::text::IntErrorKind;

#[test]
fn decimal_and_parse_agree_with_std() {
    for n in [0u64, 7, 10, 99, 100, 4_294_967_295, u64::MAX] {
        assert_eq!(decimal_string(n), n.to_string());
        assert_eq!(parse_unsigned_chars(&chars_of(&n.to_string()), u64::MAX), Ok(n));
    }
}

#[test]
fn parse_errors_match_std_kinds() {
    let max = u32::MAX as u64;
    assert_eq!(parse_unsigned_chars(&chars_of(""), max), Err(IntErrorKind::Empty));
    assert_eq!(parse_unsigned_chars(&chars_of("+"), max), Err(IntErrorKind::InvalidDigit));
    assert_eq!(parse_unsigned_chars(&chars_of("+12"), max), Ok(12));
    assert_eq!(parse_unsigned_chars(&chars_of("-1"), max), Err(IntErrorKind::InvalidDigit));
    assert_eq!(parse_unsigned_chars(&chars_of("4294967296"), max), Err(IntErrorKind::PosOverflow));
    assert_eq!(parse_unsigned_chars(&chars_of("4294967295"), max), Ok(4294967295));
    assert_eq!(IntErrorKind::Empty.message(), "cannot parse integer from empty string");
    assert_eq!("".parse::<u32>().unwrap_err().to_string(), IntErrorKind::Empty.message());
    assert_eq!("x".parse::<u32>().unwrap_err().to_string(), IntErrorKind::InvalidDigit.message());
    assert_eq!(
        "4294967296".parse::<u32>().unwrap_err().to_string(),
        IntErrorKind::PosOverflow.message()
    );
}
