//! The joinable-code encoding from the outside: letters and numbers are
//! a bijection, endpoints survive the round trip, and every failure is
//! the documented one.
use fracture::ipencoding::CodeToIpError;
use fracture::ipencoding::Ipv4Endpoint;
use fracture::ipencoding::code_to_ip;
use fracture::ipencoding::code_to_ip_safe;
use fracture::ipencoding::code_to_num;
use fracture::ipencoding::int2letter;
use fracture::ipencoding::ip_to_code;
use fracture::ipencoding::letter2int;
use fracture::ipencoding::num_to_code;

#[test]
fn letters_and_digits() {
    assert_eq!(int2letter(0), Ok('A'));
    assert_eq!(int2letter(24), Ok('Y'));
    assert_eq!(int2letter(25), Ok('Z'));
    assert_eq!(int2letter(26), Err(26));
    assert_eq!(letter2int('A'), Ok(0));
    assert_eq!(letter2int('Z'), Ok(25));
    assert_eq!(letter2int('a'), Err('a'));
    assert_eq!(letter2int('!'), Err('!'));
}

#[test]
fn zero_spells_a() {
    assert_eq!(num_to_code(0).unwrap(), "A");
    assert_eq!(code_to_num("A".to_string()).unwrap(), 0);
}

#[test]
fn base25_positions() {
    assert_eq!(num_to_code(24).unwrap(), "Y");
    assert_eq!(num_to_code(25).unwrap(), "BA");
    assert_eq!(num_to_code(26).unwrap(), "BB");
    assert_eq!(code_to_num("BA".to_string()).unwrap(), 25);
}

#[test]
fn code_round_trip_samples() {
    for n in [0u128, 1, 24, 25, 624, 625, 123_456_789, u128::from(u64::MAX), u128::MAX] {
        let code = num_to_code(n).unwrap();
        assert_eq!(code_to_num(code).unwrap(), n, "round trip of {}", n);
    }
}

#[test]
fn decoding_ignores_case() {
    assert_eq!(code_to_num("ba".to_string()).unwrap(), 25);
    assert_eq!(code_to_num("Ba".to_string()).unwrap(), 25);
}

#[test]
fn invalid_characters_are_rejected() {
    assert!(code_to_num("B!".to_string()).is_err());
    assert!(code_to_num("B3".to_string()).is_err());
    assert!(code_to_num("Bé".to_string()).is_err());
}

#[test]
fn overlong_code_is_rejected() {
    // Thirty digits of the largest letter spell more than fits.
    let code = "Z".repeat(30);
    assert!(code_to_num(code).is_err());
}

#[test]
fn endpoint_round_trip() {
    let ip = Ipv4Endpoint { a: 192, b: 168, c: 0, d: 1, port: 56282 };
    let code = ip_to_code(ip).unwrap();
    assert_eq!(code_to_ip_safe(code.clone()), Ok(ip));
    assert_eq!(code_to_ip(code), ip);
}

#[test]
fn endpoint_round_trip_extremes() {
    for ip in [
        Ipv4Endpoint { a: 0, b: 0, c: 0, d: 0, port: 0 },
        Ipv4Endpoint { a: 255, b: 255, c: 255, d: 255, port: 65535 },
        Ipv4Endpoint { a: 127, b: 0, c: 0, d: 1, port: 6142 },
    ] {
        let code = ip_to_code(ip).unwrap();
        assert_eq!(code_to_ip_safe(code), Ok(ip), "round trip of {:?}", ip);
    }
}

#[test]
fn out_of_range_part_is_conversion_error() {
    // The number 999 unpacks to a last address part of 999, which does
    // not fit an address byte.
    let code = num_to_code(999).unwrap();
    assert_eq!(code_to_ip_safe(code), Err(CodeToIpError::Conversion(999)));
}

#[test]
fn invalid_code_is_char_error() {
    assert!(matches!(
        code_to_ip_safe("not a code!".to_string()),
        Err(CodeToIpError::Char(_))
    ));
}
