use rproc::grammar::chars_of;
use rproc::number::{decode_decimal, decode_i32, decode_u16, decode_u64, decode_u8, digit};
use rproc::number::{write_number, Decimal};

fn dec(negative: bool, digits: u64, scale: usize) -> Option<Decimal> {
    Some(Decimal { negative, digits, scale })
}

#[test]
fn unsigned_numbers() {
    assert_eq!(decode_u64(&chars_of("0")), Some(0));
    assert_eq!(decode_u64(&chars_of("115315")), Some(115315));
    assert_eq!(decode_u64(&chars_of("+42")), Some(42));
    assert_eq!(decode_u64(&chars_of("000042")), Some(42));
    assert_eq!(decode_u64(&chars_of("18446744073709551615")), Some(u64::MAX));
    assert_eq!(decode_u64(&chars_of("18446744073709551616")), None);
    assert_eq!(decode_u64(&chars_of("99999999999999999999")), None);
    assert_eq!(decode_u64(&chars_of("184467440737095516150")), None);
    assert_eq!(decode_u64(&chars_of("")), None);
    assert_eq!(decode_u64(&chars_of("+")), None);
    assert_eq!(decode_u64(&chars_of("-")), None);
    assert_eq!(decode_u64(&chars_of("-1")), None);
    assert_eq!(decode_u64(&chars_of("-0")), None);
    assert_eq!(decode_u64(&chars_of("++1")), None);
    assert_eq!(decode_u64(&chars_of("1+")), None);
    assert_eq!(decode_u64(&chars_of("115315.0")), None);
    assert_eq!(decode_u64(&chars_of("12a")), None);
    assert_eq!(decode_u64(&chars_of("0x10")), None);
    assert_eq!(decode_u64(&chars_of("1_000")), None);
    assert_eq!(decode_u64(&chars_of("\u{661}\u{662}")), None);
    assert_eq!(decode_u64(&chars_of("99999999999999999999x")), None);
}

#[test]
fn unsigned_numbers_agree_with_std() {
    for text in ["0", "7", "+7", "-7", "", "+", "255", "256", "65535", "65536", "007", " 7", "7 ",
        "4294967296", "18446744073709551615", "18446744073709551616", "1e3", "٣"]
    {
        assert_eq!(decode_u64(&chars_of(text)), text.parse::<u64>().ok(), "{:?}", text);
        assert_eq!(decode_u16(&chars_of(text)), text.parse::<u16>().ok(), "{:?}", text);
        assert_eq!(decode_u8(&chars_of(text)), text.parse::<u8>().ok(), "{:?}", text);
        assert_eq!(decode_i32(&chars_of(text)), text.parse::<i32>().ok(), "{:?}", text);
    }
}

#[test]
fn narrow_unsigned_numbers() {
    assert_eq!(decode_u8(&chars_of("255")), Some(255));
    assert_eq!(decode_u8(&chars_of("256")), None);
    assert_eq!(decode_u8(&chars_of("0255")), Some(255));
    assert_eq!(decode_u16(&chars_of("65535")), Some(65535));
    assert_eq!(decode_u16(&chars_of("65536")), None);
    assert_eq!(decode_u16(&chars_of("288")), Some(288));
}

#[test]
fn signed_numbers() {
    assert_eq!(decode_i32(&chars_of("0")), Some(0));
    assert_eq!(decode_i32(&chars_of("-0")), Some(0));
    assert_eq!(decode_i32(&chars_of("+12")), Some(12));
    assert_eq!(decode_i32(&chars_of("-12")), Some(-12));
    assert_eq!(decode_i32(&chars_of("2147483647")), Some(i32::MAX));
    assert_eq!(decode_i32(&chars_of("2147483648")), None);
    assert_eq!(decode_i32(&chars_of("-2147483648")), Some(i32::MIN));
    assert_eq!(decode_i32(&chars_of("-2147483649")), None);
    assert_eq!(decode_i32(&chars_of("-")), None);
    assert_eq!(decode_i32(&chars_of("+")), None);
    assert_eq!(decode_i32(&chars_of("")), None);
    assert_eq!(decode_i32(&chars_of("--1")), None);
    assert_eq!(decode_i32(&chars_of("+-1")), None);
    assert_eq!(decode_i32(&chars_of("N")), None);
}

#[test]
fn decimal_fractions() {
    assert_eq!(decode_decimal(&chars_of("0.00")), dec(false, 0, 2));
    assert_eq!(decode_decimal(&chars_of("1.50")), dec(false, 150, 2));
    assert_eq!(decode_decimal(&chars_of("96445.86")), dec(false, 9644586, 2));
    assert_eq!(decode_decimal(&chars_of("100")), dec(false, 100, 0));
    assert_eq!(decode_decimal(&chars_of("5.")), dec(false, 5, 0));
    assert_eq!(decode_decimal(&chars_of(".5")), dec(false, 5, 1));
    assert_eq!(decode_decimal(&chars_of("-3.5")), dec(true, 35, 1));
    assert_eq!(decode_decimal(&chars_of("+3.5")), dec(false, 35, 1));
    assert_eq!(decode_decimal(&chars_of("-0")), dec(true, 0, 0));
    assert_eq!(decode_decimal(&chars_of("0.000000000000000000000001")), dec(false, 1, 24));
    assert_eq!(decode_decimal(&chars_of("18446744073709551.615")), dec(false, u64::MAX, 3));
    assert_eq!(decode_decimal(&chars_of("18446744073709551.616")), None);
    assert_eq!(decode_decimal(&chars_of("18446744073709551616")), None);
    assert_eq!(decode_decimal(&chars_of("")), None);
    assert_eq!(decode_decimal(&chars_of(".")), None);
    assert_eq!(decode_decimal(&chars_of("-")), None);
    assert_eq!(decode_decimal(&chars_of("-.")), None);
    assert_eq!(decode_decimal(&chars_of("1.2.3")), None);
    assert_eq!(decode_decimal(&chars_of("1..2")), None);
    assert_eq!(decode_decimal(&chars_of("1e3")), None);
    assert_eq!(decode_decimal(&chars_of("inf")), None);
    assert_eq!(decode_decimal(&chars_of("nan")), None);
    assert_eq!(decode_decimal(&chars_of("1,5")), None);
    assert_eq!(decode_decimal(&chars_of("x.5")), None);
    assert_eq!(decode_decimal(&chars_of("5.x")), None);
    assert_eq!(decode_decimal(&chars_of("--1.5")), None);
}

#[test]
fn decimal_fractions_have_the_value_std_reads() {
    for text in ["0.00", "1.50", "96445.86", "402942.06", "100", "5.", ".5", "-3.5", "+3.5", "0.07",
        "12345678.123456"]
    {
        let d = decode_decimal(&chars_of(text)).unwrap();
        let v = d.digits as f64 / 10f64.powi(d.scale as i32);
        let v = if d.negative { -v } else { v };
        assert_eq!(v, text.parse::<f64>().unwrap(), "{:?}", text);
    }
}

#[test]
fn digits_are_ascii_digits() {
    for c in '0'..='9' {
        assert!(digit(c));
    }
    for c in ['/', ':', 'a', ' ', '+', '-', '.', '\u{660}', '\u{ff10}'] {
        assert!(!digit(c));
    }
}

#[test]
fn numbers_are_written_in_base_10() {
    for (n, text) in [(0u64, "0"), (7, "7"), (10, "10"), (255, "255"), (65535, "65535"),
        (1000, "1000"), (u64::MAX, "18446744073709551615")]
    {
        let mut out = String::from("n=");
        write_number(&mut out, n);
        assert_eq!(out, format!("n={}", text));
        assert_eq!(decode_u64(&chars_of(text)), Some(n));
    }
}
