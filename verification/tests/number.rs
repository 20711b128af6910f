use pwservice::number::{
    parse_digits, parse_hex, parse_number, parse_number_no_separator, push_decimal, NumberError,
};
use pwservice::platform::network::{ip_from_string, mac_from_string, parse_octet};

fn chars(s: &str) -> Vec<char> {
    s.chars().collect()
}

fn decimal(n: u64) -> String {
    let mut out: Vec<char> = Vec::new();
    push_decimal(&mut out, n);
    out.into_iter().collect()
}

#[test]
fn parse_number_reads_the_leading_digits() {
    assert_eq!(parse_number::<u32>("990180 kB"), Ok(990180));
    assert_eq!(parse_number::<u64>("1731345124"), Ok(1731345124));
    assert_eq!(parse_number::<u32>("24/16"), Ok(24));
    assert_eq!(parse_number::<u32>("007"), Ok(7));
    assert_eq!(parse_number::<u32>("0"), Ok(0));
}

#[test]
fn parse_number_without_digits_is_empty() {
    assert_eq!(parse_number::<u32>(""), Err(NumberError::Empty));
    assert_eq!(parse_number::<u32>("kB 12"), Err(NumberError::Empty));
    assert_eq!(parse_number::<u32>(" 12"), Err(NumberError::Empty));
    assert_eq!(parse_number::<u32>("+12"), Err(NumberError::Empty));
    assert_eq!(parse_number::<u32>("-12"), Err(NumberError::Empty));
}

#[test]
fn parse_number_rejects_numeric_characters_that_are_no_digits() {
    // Superscript two and Arabic-Indic three are numeric, so they belong to
    // the leading run, but they are no decimal digits.
    assert_eq!(parse_number::<u32>("12\u{b2}"), Err(NumberError::InvalidDigit));
    assert_eq!(parse_number::<u32>("\u{663}"), Err(NumberError::InvalidDigit));
    assert_eq!(parse_number::<u64>("1\u{2167}2 x"), Err(NumberError::InvalidDigit));
}

#[test]
fn parse_number_stops_at_other_characters() {
    assert_eq!(parse_number::<u32>("12\u{e9}3"), Ok(12));
    assert_eq!(parse_number::<u32>("5\u{a0}6"), Ok(5));
}

#[test]
fn parse_number_overflow() {
    assert_eq!(parse_number::<u32>("4294967295"), Ok(u32::MAX));
    assert_eq!(parse_number::<u32>("4294967296"), Err(NumberError::Overflow));
    assert_eq!(parse_number::<u64>("18446744073709551615"), Ok(u64::MAX));
    assert_eq!(parse_number::<u64>("18446744073709551616"), Err(NumberError::Overflow));
    assert_eq!(parse_number::<u32>("18446744073709551616"), Err(NumberError::Overflow));
    assert_eq!(parse_number::<u64>("99999999999999999999999999"), Err(NumberError::Overflow));
    assert_eq!(parse_number::<u64>("00000000000000000000000000001"), Ok(1));
}

#[test]
fn an_invalid_digit_counts_before_overflow() {
    assert_eq!(
        parse_number::<u64>("99999999999999999999999999\u{b2}"),
        Err(NumberError::InvalidDigit)
    );
}

#[test]
fn parse_digits_takes_digits_only() {
    assert_eq!(parse_digits::<u32>(&chars("123")), Ok(123));
    assert_eq!(parse_digits::<u32>(&chars("")), Err(NumberError::Empty));
    assert_eq!(parse_digits::<u32>(&chars("12a")), Err(NumberError::InvalidDigit));
    assert_eq!(parse_digits::<u32>(&chars("a12")), Err(NumberError::InvalidDigit));
    assert_eq!(parse_digits::<u32>(&chars("1 2")), Err(NumberError::InvalidDigit));
    assert_eq!(parse_digits::<u64>(&chars("4294967296")), Ok(4294967296));
}

#[test]
fn parse_number_no_separator_reads_the_second_word() {
    assert_eq!(parse_number_no_separator::<u64>("btime 1731345124"), Some(1731345124));
    assert_eq!(parse_number_no_separator::<u32>("processes   7247  "), Some(7247));
    assert_eq!(parse_number_no_separator::<u32>("\tprocs_running\t2\tx"), Some(2));
    assert_eq!(parse_number_no_separator::<u32>("MemTotal: 990180kB"), Some(990180));
}

#[test]
fn parse_number_no_separator_without_a_number() {
    assert_eq!(parse_number_no_separator::<u32>(""), None);
    assert_eq!(parse_number_no_separator::<u32>("btime"), None);
    assert_eq!(parse_number_no_separator::<u32>("1731345124"), None);
    assert_eq!(parse_number_no_separator::<u32>("btime x12"), None);
    assert_eq!(parse_number_no_separator::<u32>("btime 4294967296"), None);
    assert_eq!(parse_number_no_separator::<u64>("btime 4294967296"), Some(4294967296));
}

#[test]
fn decimal_digits_of_numbers() {
    assert_eq!(decimal(0), "0");
    assert_eq!(decimal(7), "7");
    assert_eq!(decimal(10), "10");
    assert_eq!(decimal(202481586980485), "202481586980485");
    assert_eq!(decimal(u64::MAX), "18446744073709551615");
}

#[test]
fn push_decimal_appends() {
    let mut out: Vec<char> = vec!['x'];
    push_decimal(&mut out, 42);
    assert_eq!(out, vec!['x', '4', '2']);
}

#[test]
fn parse_hex_reads_both_cases() {
    assert_eq!(parse_hex(&chars("b827eb10c685")), Some(0xb827eb10c685));
    assert_eq!(parse_hex(&chars("B827EB10C685")), Some(0xb827eb10c685));
    assert_eq!(parse_hex(&chars("0")), Some(0));
    assert_eq!(parse_hex(&chars("ffffffffffffffff")), Some(u64::MAX));
    assert_eq!(parse_hex(&chars("0000000000000000000001")), Some(1));
}

#[test]
fn parse_hex_takes_a_plus_sign() {
    assert_eq!(parse_hex(&chars("+ff")), Some(255));
    assert_eq!(parse_hex(&chars("+")), None);
    assert_eq!(parse_hex(&chars("++1")), None);
    assert_eq!(parse_hex(&chars("-1")), None);
    assert_eq!(parse_hex(&chars("1+")), None);
}

#[test]
fn parse_hex_rejects_what_is_no_number() {
    assert_eq!(parse_hex(&chars("")), None);
    assert_eq!(parse_hex(&chars("g")), None);
    assert_eq!(parse_hex(&chars("0x10")), None);
    assert_eq!(parse_hex(&chars(" 10")), None);
    assert_eq!(parse_hex(&chars("1_0")), None);
    assert_eq!(parse_hex(&chars("10000000000000000")), None);
}

#[test]
fn mac_from_string_reads_colon_separated_pairs() {
    assert_eq!(mac_from_string("b8:27:eb:10:c6:85"), 202481586980485);
    assert_eq!(mac_from_string("b4:6b:fc:ed:d5:78"), 0xb46bfcedd578);
    assert_eq!(mac_from_string("B8:27:EB:10:C6:85"), 202481586980485);
    assert_eq!(mac_from_string("b827eb10c685"), 202481586980485);
    assert_eq!(mac_from_string("00:00:00:00:00:01"), 1);
    assert_eq!(mac_from_string(":::1:::"), 1);
}

#[test]
fn mac_from_string_gives_zero_for_other_text() {
    assert_eq!(mac_from_string(""), 0);
    assert_eq!(mac_from_string(":"), 0);
    assert_eq!(mac_from_string("b8-27-eb-10-c6-85"), 0);
    assert_eq!(mac_from_string("b8:27:eb:10:c6:8g"), 0);
    assert_eq!(mac_from_string("ff:ff:ff:ff:ff:ff:ff:ff:ff"), 0);
    assert_eq!(mac_from_string("ff:ff:ff:ff:ff:ff:ff:ff"), u64::MAX);
}

#[test]
fn ip_from_string_reads_dotted_decimal() {
    assert_eq!(ip_from_string("192.168.42.105"), 3232246377);
    assert_eq!(ip_from_string("192.168.42.105"), 0xc0a82a69);
    assert_eq!(ip_from_string("192.168.42.255"), 3232246527);
    assert_eq!(ip_from_string("192.168.42.1"), 3232246273);
    assert_eq!(ip_from_string("0.0.0.0"), 0);
    assert_eq!(ip_from_string("0.0.0.1"), 1);
    assert_eq!(ip_from_string("1.0.0.0"), 0x0100_0000);
    assert_eq!(ip_from_string("255.255.255.255"), u32::MAX);
}

#[test]
fn ip_from_string_gives_zero_for_other_text() {
    for text in [
        "",
        "192.168.42",
        "192.168.42.1.1",
        "192.168.42.256",
        "192.168.42.01",
        "192.168.042.1",
        "192.168.42.1/24",
        "192.168..1",
        ".168.42.1",
        "192.168.42.",
        " 192.168.42.1",
        "192.168.42.1 ",
        "0x10.0.0.1",
        "1.2.3.+4",
        "1.2.3.1000",
        "a.b.c.d",
        "\u{661}.2.3.4",
    ] {
        assert_eq!(ip_from_string(text), 0, "{:?}", text);
    }
}

#[test]
fn parse_octet_bounds() {
    assert_eq!(parse_octet(&chars("0")), Some(0));
    assert_eq!(parse_octet(&chars("255")), Some(255));
    assert_eq!(parse_octet(&chars("256")), None);
    assert_eq!(parse_octet(&chars("00")), None);
    assert_eq!(parse_octet(&chars("")), None);
    assert_eq!(parse_octet(&chars("0255")), None);
}

const SAMPLES: [&str; 28] = [
    "",
    "0",
    "7",
    "007",
    "12",
    "12 kB",
    "990180 kB",
    "+5",
    "-5",
    "+",
    "-",
    "++5",
    " 5",
    "5 ",
    "ab",
    "AbCdEf",
    "b827eb10c685",
    "ffffffffffffffff",
    "10000000000000000",
    "18446744073709551615",
    "18446744073709551616",
    "4294967296",
    "1_0",
    "0x10",
    "12\u{b2}",
    "\u{663}4",
    "5\u{a0}6",
    "99999999999999999999999999999",
];

#[test]
fn parse_hex_agrees_with_the_integers_own_reading() {
    for text in SAMPLES {
        assert_eq!(parse_hex(&chars(text)), u64::from_str_radix(text, 16).ok(), "{:?}", text);
    }
}

#[test]
fn parse_digits_agrees_with_the_integers_own_reading_but_for_the_sign() {
    for text in SAMPLES {
        if text.starts_with('+') {
            continue;
        }
        assert_eq!(parse_digits::<u64>(&chars(text)).ok(), text.parse::<u64>().ok(), "{:?}", text);
        assert_eq!(parse_digits::<u32>(&chars(text)).ok(), text.parse::<u32>().ok(), "{:?}", text);
    }
}

#[test]
fn parse_number_reads_the_numeric_characters_at_the_start() {
    for text in SAMPLES {
        let end = text.find(|c: char| !c.is_numeric()).unwrap_or(text.len());
        assert_eq!(parse_number::<u64>(text).ok(), text[..end].parse::<u64>().ok(), "{:?}", text);
        assert_eq!(parse_number::<u32>(text).ok(), text[..end].parse::<u32>().ok(), "{:?}", text);
    }
}
