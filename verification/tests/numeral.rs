use exercises::guessing::read_guess;
use exercises::numeral::{blank, chars_of, read_i32, read_u16, read_u32, trim};
use exercises::server::{greeting, port_from, DEFAULT_PORT};
use exercises::temperature::{
    celsius_or_default, read_celsius, try_convert_to_fahrenheit, DEFAULT_CELSIUS,
};

const SAMPLES: [&str; 44] = [
    "",
    " ",
    "+",
    "-",
    "0",
    "-0",
    "+0",
    "007",
    "+5",
    "-5",
    "5",
    "42",
    " 42",
    "42 ",
    "42\n",
    "\t42\r\n",
    "4 2",
    "5a",
    "a5",
    "+-5",
    "-+5",
    "++5",
    "--5",
    "1_000",
    "0x10",
    "1e3",
    "3.5",
    "65535",
    "65536",
    "2147483647",
    "2147483648",
    "-2147483648",
    "-2147483649",
    "4294967295",
    "4294967296",
    "+4294967295",
    "00000000000000000000000000000000000012",
    "99999999999999999999999999999999999999",
    "-99999999999999999999999999999999999999",
    "١٢",
    "５",
    "\u{a0}7\u{3000}",
    "\u{2003}-12\u{85}",
    "\u{200b}7",
];

#[test]
fn blank_agrees_with_the_built_in_test_on_every_character() {
    for code in 0..=0x10FFFFu32 {
        if let Some(c) = char::from_u32(code) {
            assert_eq!(blank(c), c.is_whitespace());
        }
    }
}

#[test]
fn chars_of_lists_every_character() {
    assert_eq!(chars_of("aé日"), vec!['a', 'é', '日']);
    assert_eq!(chars_of(""), Vec::<char>::new());
    for text in SAMPLES {
        let expected: Vec<char> = text.chars().collect();
        assert_eq!(chars_of(text), expected);
    }
}

#[test]
fn trim_removes_white_space_at_both_ends_only() {
    let chars = chars_of("  a b \n");
    assert_eq!(trim(&chars), ['a', ' ', 'b']);
    let all_blank = chars_of(" \t\n");
    assert!(trim(&all_blank).is_empty());
    let nothing = chars_of("");
    assert!(trim(&nothing).is_empty());
    let untouched = chars_of("x");
    assert_eq!(trim(&untouched), ['x']);
}

#[test]
fn trim_agrees_with_the_built_in_trim() {
    for text in SAMPLES {
        let chars = chars_of(text);
        let kept: String = trim(&chars).iter().collect();
        assert_eq!(kept, text.trim());
    }
}

#[test]
fn read_u32_exact_values() {
    assert_eq!(read_u32(&chars_of("0")), Some(0));
    assert_eq!(read_u32(&chars_of("+5")), Some(5));
    assert_eq!(read_u32(&chars_of("007")), Some(7));
    assert_eq!(read_u32(&chars_of("4294967295")), Some(u32::MAX));
    assert_eq!(read_u32(&chars_of("4294967296")), None);
    assert_eq!(read_u32(&chars_of("-5")), None);
    assert_eq!(read_u32(&chars_of("")), None);
    assert_eq!(read_u32(&chars_of("+")), None);
    assert_eq!(read_u32(&chars_of(" 5")), None);
}

#[test]
fn read_i32_exact_values() {
    assert_eq!(read_i32(&chars_of("-2147483648")), Some(i32::MIN));
    assert_eq!(read_i32(&chars_of("-2147483649")), None);
    assert_eq!(read_i32(&chars_of("2147483647")), Some(i32::MAX));
    assert_eq!(read_i32(&chars_of("2147483648")), None);
    assert_eq!(read_i32(&chars_of("-0")), Some(0));
    assert_eq!(read_i32(&chars_of("+12")), Some(12));
    assert_eq!(read_i32(&chars_of("-12")), Some(-12));
    assert_eq!(read_i32(&chars_of("-")), None);
    assert_eq!(read_i32(&chars_of("--1")), None);
}

#[test]
fn read_u16_exact_values() {
    assert_eq!(read_u16(&chars_of("65535")), Some(u16::MAX));
    assert_eq!(read_u16(&chars_of("65536")), None);
    assert_eq!(read_u16(&chars_of("3000")), Some(3000));
}

#[test]
fn readers_agree_with_the_built_in_parsers() {
    for text in SAMPLES {
        let chars = chars_of(text);
        assert_eq!(read_u16(&chars), text.parse::<u16>().ok());
        assert_eq!(read_u32(&chars), text.parse::<u32>().ok());
        assert_eq!(read_i32(&chars), text.parse::<i32>().ok());
    }
}

#[test]
fn a_guess_is_read_from_a_line() {
    assert_eq!(read_guess("42\n"), Some(42));
    assert_eq!(read_guess("  7  "), Some(7));
    assert_eq!(read_guess("\u{a0}7\u{3000}"), Some(7));
    assert_eq!(read_guess("abc\n"), None);
    assert_eq!(read_guess("\n"), None);
    assert_eq!(read_guess(""), None);
    assert_eq!(read_guess("4 2"), None);
    assert_eq!(read_guess("-1"), None);
    for text in SAMPLES {
        assert_eq!(read_guess(text), text.trim().parse::<u32>().ok());
    }
}

#[test]
fn a_temperature_is_read_from_a_line() {
    assert_eq!(read_celsius("-40\n"), Some(-40));
    assert_eq!(read_celsius(" 100 "), Some(100));
    assert_eq!(read_celsius("warm\n"), None);
    assert_eq!(read_celsius(""), None);
    for text in SAMPLES {
        assert_eq!(read_celsius(text), text.trim().parse::<i32>().ok());
    }
}

#[test]
fn a_missing_temperature_counts_as_the_default() {
    assert_eq!(DEFAULT_CELSIUS, 0);
    assert_eq!(celsius_or_default(None), 0);
    assert_eq!(celsius_or_default(Some(-3)), -3);
    assert_eq!(celsius_or_default(read_celsius("x")), 0);
}

#[test]
fn conversion_is_refused_outside_the_machine_range() {
    assert_eq!(try_convert_to_fahrenheit(100), Some(212));
    assert_eq!(try_convert_to_fahrenheit(-1), Some(31));
    assert_eq!(try_convert_to_fahrenheit(238609294), Some(429496761));
    assert_eq!(try_convert_to_fahrenheit(238609295), None);
    assert_eq!(try_convert_to_fahrenheit(-238609294), Some(-429496697));
    assert_eq!(try_convert_to_fahrenheit(-238609295), None);
    assert_eq!(try_convert_to_fahrenheit(i32::MAX), None);
    assert_eq!(try_convert_to_fahrenheit(i32::MIN), None);
}

#[test]
fn port_comes_from_the_setting_or_the_default() {
    assert_eq!(DEFAULT_PORT, 3000);
    assert_eq!(port_from(None), Some(3000));
    assert_eq!(port_from(Some("8080")), Some(8080));
    assert_eq!(port_from(Some("0")), Some(0));
    assert_eq!(port_from(Some("65535")), Some(65535));
    assert_eq!(port_from(Some("65536")), None);
    assert_eq!(port_from(Some("PORT")), None);
    assert_eq!(port_from(Some(" 80")), None);
    assert_eq!(port_from(Some("")), None);
}

#[test]
fn root_path_greets_the_world() {
    assert_eq!(greeting(), "Hello World");
}
