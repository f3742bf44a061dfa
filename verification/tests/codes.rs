use asconvert::chars::{chars_of, whitespace};
use asconvert::codes::{codes_to_text_string, parse_code, text_to_codes_string, Radix};

fn decode(s: &str, radix: Radix) -> Result<String, String> {
    codes_to_text_string(s, radix)
}

#[test]
fn text_to_decimal_space() {
    assert_eq!(text_to_codes_string("Hel", " ", Radix::Decimal), "72 101 108");
}

#[test]
fn text_to_decimal_comma_and_newline() {
    assert_eq!(text_to_codes_string("Hi!", ",", Radix::Decimal), "72,105,33");
    assert_eq!(text_to_codes_string("Hi!", "\n", Radix::Decimal), "72\n105\n33");
}

#[test]
fn text_to_hex_upper_case_two_digits() {
    assert_eq!(text_to_codes_string("Hel", " ", Radix::Hex), "48 65 6C");
    assert_eq!(text_to_codes_string("\n\t ", " ", Radix::Hex), "0A 09 20");
    assert_eq!(text_to_codes_string("~", " ", Radix::Hex), "7E");
}

#[test]
fn text_to_codes_uses_utf8_bytes() {
    assert_eq!(text_to_codes_string("é", " ", Radix::Decimal), "195 169");
    assert_eq!(text_to_codes_string("é", " ", Radix::Hex), "C3 A9");
    assert_eq!(text_to_codes_string("€", ",", Radix::Hex), "E2,82,AC");
}

#[test]
fn text_to_codes_empty_and_single() {
    assert_eq!(text_to_codes_string("", " ", Radix::Decimal), "");
    assert_eq!(text_to_codes_string("\0", " ", Radix::Decimal), "0");
    assert_eq!(text_to_codes_string("\0", " ", Radix::Hex), "00");
}

#[test]
fn decimal_to_text_examples_from_hint() {
    assert_eq!(decode("72 101 108", Radix::Decimal), Ok("Hel".to_string()));
    assert_eq!(decode("72,101,108", Radix::Decimal), Ok("Hel".to_string()));
}

#[test]
fn hex_to_text_examples_from_hint() {
    assert_eq!(decode("48 65 6C", Radix::Hex), Ok("Hel".to_string()));
    assert_eq!(decode("48,65,6C", Radix::Hex), Ok("Hel".to_string()));
    assert_eq!(decode("48 65 6c", Radix::Hex), Ok("Hel".to_string()));
}

#[test]
fn codes_separated_by_mixed_white_space() {
    assert_eq!(decode("  72\t\n101 ,, 108  ", Radix::Decimal), Ok("Hel".to_string()));
    assert_eq!(decode(" , ", Radix::Decimal), Ok(String::new()));
    assert_eq!(decode("", Radix::Hex), Ok(String::new()));
}

#[test]
fn codes_with_plus_and_leading_zeros() {
    assert_eq!(decode("+72 0065", Radix::Decimal), Ok("HA".to_string()));
    assert_eq!(decode("+4a", Radix::Hex), Ok("J".to_string()));
    assert_eq!(decode("000ff", Radix::Hex), Ok("\u{ff}".to_string()));
}

#[test]
fn codes_become_latin1_characters() {
    assert_eq!(decode("233", Radix::Decimal), Ok("\u{e9}".to_string()));
    assert_eq!(decode("195 169", Radix::Decimal), Ok("\u{c3}\u{a9}".to_string()));
}

#[test]
fn first_bad_word_is_the_error() {
    assert_eq!(decode("72 abc 300", Radix::Decimal), Err("abc".to_string()));
    assert_eq!(decode("256", Radix::Decimal), Err("256".to_string()));
    assert_eq!(decode("72 -1", Radix::Decimal), Err("-1".to_string()));
    assert_eq!(decode("+", Radix::Decimal), Err("+".to_string()));
    assert_eq!(decode("4G", Radix::Hex), Err("4G".to_string()));
    assert_eq!(decode("100", Radix::Hex), Err("100".to_string()));
    assert_eq!(decode("6C 0x41", Radix::Hex), Err("0x41".to_string()));
    assert_eq!(decode("ff", Radix::Decimal), Err("ff".to_string()));
}

#[test]
fn parse_code_agrees_with_std() {
    let mut samples: Vec<String> = Vec::new();
    for n in 0..400u32 {
        samples.push(n.to_string());
        samples.push(format!("{:x}", n));
        samples.push(format!("{:X}", n));
        samples.push(format!("+{}", n));
        samples.push(format!("00{}", n));
        samples.push(format!("-{}", n));
    }
    for s in ["", "+", "-", "++1", "1+", " 1", "1 ", "g", "G", "0x1", "٣", "１", "99999999999999999999", "+0", "0"] {
        samples.push(s.to_string());
    }
    for s in &samples {
        let v = chars_of(s);
        assert_eq!(parse_code(&v, Radix::Decimal), u8::from_str_radix(s, 10).ok(), "decimal {:?}", s);
        assert_eq!(parse_code(&v, Radix::Hex), u8::from_str_radix(s, 16).ok(), "hex {:?}", s);
    }
}

#[test]
fn whitespace_agrees_with_std() {
    for u in 0..=0x10FFFFu32 {
        if let Some(c) = char::from_u32(u) {
            assert_eq!(whitespace(c), c.is_whitespace(), "U+{:04X}", u);
        }
    }
}

#[test]
fn split_agrees_with_std_split_whitespace() {
    let inputs = ["72 101", "\u{a0}72\u{2003}101\u{3000}", "72\u{85}101", "1,2,,3", "\u{200b}7"];
    for s in inputs {
        let cleaned = s.replace(',', " ");
        let mut expected = String::new();
        let mut bad: Option<String> = None;
        for part in cleaned.split_whitespace() {
            match part.parse::<u8>() {
                Ok(b) => expected.push(b as char),
                Err(_) => {
                    bad = Some(part.to_string());
                    break;
                }
            }
        }
        let want = match bad {
            Some(w) => Err(w),
            None => Ok(expected),
        };
        assert_eq!(decode(s, Radix::Decimal), want, "{:?}", s);
    }
}

#[test]
fn round_trip_ascii_all_separators() {
    let text = "Hello, World!\n\t~ 0123";
    for sep in [" ", ",", "\n"] {
        for radix in [Radix::Decimal, Radix::Hex] {
            let codes = text_to_codes_string(text, sep, radix);
            assert_eq!(decode(&codes, radix), Ok(text.to_string()));
        }
    }
}

#[test]
fn round_trip_non_ascii_gives_latin1_of_bytes() {
    let text = "né€";
    let expected: String = text.bytes().map(|b| b as char).collect();
    for radix in [Radix::Decimal, Radix::Hex] {
        let codes = text_to_codes_string(text, " ", radix);
        assert_eq!(decode(&codes, radix), Ok(expected.clone()));
    }
}

#[test]
fn all_bytes_round_trip_through_codes() {
    for b in 0..=255u8 {
        for radix in [Radix::Decimal, Radix::Hex] {
            let s = String::from_utf8(vec![b]).ok();
            if let Some(s) = s {
                let codes = text_to_codes_string(&s, " ", radix);
                let want = match radix {
                    Radix::Decimal => b.to_string(),
                    Radix::Hex => format!("{:02X}", b),
                };
                assert_eq!(codes, want);
                assert_eq!(decode(&codes, radix), Ok((b as char).to_string()));
            }
        }
    }
}
