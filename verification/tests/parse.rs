use file_size_formatter::parse::{parse_filesize, quantity_of, to_lower_case, ParseError};
use file_size_formatter::sizes::{FileSize, Sizes};

fn letters(s: &str) -> Vec<char> {
    s.chars().collect()
}

#[test]
fn reads_each_unit() {
    assert_eq!(parse_filesize("7 b"), Ok(FileSize::Bytes(7)));
    assert_eq!(parse_filesize("7 kb"), Ok(FileSize::Kilobytes(7)));
    assert_eq!(parse_filesize("7 mb"), Ok(FileSize::Megabytes(7)));
    assert_eq!(parse_filesize("7 gb"), Ok(FileSize::Gigabytes(7)));
}

#[test]
fn unit_case_does_not_matter() {
    assert_eq!(parse_filesize("5 KB"), Ok(FileSize::Kilobytes(5)));
    assert_eq!(parse_filesize("5 kb"), Ok(FileSize::Kilobytes(5)));
    assert_eq!(parse_filesize("5 Kb"), Ok(FileSize::Kilobytes(5)));
    assert_eq!(parse_filesize("5 kB"), Ok(FileSize::Kilobytes(5)));
    assert_eq!(parse_filesize("5 B"), Ok(FileSize::Bytes(5)));
    assert_eq!(parse_filesize("5 MB"), Ok(FileSize::Megabytes(5)));
    assert_eq!(parse_filesize("5 mB"), Ok(FileSize::Megabytes(5)));
    assert_eq!(parse_filesize("5 Gb"), Ok(FileSize::Gigabytes(5)));
    assert_eq!(parse_filesize("5 GB"), Ok(FileSize::Gigabytes(5)));
}

#[test]
fn kelvin_sign_reads_as_k() {
    assert_eq!("\u{212A}b".to_lowercase(), "kb");
    assert_eq!(parse_filesize("5 \u{212A}b"), Ok(FileSize::Kilobytes(5)));
    assert_eq!(parse_filesize("5 \u{212A}B"), Ok(FileSize::Kilobytes(5)));
    assert_eq!(parse_filesize("5 \u{212A}"), Err(ParseError::InvalidUnit));
}

#[test]
fn one_token_is_malformed() {
    assert_eq!(parse_filesize("5"), Err(ParseError::MalformedInput));
    assert_eq!(parse_filesize("kb"), Err(ParseError::MalformedInput));
    assert_eq!(parse_filesize("5kb"), Err(ParseError::MalformedInput));
}

#[test]
fn three_tokens_are_malformed() {
    assert_eq!(parse_filesize("5 kb extra"), Err(ParseError::MalformedInput));
    assert_eq!(parse_filesize("1 2 3 4"), Err(ParseError::MalformedInput));
}

#[test]
fn no_token_is_malformed() {
    assert_eq!(parse_filesize(""), Err(ParseError::MalformedInput));
    assert_eq!(parse_filesize("   "), Err(ParseError::MalformedInput));
    assert_eq!(parse_filesize("\t\n"), Err(ParseError::MalformedInput));
}

#[test]
fn words_are_not_numbers() {
    assert_eq!(parse_filesize("five kb"), Err(ParseError::InvalidNumber));
    assert_eq!(parse_filesize("5x kb"), Err(ParseError::InvalidNumber));
    assert_eq!(parse_filesize("x5 kb"), Err(ParseError::InvalidNumber));
    assert_eq!(parse_filesize("0x10 kb"), Err(ParseError::InvalidNumber));
}

#[test]
fn signs_are_not_accepted() {
    assert_eq!(parse_filesize("-5 kb"), Err(ParseError::InvalidNumber));
    assert_eq!(parse_filesize("+5 kb"), Err(ParseError::InvalidNumber));
    assert_eq!(parse_filesize("- kb"), Err(ParseError::InvalidNumber));
    assert_eq!(parse_filesize("-0 b"), Err(ParseError::InvalidNumber));
}

#[test]
fn fractions_are_not_accepted() {
    assert_eq!(parse_filesize("5.0 kb"), Err(ParseError::InvalidNumber));
    assert_eq!(parse_filesize("1,000 kb"), Err(ParseError::InvalidNumber));
    assert_eq!(parse_filesize("1_000 kb"), Err(ParseError::InvalidNumber));
    assert_eq!(parse_filesize("1e3 kb"), Err(ParseError::InvalidNumber));
}

#[test]
fn other_digits_are_not_accepted() {
    assert_eq!(parse_filesize("\u{0665} kb"), Err(ParseError::InvalidNumber));
    assert_eq!(parse_filesize("\u{FF15} kb"), Err(ParseError::InvalidNumber));
}

#[test]
fn values_up_to_the_largest_are_read() {
    assert_eq!(parse_filesize("0 b"), Ok(FileSize::Bytes(0)));
    assert_eq!(
        parse_filesize("18446744073709551615 b"),
        Ok(FileSize::Bytes(u64::MAX))
    );
    assert_eq!(
        parse_filesize("18446744073709551615 gb"),
        Ok(FileSize::Gigabytes(u64::MAX))
    );
}

#[test]
fn values_beyond_the_largest_are_invalid() {
    assert_eq!(
        parse_filesize("18446744073709551616 b"),
        Err(ParseError::InvalidNumber)
    );
    assert_eq!(
        parse_filesize("18446744073709551620 b"),
        Err(ParseError::InvalidNumber)
    );
    assert_eq!(
        parse_filesize("99999999999999999999 kb"),
        Err(ParseError::InvalidNumber)
    );
    assert_eq!(
        parse_filesize("100000000000000000000000000000000000000000 kb"),
        Err(ParseError::InvalidNumber)
    );
}

#[test]
fn leading_zeros_are_read() {
    assert_eq!(parse_filesize("007 kb"), Ok(FileSize::Kilobytes(7)));
    assert_eq!(parse_filesize("000 b"), Ok(FileSize::Bytes(0)));
    assert_eq!(
        parse_filesize("000000000000000000000000000000042 mb"),
        Ok(FileSize::Megabytes(42))
    );
    assert_eq!(
        parse_filesize("00018446744073709551615 b"),
        Ok(FileSize::Bytes(u64::MAX))
    );
}

#[test]
fn unknown_units_are_invalid() {
    assert_eq!(parse_filesize("5 tb"), Err(ParseError::InvalidUnit));
    assert_eq!(parse_filesize("5 kib"), Err(ParseError::InvalidUnit));
    assert_eq!(parse_filesize("5 k"), Err(ParseError::InvalidUnit));
    assert_eq!(parse_filesize("5 bb"), Err(ParseError::InvalidUnit));
    assert_eq!(parse_filesize("5 bk"), Err(ParseError::InvalidUnit));
    assert_eq!(parse_filesize("5 bytes"), Err(ParseError::InvalidUnit));
    assert_eq!(parse_filesize("5 5"), Err(ParseError::InvalidUnit));
}

#[test]
fn the_number_is_judged_before_the_unit() {
    assert_eq!(parse_filesize("five tb"), Err(ParseError::InvalidNumber));
    assert_eq!(parse_filesize("kb 5"), Err(ParseError::InvalidNumber));
}

#[test]
fn the_token_count_is_judged_first() {
    assert_eq!(parse_filesize("five tb extra"), Err(ParseError::MalformedInput));
    assert_eq!(parse_filesize("five"), Err(ParseError::MalformedInput));
}

#[test]
fn surrounding_whitespace_is_ignored() {
    assert_eq!(parse_filesize("  5 kb"), Ok(FileSize::Kilobytes(5)));
    assert_eq!(parse_filesize("5 kb  "), Ok(FileSize::Kilobytes(5)));
    assert_eq!(parse_filesize("5     kb"), Ok(FileSize::Kilobytes(5)));
    assert_eq!(parse_filesize("\t5\tkb\n"), Ok(FileSize::Kilobytes(5)));
    assert_eq!(parse_filesize("5\r\nkb"), Ok(FileSize::Kilobytes(5)));
}

#[test]
fn unicode_whitespace_separates() {
    assert_eq!(parse_filesize("5\u{00A0}kb"), Ok(FileSize::Kilobytes(5)));
    assert_eq!(parse_filesize("5\u{3000}kb"), Ok(FileSize::Kilobytes(5)));
    assert_eq!(parse_filesize("5\u{2003}kb"), Ok(FileSize::Kilobytes(5)));
    assert_eq!(parse_filesize("5\u{0085}kb\u{2029}"), Ok(FileSize::Kilobytes(5)));
}

#[test]
fn zero_width_space_does_not_separate() {
    assert_eq!(parse_filesize("5\u{200B}kb"), Err(ParseError::MalformedInput));
    assert_eq!(parse_filesize("5 \u{200B}kb"), Err(ParseError::InvalidUnit));
}

#[test]
fn messages_are_exact() {
    assert_eq!(
        ParseError::MalformedInput.message(),
        "Input should be in the format '<value> <unit>'"
    );
    assert_eq!(
        ParseError::InvalidNumber.message(),
        "Invalid number format. Provide a valid number."
    );
    assert_eq!(
        ParseError::InvalidUnit.message(),
        "Invalid unit. Supported units: b, kb, mb, gb."
    );
}

#[test]
fn error_lines_are_exact() {
    assert_eq!(
        ParseError::MalformedInput.to_line(),
        "Error: Input should be in the format '<value> <unit>'"
    );
    assert_eq!(
        ParseError::InvalidNumber.to_line(),
        "Error: Invalid number format. Provide a valid number."
    );
    assert_eq!(
        ParseError::InvalidUnit.to_line(),
        "Error: Invalid unit. Supported units: b, kb, mb, gb."
    );
}

#[test]
fn bytes_given_as_text() {
    for v in [0u64, 1, 999, 1_000, 1_500, 999_999_999, 1_000_000_000, 123_456_789_012, u64::MAX] {
        let input = format!("{} b", v);
        let sizes = Sizes::from_file_size(parse_filesize(&input).unwrap());
        assert_eq!(sizes.bytes, v);
        assert_eq!(sizes.kilobytes, v / 1_000);
        assert_eq!(sizes.megabytes, v / 1_000_000);
        assert_eq!(sizes.gigabytes, v / 1_000_000_000);
    }
}

#[test]
fn kilobytes_given_as_text() {
    for v in [0u64, 1, 5, 999, 1_000, 1_234_567, 18_446_744_073_709_551] {
        let input = format!("{} kb", v);
        let sizes = Sizes::from_file_size(parse_filesize(&input).unwrap());
        assert_eq!(sizes.kilobytes, v);
        assert_eq!(sizes.bytes, v * 1_000);
    }
    let sizes = Sizes::from_file_size(parse_filesize("18446744073709552 kb").unwrap());
    assert_eq!(sizes.kilobytes, 18_446_744_073_709_552);
    assert_eq!(sizes.bytes, u64::MAX);
}

#[test]
fn every_written_value_is_read_back() {
    for v in [0u64, 9, 10, 99, 100, 4_294_967_295, 4_294_967_296, u64::MAX - 1, u64::MAX] {
        assert_eq!(parse_filesize(&format!("{} b", v)), Ok(FileSize::Bytes(v)));
        assert_eq!(parse_filesize(&format!("{} kb", v)), Ok(FileSize::Kilobytes(v)));
        assert_eq!(parse_filesize(&format!("{} mb", v)), Ok(FileSize::Megabytes(v)));
        assert_eq!(parse_filesize(&format!("{} gb", v)), Ok(FileSize::Gigabytes(v)));
    }
}

#[test]
fn texts_equal_in_lower_case_are_read_alike() {
    let pairs = [
        ("12 KB", "12 kb"),
        ("12 Mb", "12 mB"),
        ("12 GB", "12 \u{67}b"),
        ("12 \u{212A}b", "12 Kb"),
        ("TWELVE KB", "twelve kb"),
        ("12 TB", "12 tb"),
        ("12", "12"),
        ("A B C", "a b c"),
    ];
    for (a, b) in pairs {
        assert_eq!(parse_filesize(a), parse_filesize(b));
    }
}

#[test]
fn lower_case_agrees_with_the_standard_library_on_ascii_results() {
    for code in 0u32..=0x10FFFF {
        let c = match char::from_u32(code) {
            Some(c) => c,
            None => continue,
        };
        let standard: String = c.to_lowercase().collect();
        let mut expected = c;
        let mut forms = standard.chars();
        if let (Some(first), None) = (forms.next(), forms.next()) {
            if first.is_ascii_lowercase() {
                expected = first;
            }
        }
        assert_eq!(to_lower_case(c), expected, "U+{:04X}", code);
    }
}

#[test]
fn unit_names_agree_with_standard_lowercasing() {
    let names = ["b", "kb", "mb", "gb"];
    let expected = |token: &str| -> Option<FileSize> {
        match token.to_lowercase().as_str() {
            "b" => Some(FileSize::Bytes(3)),
            "kb" => Some(FileSize::Kilobytes(3)),
            "mb" => Some(FileSize::Megabytes(3)),
            "gb" => Some(FileSize::Gigabytes(3)),
            _ => None,
        }
    };
    assert!(names.iter().all(|name| expected(name).is_some()));
    for code in 0u32..=0x10FFFF {
        let c = match char::from_u32(code) {
            Some(c) => c,
            None => continue,
        };
        for token in [format!("{}", c), format!("{}b", c), format!("k{}", c), format!("{}B", c)] {
            assert_eq!(quantity_of(3, &letters(&token)), expected(&token), "{:?}", token);
        }
    }
}

#[test]
fn unit_names_have_one_or_two_letters() {
    assert_eq!(quantity_of(1, &letters("")), None);
    assert_eq!(quantity_of(1, &letters("b")), Some(FileSize::Bytes(1)));
    assert_eq!(quantity_of(1, &letters("gB")), Some(FileSize::Gigabytes(1)));
    assert_eq!(quantity_of(1, &letters("kbb")), None);
    assert_eq!(quantity_of(1, &letters("kb ")), None);
}
