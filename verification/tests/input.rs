use small_tools::input::{confirms, parse_i32, parse_index, parse_u32, parse_usize, IndexError};

#[test]
fn numbers_are_read_as_the_standard_library_reads_them() {
    for text in [
        "0", "1", "7", "10", "007", "+5", "+0", "+", "", "-", "-1", "-0", "++1", "+-1", "1+", "12a", "a12",
        " 1", "1 ", "1_000", "0x10", "1.0", "1e3", "٣", "１２", "18446744073709551615",
        "18446744073709551616", "99999999999999999999999999", "000000000000000000000000000001",
        "+18446744073709551615", "4294967295", "4294967296",
    ] {
        assert_eq!(parse_usize(text), text.parse::<usize>().ok(), "text {:?}", text);
    }
}

#[test]
fn numbers_have_their_values() {
    assert_eq!(parse_usize("0"), Some(0));
    assert_eq!(parse_usize("42"), Some(42));
    assert_eq!(parse_usize("+42"), Some(42));
    assert_eq!(parse_usize("0042"), Some(42));
    assert_eq!(parse_usize("65536"), Some(65536));
    assert_eq!(parse_usize(""), None);
    assert_eq!(parse_usize("+"), None);
    assert_eq!(parse_usize("-42"), None);
    assert_eq!(parse_usize("4 2"), None);
}

#[test]
fn the_greatest_number_is_read_and_the_next_is_not() {
    assert_eq!(parse_usize(&usize::MAX.to_string()), Some(usize::MAX));
    let mut next = usize::MAX.to_string();
    let last = next.pop().unwrap();
    next.push(char::from_digit(last.to_digit(10).unwrap() + 1, 10).unwrap());
    assert_eq!(parse_usize(&next), None);
    assert_eq!(parse_usize(&format!("{}0", usize::MAX)), None);
}

#[test]
fn an_entry_is_named_by_its_number() {
    assert_eq!(parse_index("1", 3), Ok(0));
    assert_eq!(parse_index("3", 3), Ok(2));
    assert_eq!(parse_index(" 2 \n", 3), Ok(1));
    assert_eq!(parse_index("+2", 3), Ok(1));
    assert_eq!(parse_index("02", 3), Ok(1));
    assert_eq!(parse_index("1", 1), Ok(0));
}

#[test]
fn a_number_out_of_range_names_no_entry() {
    assert_eq!(parse_index("0", 3), Err(IndexError::OutOfRange));
    assert_eq!(parse_index("4", 3), Err(IndexError::OutOfRange));
    assert_eq!(parse_index("1", 0), Err(IndexError::OutOfRange));
    assert_eq!(parse_index("0", 0), Err(IndexError::OutOfRange));
    assert_eq!(parse_index(&usize::MAX.to_string(), 3), Err(IndexError::OutOfRange));
}

#[test]
fn what_is_no_number_names_no_entry() {
    for text in ["", "\n", "one", "-1", "1.5", "1 2", "2nd", "99999999999999999999999999"] {
        assert_eq!(parse_index(text, 3), Err(IndexError::NotANumber), "text {:?}", text);
    }
}

#[test]
fn yes_is_said_in_four_ways() {
    for yes in ["y", "yes", "Y", "Yes", " y\n", "\tYes \r\n"] {
        assert!(confirms(yes), "answer {:?}", yes);
    }
    for no in ["", "n", "no", "N", "YES", "yES", "yeah", "y es", "yy", "1", "\n"] {
        assert!(!confirms(no), "answer {:?}", no);
    }
}

#[test]
fn small_numbers_are_read_as_the_standard_library_reads_them() {
    for text in [
        "0", "1", "+1", "-1", "-0", "+0", "", "+", "-", "--1", "+-1", "-+1", "12", "-12", " 12", "12 ",
        "2147483647", "2147483648", "-2147483648", "-2147483649", "4294967295", "4294967296",
        "+4294967295", "-4294967295", "0000000000000000000000012", "-0000000000000000000000012",
        "99999999999999999999999", "-99999999999999999999999", "1a", "a", "1.0", "１",
    ] {
        assert_eq!(parse_u32(text), text.parse::<u32>().ok(), "text {:?}", text);
        assert_eq!(parse_i32(text), text.parse::<i32>().ok(), "text {:?}", text);
    }
}

#[test]
fn small_numbers_have_their_values() {
    assert_eq!(parse_u32("7"), Some(7));
    assert_eq!(parse_u32("+7"), Some(7));
    assert_eq!(parse_u32("-7"), None);
    assert_eq!(parse_u32("4294967295"), Some(u32::MAX));
    assert_eq!(parse_u32("4294967296"), None);
    assert_eq!(parse_i32("7"), Some(7));
    assert_eq!(parse_i32("-7"), Some(-7));
    assert_eq!(parse_i32("-0"), Some(0));
    assert_eq!(parse_i32("2147483647"), Some(i32::MAX));
    assert_eq!(parse_i32("-2147483648"), Some(i32::MIN));
    assert_eq!(parse_i32("2147483648"), None);
    assert_eq!(parse_i32("-2147483649"), None);
}
