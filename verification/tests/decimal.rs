use todo_list::decimal::{digit_text, numeral, push_numeral, read_number};

#[test]
fn digit_text_is_one_digit() {
    let expected = ["0", "1", "2", "3", "4", "5", "6", "7", "8", "9"];
    let mut d: u8 = 0;
    while d < 10 {
        assert_eq!(digit_text(d), expected[d as usize]);
        d += 1;
    }
}

#[test]
fn numeral_writes_base_ten() {
    assert_eq!(numeral(0), "0");
    assert_eq!(numeral(7), "7");
    assert_eq!(numeral(10), "10");
    assert_eq!(numeral(42), "42");
    assert_eq!(numeral(1000), "1000");
    assert_eq!(numeral(987_654_321), "987654321");
    assert_eq!(numeral(usize::MAX), usize::MAX.to_string());
}

#[test]
fn push_numeral_appends() {
    let mut out = String::from("Task ");
    push_numeral(&mut out, 305);
    assert_eq!(out, "Task 305");
}

#[test]
fn read_number_reads_digits() {
    assert_eq!(read_number("0"), Some(0));
    assert_eq!(read_number("5"), Some(5));
    assert_eq!(read_number("42"), Some(42));
    assert_eq!(read_number("007"), Some(7));
    assert_eq!(read_number("1234567890"), Some(1_234_567_890));
}

#[test]
fn read_number_takes_one_plus_sign() {
    assert_eq!(read_number("+3"), Some(3));
    assert_eq!(read_number("+0"), Some(0));
    assert_eq!(read_number("++3"), None);
    assert_eq!(read_number("+"), None);
    assert_eq!(read_number("3+"), None);
}

#[test]
fn read_number_turns_down_what_is_no_number() {
    assert_eq!(read_number(""), None);
    assert_eq!(read_number("abc"), None);
    assert_eq!(read_number("-1"), None);
    assert_eq!(read_number("1.5"), None);
    assert_eq!(read_number("2 "), None);
    assert_eq!(read_number(" 2"), None);
    assert_eq!(read_number("1e3"), None);
    assert_eq!(read_number("２"), None);
    assert_eq!(read_number("12a"), None);
}

#[test]
fn read_number_stops_at_the_largest_value() {
    let largest = usize::MAX.to_string();
    assert_eq!(read_number(&largest), Some(usize::MAX));
    let mut padded = String::from("000");
    padded.push_str(&largest);
    assert_eq!(read_number(&padded), Some(usize::MAX));
    let mut longer = largest.clone();
    longer.push('0');
    assert_eq!(read_number(&longer), None);
    assert_eq!(read_number("99999999999999999999999999999999999999999"), None);
    // One more than the largest value: the last digit goes up by one.
    let mut next = largest.clone();
    let last = next.pop().unwrap();
    assert!(last < '9');
    next.push(char::from_u32(last as u32 + 1).unwrap());
    assert_eq!(read_number(&next), None);
}

#[test]
fn read_number_agrees_with_the_standard_library() {
    let inputs = [
        "", "+", "-", "0", "00", "+0", "-0", "1", "+1", "-1", "10", "0010", "a", "1a", "a1", "1 ",
        " 1", "1_000", "0x10", "18446744073709551615", "18446744073709551616", "4294967295",
        "4294967296", "+18446744073709551615", "٣",
    ];
    for input in inputs {
        assert_eq!(read_number(input), input.parse::<usize>().ok(), "{:?}", input);
    }
}

#[test]
fn read_number_reads_back_every_numeral() {
    let numbers =
        [0usize, 1, 9, 10, 11, 99, 100, 101, 12345, usize::MAX / 10, usize::MAX - 1, usize::MAX];
    for n in numbers {
        assert_eq!(read_number(&numeral(n)), Some(n));
    }
}
