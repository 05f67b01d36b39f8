use rusted_pixels::text::{chars_of, parse_isize, parse_u8, push_digits, push_isize};

fn chars(s: &str) -> Vec<char> {
    s.chars().collect()
}

#[test]
fn chars_of_gives_every_character() {
    assert_eq!(chars_of(""), Vec::<char>::new());
    assert_eq!(chars_of("a,b"), vec!['a', ',', 'b']);
    assert_eq!(chars_of("'é漢'"), vec!['\'', 'é', '漢', '\'']);
}

#[test]
fn parse_isize_reads_signed_numbers() {
    assert_eq!(parse_isize(&chars("0")), Some(0));
    assert_eq!(parse_isize(&chars("42")), Some(42));
    assert_eq!(parse_isize(&chars("-7")), Some(-7));
    assert_eq!(parse_isize(&chars("+5")), Some(5));
    assert_eq!(parse_isize(&chars("-0")), Some(0));
    assert_eq!(parse_isize(&chars("00012")), Some(12));
    assert_eq!(parse_isize(&chars("")), None);
    assert_eq!(parse_isize(&chars("+")), None);
    assert_eq!(parse_isize(&chars("-")), None);
    assert_eq!(parse_isize(&chars("12a")), None);
    assert_eq!(parse_isize(&chars(" 12")), None);
}

#[test]
fn parse_isize_knows_the_limits() {
    let max = isize::MAX.to_string();
    let min = isize::MIN.to_string();
    assert_eq!(parse_isize(&chars(&max)), Some(isize::MAX));
    assert_eq!(parse_isize(&chars(&min)), Some(isize::MIN));
    let above = (isize::MAX as i128 + 1).to_string();
    let below = (isize::MIN as i128 - 1).to_string();
    assert_eq!(parse_isize(&chars(&above)), None);
    assert_eq!(parse_isize(&chars(&below)), None);
    assert_eq!(parse_isize(&chars("99999999999999999999999999999999999999999999")), None);
    assert_eq!(parse_isize(&chars("-99999999999999999999999999999999999999999999")), None);
}

#[test]
fn parse_isize_agrees_with_std() {
    let samples = [
        "", "0", "1", "-1", "+1", "++1", "+-1", "-+1", "--1", "007", "-007", "+007", "1_000", "1,000",
        "1.0", "1e3", "0x10", " 1", "1 ", "١٢٣", "１２", "12３", "9223372036854775807",
        "9223372036854775808", "-9223372036854775808", "-9223372036854775809", "2147483647",
        "2147483648", "-2147483648", "-2147483649", "18446744073709551615", "abc", "'12'", "+", "-",
        "0000000000000000000000000000000000000001", "-0", "+0",
    ];
    for s in samples {
        assert_eq!(parse_isize(&chars(s)), s.parse::<isize>().ok(), "for {:?}", s);
    }
}

#[test]
fn parse_u8_agrees_with_std() {
    let samples = [
        "", "0", "1", "-1", "+1", "-0", "+0", "255", "256", "+255", "+256", "0255", "00000256", "999",
        "1 ", " 1", "1a", "a", "+", "-", "٣", "25５", "1000000000000000000000000000000",
    ];
    for s in samples {
        assert_eq!(parse_u8(&chars(s)), s.parse::<u8>().ok(), "for {:?}", s);
    }
    for n in 0..=300u32 {
        let s = n.to_string();
        assert_eq!(parse_u8(&chars(&s)), s.parse::<u8>().ok());
    }
}

#[test]
fn push_digits_writes_base_ten() {
    let mut s = String::from("n=");
    push_digits(&mut s, 0);
    assert_eq!(s, "n=0");
    let mut s = String::new();
    push_digits(&mut s, 9);
    push_digits(&mut s, 10);
    push_digits(&mut s, 1234567890);
    assert_eq!(s, "9101234567890");
    let mut s = String::new();
    push_digits(&mut s, u128::MAX);
    assert_eq!(s, u128::MAX.to_string());
}

#[test]
fn push_isize_agrees_with_std() {
    for n in [0isize, 1, -1, 9, 10, -10, 99, 100, 12345, -12345, isize::MAX, isize::MIN] {
        let mut s = String::from("x");
        push_isize(&mut s, n);
        assert_eq!(s, format!("x{}", n));
    }
}

#[test]
fn what_is_written_is_read_back() {
    for n in [0isize, 7, -7, 1000, -1000, isize::MAX, isize::MIN] {
        let mut s = String::new();
        push_isize(&mut s, n);
        assert_eq!(parse_isize(&chars(&s)), Some(n));
    }
}
