use convlog::text::{chars_of, parse_i32, parse_u16, parse_u8, split_at_commas};

fn chars(text: &str) -> Vec<char> {
    text.chars().collect()
}

#[test]
fn chars_of_gives_every_character() {
    assert_eq!(chars_of("a,あ"), vec!['a', ',', 'あ']);
    assert_eq!(chars_of(""), Vec::<char>::new());
}

#[test]
fn numbers_are_read_as_std_reads_them() {
    for text in ["0", "7", "007", "+7", "255", "256", "", "+", "-", "-0", " 7", "7 ", "1_0", "٣"] {
        assert_eq!(parse_u8(&chars(text)), text.parse::<u8>().ok(), "{:?}", text);
        assert_eq!(parse_u16(&chars(text)), text.parse::<u16>().ok(), "{:?}", text);
        assert_eq!(parse_i32(&chars(text)), text.parse::<i32>().ok(), "{:?}", text);
    }
    for text in ["65535", "65536", "000065535", "99999999999999999999999", "+65535"] {
        assert_eq!(parse_u16(&chars(text)), text.parse::<u16>().ok(), "{:?}", text);
    }
    for text in [
        "2147483647",
        "2147483648",
        "-2147483648",
        "-2147483649",
        "+2147483647",
        "-00012",
        "--1",
        "+-1",
        "-+1",
        "4294967296",
    ] {
        assert_eq!(parse_i32(&chars(text)), text.parse::<i32>().ok(), "{:?}", text);
    }
}

#[test]
fn numbers_have_exact_values() {
    assert_eq!(parse_u8(&chars("135")), Some(135));
    assert_eq!(parse_u16(&chars("7247")), Some(7247));
    assert_eq!(parse_i32(&chars("-120")), Some(-120));
}

#[test]
fn lists_are_cut_at_every_comma() {
    let split = |text: &str| -> Vec<String> {
        split_at_commas(&chars(text)).into_iter().map(|p| p.into_iter().collect()).collect()
    };
    for text in ["", ",", "a", "a,b", "a,,b", ",a,", "1,2,3,4,5,6"] {
        let expected: Vec<String> = text.split(',').map(|p| p.to_string()).collect();
        assert_eq!(split(text), expected, "{:?}", text);
    }
}
