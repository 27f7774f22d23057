use diskprobe::text::{
    chars_of, contains_folded, fold, join, same_chars, split_lines, split_tokens, starts_with,
    string_of, whitespace,
};

fn chars(s: &str) -> Vec<char> {
    s.chars().collect()
}

fn tokens(s: &str) -> Vec<String> {
    split_tokens(&chars(s)).iter().map(string_of).collect()
}

fn lines(s: &str) -> Vec<String> {
    split_lines(&chars(s)).iter().map(string_of).collect()
}

#[test]
fn characters_and_strings_convert_one_for_one() {
    assert_eq!(chars_of("a°C\u{fffd}"), vec!['a', '°', 'C', '\u{fffd}']);
    assert_eq!(string_of(&vec!['a', '°', 'C']), "a°C");
    assert_eq!(chars_of(""), Vec::<char>::new());
    assert_eq!(string_of(&Vec::new()), "");
}

#[test]
fn whitespace_is_what_the_standard_library_calls_whitespace() {
    let mut code: u32 = 0;
    while code <= 0x10ffff {
        if let Some(c) = char::from_u32(code) {
            assert_eq!(whitespace(c), c.is_whitespace(), "U+{:04X}", code);
        }
        code += 1;
    }
}

#[test]
fn folding_maps_capital_ascii_letters_only() {
    assert_eq!(fold('A'), 'a' as u32);
    assert_eq!(fold('Z'), 'z' as u32);
    assert_eq!(fold('a'), 'a' as u32);
    assert_eq!(fold('@'), '@' as u32);
    assert_eq!(fold('['), '[' as u32);
    assert_eq!(fold('_'), '_' as u32);
    assert_eq!(fold('É'), 'É' as u32);
    let mut code: u32 = 0;
    while code < 128 {
        let c = char::from_u32(code).unwrap();
        assert_eq!(fold(c), c.to_ascii_lowercase() as u32);
        code += 1;
    }
}

#[test]
fn tokens_are_the_runs_between_whitespace() {
    assert_eq!(tokens("a bc  d"), vec!["a", "bc", "d"]);
    assert_eq!(tokens("  a\tbc\r\nd\u{a0}e  "), vec!["a", "bc", "d", "e"]);
    assert_eq!(tokens("abc"), vec!["abc"]);
    assert_eq!(tokens(""), Vec::<String>::new());
    assert_eq!(tokens(" \t\n"), Vec::<String>::new());
}

#[test]
fn tokens_agree_with_the_standard_library() {
    for s in ["194 Temperature_Celsius ... 35 (Min/Max ...)", " x  y ", "a\u{2003}b\u{3000}c", "\n"] {
        let expected: Vec<String> = s.split_whitespace().map(|t| t.to_string()).collect();
        assert_eq!(tokens(s), expected);
    }
}

#[test]
fn lines_end_at_line_feeds() {
    assert_eq!(lines("a\nb"), vec!["a", "b"]);
    assert_eq!(lines("a\nb\n"), vec!["a", "b"]);
    assert_eq!(lines("a\n\nb"), vec!["a", "", "b"]);
    assert_eq!(lines("\n"), vec![""]);
    assert_eq!(lines("\n\n"), vec!["", ""]);
    assert_eq!(lines("\na"), vec!["", "a"]);
    assert_eq!(lines(""), Vec::<String>::new());
    assert_eq!(lines("a b"), vec!["a b"]);
}

#[test]
fn lines_keep_carriage_returns() {
    assert_eq!(lines("a\r\nb\r"), vec!["a\r", "b\r"]);
}

#[test]
fn join_puts_single_spaces_between_the_parts() {
    assert_eq!(string_of(&join(&vec![chars("a"), chars("bc"), chars("d")])), "a bc d");
    assert_eq!(string_of(&join(&vec![chars("a"), chars(""), chars("d")])), "a  d");
    assert_eq!(string_of(&join(&vec![chars("d")])), "d");
    assert_eq!(string_of(&join(&Vec::new())), "");
}

#[test]
fn search_ignores_ascii_case() {
    assert!(contains_folded(&chars("Airflow_TEMPerature_Cel"), &chars("temperature")));
    assert!(contains_folded(&chars("xxtemp"), &chars("temp")));
    assert!(contains_folded(&chars("temp"), &chars("temp")));
    assert!(contains_folded(&chars("anything"), &chars("")));
    assert!(contains_folded(&chars(""), &chars("")));
    assert!(!contains_folded(&chars("tem"), &chars("temp")));
    assert!(!contains_folded(&chars("te mp"), &chars("temp")));
    assert!(!contains_folded(&chars(""), &chars("temp")));
    assert!(!contains_folded(&chars("tEMq"), &chars("temp")));
}

#[test]
fn equality_and_prefix_of_character_vectors() {
    assert!(same_chars(&chars("disk"), &chars("disk")));
    assert!(!same_chars(&chars("disk"), &chars("disc")));
    assert!(!same_chars(&chars("disk"), &chars("disks")));
    assert!(same_chars(&chars(""), &chars("")));
    assert!(starts_with(&chars("/dev/zd0"), &chars("/dev/zd")));
    assert!(starts_with(&chars("/dev/zd"), &chars("/dev/zd")));
    assert!(starts_with(&chars("/dev/zd"), &chars("")));
    assert!(!starts_with(&chars("/dev/z"), &chars("/dev/zd")));
    assert!(!starts_with(&chars("/dev/sda"), &chars("/dev/zd")));
}

#[test]
fn folding_agrees_with_full_lower_casing_on_the_letters_of_the_keyword() {
    // A character whose lower-case form holds a letter of "temperature" is
    // that letter or its ASCII capital, so that a search up to ASCII case
    // finds the word wherever a search in the lower-cased text finds it.
    let mut code: u32 = 0;
    while code <= 0x10ffff {
        if let Some(c) = char::from_u32(code) {
            let lower: Vec<char> = c.to_lowercase().collect();
            if lower.iter().any(|l| "temperature".contains(*l)) {
                assert!(c.is_ascii_alphabetic(), "U+{:04X}", code);
                assert_eq!(lower, vec![char::from_u32(fold(c)).unwrap()]);
            }
            if c.is_ascii() {
                assert_eq!(lower, vec![char::from_u32(fold(c)).unwrap()]);
            }
        }
        code += 1;
    }
}

#[test]
fn search_agrees_with_search_in_the_lower_cased_text() {
    let hays = [
        "Temperature_Celsius",
        "TEMP",
        "Airflow_Temp",
        "tEmPlate",
        "T\u{212a}emp",
        "te\u{130}mp",
        "\u{3a4}\u{395}\u{39c}\u{3a1}",
        "ATTEMPTS",
        "tem",
    ];
    for hay in hays {
        for needle in ["temperature", "temp"] {
            assert_eq!(
                contains_folded(&chars(hay), &chars(needle)),
                hay.to_lowercase().contains(needle),
                "{:?} in {:?}",
                needle,
                hay
            );
        }
    }
}
