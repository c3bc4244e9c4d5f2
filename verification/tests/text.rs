use bupl::text::{
    chars_of, followed_by, decimal_string, has_suffix, has_text, is_whitespace, join_words,
    split_lines, split_words, str_eq, string_of,
};

fn chars(s: &str) -> Vec<char> {
    s.chars().collect()
}

fn strings(rows: Vec<Vec<char>>) -> Vec<String> {
    rows.iter().map(|row| row.iter().collect()).collect()
}

#[test]
fn white_space_is_what_the_standard_library_calls_white_space() {
    for code in 0..=0x10FFFFu32 {
        if let Some(c) = char::from_u32(code) {
            assert_eq!(is_whitespace(c), c.is_whitespace(), "U+{code:04X}");
        }
    }
}

#[test]
fn chars_and_strings_convert_back_and_forth() {
    assert_eq!(chars_of("héllo"), vec!['h', 'é', 'l', 'l', 'o']);
    assert_eq!(chars_of(""), Vec::<char>::new());
    assert_eq!(string_of(&vec!['a', 'ß', 'c']), "aßc");
    assert_eq!(string_of(&Vec::new()), "");
}

#[test]
fn str_eq_compares_letter_for_letter() {
    assert!(str_eq("abc", "abc"));
    assert!(str_eq("", ""));
    assert!(!str_eq("abc", "abd"));
    assert!(!str_eq("abc", "ab"));
    assert!(!str_eq("abc", "ABC"));
}

#[test]
fn followed_by_puts_one_text_after_the_other() {
    assert_eq!(followed_by("ab", "cd"), "abcd");
    assert_eq!(followed_by("", "cd"), "cd");
    assert_eq!(followed_by("ab", ""), "ab");
}

#[test]
fn decimal_string_writes_numerals() {
    assert_eq!(decimal_string(0), "0");
    assert_eq!(decimal_string(7), "7");
    assert_eq!(decimal_string(10), "10");
    assert_eq!(decimal_string(1234567890), "1234567890");
    assert_eq!(decimal_string(u64::MAX), u64::MAX.to_string());
    for n in 0..2000u64 {
        assert_eq!(decimal_string(n), n.to_string());
    }
}

#[test]
fn split_words_finds_the_runs_between_white_space() {
    assert_eq!(strings(split_words(&chars("Album  Dark Side\tof the\u{00A0}Moon "))), vec![
        "Album", "Dark", "Side", "of", "the", "Moon"
    ]);
    assert_eq!(strings(split_words(&chars(""))), Vec::<String>::new());
    assert_eq!(strings(split_words(&chars(" \t\r\n"))), Vec::<String>::new());
    assert_eq!(strings(split_words(&chars("one"))), vec!["one"]);
    for text in ["a b", "  a  b  ", "x\u{2003}y\u{3000}z", "\u{FEFF}a", "a\u{200B}b"] {
        let expected: Vec<String> = text.split_whitespace().map(str::to_string).collect();
        assert_eq!(strings(split_words(&chars(text))), expected);
    }
}

#[test]
fn split_lines_cuts_at_line_feeds() {
    assert_eq!(strings(split_lines(&chars("a\nb c\n"))), vec!["a", "b c", ""]);
    assert_eq!(strings(split_lines(&chars(""))), vec![""]);
    assert_eq!(strings(split_lines(&chars("no feed"))), vec!["no feed"]);
    assert_eq!(strings(split_lines(&chars("\n\nx"))), vec!["", "", "x"]);
    assert_eq!(strings(split_lines(&chars("a\r\nb"))), vec!["a\r", "b"]);
}

#[test]
fn join_words_puts_single_spaces_between() {
    let words = vec![chars("Album"), chars("Dark"), chars("Side")];
    assert_eq!(string_of(&join_words(&words, 0)), "Album Dark Side");
    assert_eq!(string_of(&join_words(&words, 1)), "Dark Side");
    assert_eq!(string_of(&join_words(&words, 2)), "Side");
    assert_eq!(string_of(&join_words(&words, 3)), "");
    assert_eq!(string_of(&join_words(&words, 4)), "");
    assert_eq!(string_of(&join_words(&words, usize::MAX)), "");
    assert_eq!(string_of(&join_words(&Vec::new(), 0)), "");
}

#[test]
fn has_suffix_looks_at_the_end() {
    assert!(has_suffix(&chars("song.mp3"), &chars(".mp3")));
    assert!(has_suffix(&chars(".mp3"), &chars(".mp3")));
    assert!(has_suffix(&chars("abc"), &chars("")));
    assert!(!has_suffix(&chars("mp3"), &chars(".mp3")));
    assert!(!has_suffix(&chars("song.mp3.bak"), &chars(".mp3")));
    assert!(!has_suffix(&chars("song.mp4"), &chars(".mp3")));
}

#[test]
fn has_text_looks_everywhere() {
    assert!(has_text(&chars("my Album-cover.jpg"), &chars("Album-cover.jpg")));
    assert!(has_text(&chars("abc"), &chars("")));
    assert!(has_text(&chars(""), &chars("")));
    assert!(has_text(&chars("abc"), &chars("abc")));
    assert!(has_text(&chars("aab"), &chars("ab")));
    assert!(has_text(&chars("abc"), &chars("c")));
    assert!(!has_text(&chars("abc"), &chars("abcd")));
    assert!(!has_text(&chars("abc"), &chars("ac")));
    assert!(!has_text(&chars(""), &chars("a")));
}
