use todo_list::number::{push_decimal, read_u32};
use todo_list::text::{
    chars_of, find_in, has_prefix, is_space, matches_at, same_chars, skip_space, trim_bounds,
    trim_str, word_end,
};

fn chars(s: &str) -> Vec<char> {
    s.chars().collect()
}

#[test]
fn white_space_is_what_the_standard_library_calls_so() {
    for code in 0..=0x10FFFFu32 {
        if let Some(c) = char::from_u32(code) {
            assert_eq!(is_space(c), c.is_whitespace(), "U+{:04X}", code);
        }
    }
}

#[test]
fn chars_of_gives_each_character() {
    assert_eq!(chars_of("añ日🙂"), vec!['a', 'ñ', '日', '🙂']);
    assert_eq!(chars_of(""), Vec::<char>::new());
}

#[test]
fn trim_agrees_with_the_standard_library() {
    let samples = [
        "", " ", "a", " a", "a ", "  a b  ", "\t\n x \r\n", "\u{a0}x\u{2003}", "\u{3000}",
        "no space", " 日本 語 ", "\u{85}\u{1680}mid dle\u{2028}\u{2029}\u{202f}\u{205f}",
    ];
    for s in samples {
        assert_eq!(trim_str(s), s.trim(), "{:?}", s);
    }
    assert_eq!(trim_bounds(&chars("  ab c ")), (2, 6));
    assert_eq!(trim_bounds(&chars("   ")), (3, 3));
    assert_eq!(trim_bounds(&chars("")), (0, 0));
}

#[test]
fn find_gives_the_first_occurrence() {
    let hay = chars("ab. [. [X]");
    assert_eq!(find_in(&hay, &chars(". [")), Some(2));
    assert_eq!(find_in(&hay, &chars("[X]")), Some(7));
    assert_eq!(find_in(&hay, &chars("[ ]")), None);
    assert_eq!(find_in(&hay, &chars("")), Some(0));
    assert_eq!(find_in(&hay, &chars("ab. [. [X]")), Some(0));
    assert_eq!(find_in(&hay, &chars("ab. [. [X] ")), None);
    assert_eq!(find_in(&chars(""), &chars("")), Some(0));
    assert_eq!(find_in(&chars("aaa"), &chars("aa")), Some(0));
    assert_eq!(find_in(&chars("xyz"), &chars("z")), Some(2));
    for (hay, pat) in [("hello world", "o w"), ("hello", "l"), ("abc", "d"), ("", "a")] {
        assert_eq!(
            find_in(&chars(hay), &chars(pat)),
            hay.find(pat).map(|at| hay[..at].chars().count())
        );
    }
}

#[test]
fn matching_and_prefixes() {
    let hay = chars("complete 1");
    assert!(matches_at(&hay, &chars("let"), 4));
    assert!(!matches_at(&hay, &chars("let"), 3));
    assert!(!matches_at(&hay, &chars("1"), 10));
    assert!(matches_at(&hay, &chars(""), 10));
    assert!(!matches_at(&hay, &chars(""), 11));
    assert!(!matches_at(&chars("ab"), &chars("abc"), 0));
    assert!(has_prefix(&hay, &chars("complete ")));
    assert!(has_prefix(&hay, &chars("")));
    assert!(!has_prefix(&hay, &chars("incomplete ")));
    assert!(!has_prefix(&chars("com"), &chars("complete ")));
    assert!(same_chars(&hay, &chars("complete 1")));
    assert!(!same_chars(&hay, &chars("complete 2")));
    assert!(!same_chars(&hay, &chars("complete")));
}

#[test]
fn words_and_the_space_between_them() {
    let s = chars("  12 \t new  title");
    assert_eq!(skip_space(&s, 0), 2);
    assert_eq!(word_end(&s, 2), 4);
    assert_eq!(skip_space(&s, 4), 7);
    assert_eq!(word_end(&s, 7), 10);
    assert_eq!(skip_space(&s, 10), 12);
    assert_eq!(word_end(&s, 12), 17);
    assert_eq!(skip_space(&s, 17), 17);
    assert_eq!(word_end(&s, 17), 17);
    assert_eq!(word_end(&s, 0), 0);
}

#[test]
fn numbers_are_read_as_the_standard_library_reads_them() {
    let samples = [
        "0", "7", "42", "007", "+5", "+", "", "-1", "++1", "1+", " 1", "1 ", "12a", "a12",
        "4294967295", "4294967296", "+4294967295", "04294967295", "42949672950",
        "18446744073709551616", "99999999999999999999999999999999", "٣", "１",
    ];
    for s in samples {
        assert_eq!(read_u32(&chars(s)), s.parse::<u32>().ok(), "{:?}", s);
    }
    assert_eq!(read_u32(&chars("1090")), Some(1090));
}

#[test]
fn numbers_are_written_in_decimal() {
    for n in [0u32, 1, 9, 10, 11, 99, 100, 101, 1090, 65535, 4294967294, u32::MAX] {
        let mut out = String::from("#");
        push_decimal(&mut out, n);
        assert_eq!(out, format!("#{}", n));
    }
    let mut out = String::new();
    push_decimal(&mut out, 305);
    assert_eq!(out, "305");
}
