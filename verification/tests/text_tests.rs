use song_consumer::text::{chars_of, decimal_string, is_blank_char, join_lines, split_lines};

fn strings(items: &[&str]) -> Vec<String> {
    items.iter().map(|s| s.to_string()).collect()
}

#[test]
fn decimal_of_single_digits() {
    for (n, text) in ["0", "1", "2", "3", "4", "5", "6", "7", "8", "9"].iter().enumerate() {
        assert_eq!(decimal_string(n), *text);
    }
}

#[test]
fn decimal_of_longer_numbers() {
    assert_eq!(decimal_string(10), "10");
    assert_eq!(decimal_string(99), "99");
    assert_eq!(decimal_string(100), "100");
    assert_eq!(decimal_string(1234567890), "1234567890");
}

#[test]
fn decimal_agrees_with_std_at_the_limit() {
    assert_eq!(decimal_string(usize::MAX), usize::MAX.to_string());
}

#[test]
fn blanks_are_the_white_space_characters() {
    for c in [
        '\t', '\n', '\u{b}', '\u{c}', '\r', ' ', '\u{85}', '\u{a0}', '\u{1680}', '\u{2000}',
        '\u{2005}', '\u{200a}', '\u{2028}', '\u{2029}', '\u{202f}', '\u{205f}', '\u{3000}',
    ] {
        assert!(is_blank_char(c), "{:?}", c);
    }
    for c in ['a', '0', '*', '\u{8}', '\u{e}', '\u{200b}', '\u{1f3b5}', '\u{feff}'] {
        assert!(!is_blank_char(c), "{:?}", c);
    }
}

#[test]
fn blanks_agree_with_std_on_every_character() {
    let mut code: u32 = 0;
    while code <= 0x10ffff {
        if let Some(c) = char::from_u32(code) {
            assert_eq!(is_blank_char(c), c.is_whitespace(), "{:x}", code);
        }
        code += 1;
    }
}

#[test]
fn chars_of_keeps_every_character() {
    assert_eq!(chars_of(""), Vec::<char>::new());
    assert_eq!(chars_of("a\u{1f3b5}b"), vec!['a', '\u{1f3b5}', 'b']);
}

#[test]
fn split_of_empty_text_is_empty() {
    assert_eq!(split_lines(""), Vec::<String>::new());
}

#[test]
fn split_one_line_without_line_feed() {
    assert_eq!(split_lines("Bohemian Rhapsody"), strings(&["Bohemian Rhapsody"]));
}

#[test]
fn split_keeps_the_order_of_the_lines() {
    assert_eq!(split_lines("A\nB\nC"), strings(&["A", "B", "C"]));
}

#[test]
fn split_ignores_a_final_line_feed() {
    assert_eq!(split_lines("A\nB\n"), strings(&["A", "B"]));
}

#[test]
fn split_takes_carriage_return_line_feed() {
    assert_eq!(split_lines("A\r\nB\r\n"), strings(&["A", "B"]));
}

#[test]
fn split_drops_empty_and_blank_lines() {
    assert_eq!(split_lines("\n\nA\n\n   \n\t\nB\n\n"), strings(&["A", "B"]));
    assert_eq!(split_lines("\n"), Vec::<String>::new());
    assert_eq!(split_lines("  \u{3000} "), Vec::<String>::new());
}

#[test]
fn split_trims_each_line() {
    assert_eq!(
        split_lines("  Hey Jude \n\tLet It Be\u{a0}\n\u{3000}Yesterday"),
        strings(&["Hey Jude", "Let It Be", "Yesterday"])
    );
}

#[test]
fn split_keeps_blanks_inside_a_line() {
    assert_eq!(split_lines(" a  b \n"), strings(&["a  b"]));
}

#[test]
fn split_handles_characters_beyond_ascii() {
    assert_eq!(
        split_lines("\u{1f3b5} Für Elise\nЛебединое озеро \n"),
        strings(&["\u{1f3b5} Für Elise", "Лебединое озеро"])
    );
}

#[test]
fn split_agrees_with_std_on_plain_lines() {
    let text = "one\ntwo three\r\nfour\nfive";
    let expected: Vec<String> = text.lines().map(|l| l.to_string()).collect();
    assert_eq!(split_lines(text), expected);
}

#[test]
fn join_of_nothing_is_empty() {
    assert_eq!(join_lines(&Vec::new()), "");
}

#[test]
fn join_of_one_line_is_the_line() {
    assert_eq!(join_lines(&strings(&["only"])), "only");
}

#[test]
fn join_puts_one_line_feed_between_lines() {
    assert_eq!(join_lines(&strings(&["a", "b", "c"])), "a\nb\nc");
    assert_eq!(join_lines(&strings(&["", ""])), "\n");
}

#[test]
fn join_agrees_with_std() {
    let lines = strings(&["1. x\ny", "2. z", ""]);
    assert_eq!(join_lines(&lines), lines.join("\n"));
}

#[test]
fn decimal_agrees_with_std_on_a_range() {
    for n in 0..20000usize {
        assert_eq!(decimal_string(n), n.to_string());
    }
}

#[test]
fn split_agrees_with_trimmed_std_lines_on_small_texts() {
    let alphabet = ['a', 'b', ' ', '\n', '\r', '\t', '\u{3000}'];
    let mut texts = vec![String::new()];
    for _ in 0..5 {
        let mut longer = Vec::new();
        for text in &texts {
            for c in alphabet {
                let mut next = text.clone();
                next.push(c);
                longer.push(next);
            }
        }
        for text in &longer {
            let expected: Vec<String> = text
                .split('\n')
                .map(|line| line.trim().to_string())
                .filter(|line| !line.is_empty())
                .collect();
            assert_eq!(split_lines(text), expected, "{:?}", text);
        }
        texts = longer;
    }
}
