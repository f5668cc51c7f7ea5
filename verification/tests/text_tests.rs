use bfkmd::text::{
    digit_str, is_text_before, join_texts, push_centered, push_decimal, push_four_digits,
    push_left_aligned, push_repeated, push_right_aligned, push_signed_decimal, push_spaces,
    push_two_digits, same_text,
};
use bfkmd::wrap::{is_space, wrapper};

#[test]
fn texts_are_compared() {
    assert!(same_text("abc", "abc"));
    assert!(!same_text("abc", "abd"));
    assert!(!same_text("abc", "ab"));
    assert!(same_text("", ""));
}

#[test]
fn numbers_are_written() {
    for n in [0u64, 7, 10, 99, 100, 12345, u64::MAX] {
        let mut out = "x".to_string();
        push_decimal(&mut out, n);
        assert_eq!(out, format!("x{}", n));
    }
    for n in [0i64, -1, 5, -727730, i64::MIN, i64::MAX] {
        let mut out = String::new();
        push_signed_decimal(&mut out, n);
        assert_eq!(out, format!("{}", n));
    }
    for n in [0u32, 5, 9, 10, 42, 99, 100, 2020, u32::MAX] {
        let mut out = String::new();
        push_two_digits(&mut out, n);
        assert_eq!(out, format!("{:02}", n));
    }
    for n in [0u32, 5, 42, 987, 2020, 9999] {
        let mut out = String::new();
        push_four_digits(&mut out, n);
        assert_eq!(out, format!("{:04}", n));
    }
    for digit in 0..10u8 {
        assert_eq!(digit_str(digit), format!("{}", digit));
    }
}

#[test]
fn texts_are_repeated_and_padded() {
    let mut out = String::new();
    push_repeated(&mut out, "ab", 3);
    push_repeated(&mut out, "c", 0);
    push_spaces(&mut out, 2);
    assert_eq!(out, "ababab  ");
    for text in ["", "a", "ab", "abc", "abcd", "abcde", "größe", "日本"] {
        for width in 0..8usize {
            let mut out = String::new();
            push_right_aligned(&mut out, text, width);
            assert_eq!(out, format!("{:>1$}", text, width));
            let mut out = String::new();
            push_left_aligned(&mut out, text, width);
            assert_eq!(out, format!("{:<1$}", text, width));
            let mut out = String::new();
            push_centered(&mut out, text, width);
            assert_eq!(out, format!("{:^1$}", text, width));
        }
    }
}

#[test]
fn texts_are_joined() {
    let parts = vec!["a".to_string(), "bc".to_string(), "".to_string(), "d".to_string()];
    assert_eq!(join_texts(&parts, ", "), "a, bc, , d");
    assert_eq!(join_texts(&vec![], ", "), "");
    assert_eq!(join_texts(&vec!["only".to_string()], ", "), "only");
}

#[test]
fn order_of_the_dictionary_is_that_of_str() {
    let words = ["", "a", "ab", "abc", "abd", "b", "AK", "AL", "MT", "Z", "é", "z", "日本", "日"];
    for left in words {
        for right in words {
            assert_eq!(is_text_before(left, right), left < right, "{:?} {:?}", left, right);
        }
    }
}

#[test]
fn white_space_is_that_of_char() {
    let mut code = 0u32;
    while code <= 0x10FFFF {
        if let Some(c) = char::from_u32(code) {
            assert_eq!(is_space(c), c.is_whitespace(), "{:x}", code);
        }
        code += 1;
    }
}

fn wrapped_as_slices(text: &str, width: usize) -> Vec<String> {
    let mut lines = vec![];
    let mut remaining = text;
    while remaining.len() > width {
        let guess = &remaining[..width];
        let right_edge = guess
            .find(|c| c == '\n')
            .or_else(|| guess.rfind(char::is_whitespace))
            .unwrap_or(width);
        lines.push(remaining[..right_edge].to_string());
        remaining = remaining[right_edge..].trim();
    }
    lines.push(remaining.to_string());
    lines
}

#[test]
fn text_that_fits_is_one_line() {
    assert_eq!(wrapper("short", 10), vec!["short"]);
    assert_eq!(wrapper("exactly10!", 10), vec!["exactly10!"]);
    assert_eq!(wrapper("", 10), vec![""]);
    assert_eq!(wrapper("  padded  ", 10), vec!["  padded  "]);
}

#[test]
fn long_text_is_broken_at_white_space() {
    assert_eq!(
        wrapper("For daily maximum values, first and last days may be partial.", 20),
        vec!["For daily maximum", "values, first and", "last days may be", "partial."]
    );
}

#[test]
fn line_feed_breaks_a_line_early() {
    assert_eq!(wrapper("one\ntwo three four five six", 12), vec!["one", "two three", "four five", "six"]);
}

#[test]
fn word_longer_than_the_width_is_cut() {
    assert_eq!(wrapper("abcdefghij", 4), vec!["abcd", "efgh", "ij"]);
    assert_eq!(wrapper("abcdefgh", 4), vec!["abcd", "efgh"]);
    assert_eq!(wrapper("abcdefghi   ", 4), vec!["abcd", "efgh", "i"]);
}

#[test]
fn text_that_begins_with_white_space() {
    assert_eq!(wrapper("   leading words here", 8), vec!["  ", "leading", "words", "here"]);
    assert_eq!(wrapper("\nabc def ghi", 5), vec!["", "abc", "def", "ghi"]);
    assert_eq!(wrapper("          ", 4), vec!["   ", ""]);
}

#[test]
fn nothing_fits_a_width_of_zero() {
    assert_eq!(wrapper("abc", 0), vec!["abc"]);
    assert_eq!(wrapper("", 0), vec![""]);
}

#[test]
fn lines_are_those_of_slicing() {
    let texts = [
        "This site is NOT automatically downloaded.",
        "a b c d e f g h i j k l m n o p q r s t u v w x y z",
        "averyveryverylongwordwithoutanyspaces and then some more text\nwith a line feed",
        "   leading and trailing   ",
        "tabs\tand\tspaces mixed\tin here",
        "\n\n\nonly feeds\n\n",
        "x",
        "",
    ];
    for text in texts {
        for width in 1..30usize {
            assert_eq!(wrapper(text, width), wrapped_as_slices(text, width), "{:?} {}", text, width);
        }
    }
}
