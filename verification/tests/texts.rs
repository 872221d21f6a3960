use cargo_wipe::text::{pad_left, pad_right, plural, push_decimal, same_text};

fn decimal(n: u64) -> String {
    let mut out = String::from("<");
    push_decimal(&mut out, n);
    out
}

#[test]
fn decimals_are_written_without_leading_zeros() {
    assert_eq!(decimal(0), "<0");
    assert_eq!(decimal(7), "<7");
    assert_eq!(decimal(10), "<10");
    assert_eq!(decimal(1234567890), "<1234567890");
    assert_eq!(decimal(u64::MAX), "<18446744073709551615");
}

#[test]
fn padding_fills_up_and_never_cuts() {
    assert_eq!(pad_right("ab", 4), "ab  ");
    assert_eq!(pad_right("abcd", 4), "abcd");
    assert_eq!(pad_right("abcde", 4), "abcde");
    assert_eq!(pad_left("ab", 4), "  ab");
    assert_eq!(pad_left("abcde", 4), "abcde");
}

#[test]
fn padding_counts_characters() {
    assert_eq!(pad_right("äö", 4), "äö  ");
    assert_eq!(pad_left("äö", 3), " äö");
}

#[test]
fn padding_agrees_with_format() {
    for text in ["", "x", "ä日", "longer text"] {
        for width in 0..15 {
            assert_eq!(pad_right(text, width), format!("{:<width$}", text, width = width));
            assert_eq!(pad_left(text, width), format!("{:>width$}", text, width = width));
        }
    }
}

#[test]
fn one_is_singular() {
    assert_eq!(plural(0), "s");
    assert_eq!(plural(1), "");
    assert_eq!(plural(2), "s");
}

#[test]
fn texts_are_compared_in_full() {
    assert!(same_text("wipe", "wipe"));
    assert!(same_text("", ""));
    assert!(!same_text("wipe", "wiper"));
    assert!(!same_text("ä", "a"));
}
