use linreg::report::{centre, labelled, size_line, REPORT_WIDTH};

#[test]
fn label_and_value_are_joined_by_colon_and_space() {
    assert_eq!(labelled("w", "2.00000"), "w: 2.00000");
    assert_eq!(labelled("", ""), ": ");
    assert_eq!(labelled("data_set b", "5"), "data_set b: 5");
}

#[test]
fn small_sizes_have_no_separator() {
    assert_eq!(size_line("testing_set size", 0), "testing_set size: 0");
    assert_eq!(size_line("testing_set size", 200), "testing_set size: 200");
    assert_eq!(size_line("testing_set size", 999), "testing_set size: 999");
}

#[test]
fn large_sizes_are_grouped_by_thousands() {
    assert_eq!(size_line("data_set size", 1000), "data_set size: 1\u{202f}000");
    assert_eq!(size_line("data_set size", 12_345), "data_set size: 12\u{202f}345");
    assert_eq!(
        size_line("data_set size", 1_000_000_000),
        "data_set size: 1\u{202f}000\u{202f}000\u{202f}000"
    );
}

#[test]
fn report_is_fifty_characters_wide() {
    assert_eq!(REPORT_WIDTH, 50);
}

#[test]
fn centring_pads_both_sides() {
    assert_eq!(centre("ab", 6), "  ab  ");
    assert_eq!(centre("ab", 7), "  ab   ");
    assert_eq!(centre("abc", 4), "abc ");
    assert_eq!(centre("", 3), "   ");
    assert_eq!(centre("", 0), "");
}

#[test]
fn centring_keeps_a_long_text() {
    assert_eq!(centre("abcdef", 6), "abcdef");
    assert_eq!(centre("abcdefg", 6), "abcdefg");
    assert_eq!(centre("abcdefg", 0), "abcdefg");
}

#[test]
fn centring_agrees_with_the_formatter() {
    let mut text = String::new();
    for _ in 0..60 {
        assert_eq!(centre(&text, 50), format!("{: ^50}", text));
        text.push('x');
    }
    let grouped = size_line("data_set size", 1_234_567);
    assert_eq!(centre(&grouped, 50), format!("{: ^50}", grouped));
    assert_eq!(centre(&grouped, 50).chars().count(), 50);
}
