use todo_store::{normalize_title, TodoError, TITLE_MAX_LEN};

#[test]
fn rejects_empty_title() {
    assert!(normalize_title("   ").is_err());
}

#[test]
fn rejects_long_title() {
    let long = "a".repeat(TITLE_MAX_LEN + 1);
    assert!(normalize_title(&long).is_err());
}

#[test]
fn trims_valid_title() {
    let result = normalize_title("  hello  ").unwrap();
    assert_eq!(result, "hello");
}

#[test]
fn empty_input_classified_as_empty() {
    assert_eq!(normalize_title(""), Err(TodoError::EmptyTitle));
    assert_eq!(normalize_title("\u{2000}\u{2028}\r\n"), Err(TodoError::EmptyTitle));
}

#[test]
fn length_counts_scalar_values_not_bytes() {
    // 128 Hangul syllables occupy far more than 128 bytes but are accepted.
    let hangul = "한".repeat(TITLE_MAX_LEN);
    assert_eq!(normalize_title(&hangul).unwrap(), hangul);
    let over = "한".repeat(TITLE_MAX_LEN + 1);
    assert_eq!(normalize_title(&over), Err(TodoError::TooLong));
}

#[test]
fn trims_unicode_whitespace_ends_only() {
    let result = normalize_title("\u{3000} Buy milk \u{00A0}\t").unwrap();
    assert_eq!(result, "Buy milk");
    // Interior whitespace is preserved.
    let kept = normalize_title(" a \u{3000} b ").unwrap();
    assert_eq!(kept, "a \u{3000} b");
}
