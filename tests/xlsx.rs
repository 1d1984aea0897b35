use xtap_core::xlsx::label_to_index;

#[test]
fn test_alpha_to_index() {
    assert_eq!(label_to_index("C"), Some(3));
    assert_eq!(label_to_index("CD"), Some(82));
    assert_eq!(label_to_index("AFK"), Some(843));

    assert_eq!(label_to_index("c"), Some(3));
    assert_eq!(label_to_index("cd"), Some(82));
    assert_eq!(label_to_index("afk"), Some(843));

    assert_eq!(label_to_index(""), None);
    assert_eq!(label_to_index("42"), None);
    assert_eq!(label_to_index("A1"), None);
}

#[test]
fn label_single_letters_span_one_to_twenty_six() {
    assert_eq!(label_to_index("A"), Some(1));
    assert_eq!(label_to_index("Z"), Some(26));
    assert_eq!(label_to_index("AA"), Some(27));
    assert_eq!(label_to_index("zz"), Some(702));
}

#[test]
fn label_too_large_for_u32_is_none() {
    // MWLQKWU is 4294967295, the largest u32.
    assert_eq!(label_to_index("MWLQKWU"), Some(4294967295));
    assert_eq!(label_to_index("MWLQKWV"), None);
    assert_eq!(label_to_index("AAAAAAAA"), None);
}
