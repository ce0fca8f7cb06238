use yande_dl::sanitize::{normalize_tag, safe_folder_segment};

#[test]
fn normalize_lowercases_and_trims() {
    assert_eq!(normalize_tag("  Stella_Sora  "), "stella_sora");
    assert_eq!(normalize_tag("\tFOO\n"), "foo");
}

#[test]
fn normalize_idempotent() {
    let n = normalize_tag(" Hatsune Miku ");
    assert_eq!(n, normalize_tag(&n));
}

#[test]
fn safe_replaces_windows_unsafe() {
    assert_eq!(safe_folder_segment("rating:safe"), "rating_safe");
    assert_eq!(safe_folder_segment("a*b?c|d"), "a_b_c_d");
    assert_eq!(safe_folder_segment("foo<>bar"), "foo_bar");
}

#[test]
fn safe_replaces_whitespace() {
    assert_eq!(safe_folder_segment("hatsune miku"), "hatsune_miku");
    assert_eq!(safe_folder_segment("a\tb"), "a_b");
}

#[test]
fn safe_collapses_runs() {
    assert_eq!(safe_folder_segment("a   b"), "a_b");
    assert_eq!(safe_folder_segment("a***b"), "a_b");
}

#[test]
fn safe_strips_leading_trailing() {
    assert_eq!(safe_folder_segment(".hidden."), "hidden");
    assert_eq!(safe_folder_segment("__a__"), "a");
    assert_eq!(safe_folder_segment("._mixed_."), "mixed");
}

#[test]
fn safe_never_empty() {
    assert_eq!(safe_folder_segment(""), "_");
    assert_eq!(safe_folder_segment("***"), "_");
    assert_eq!(safe_folder_segment("..."), "_");
    assert_eq!(safe_folder_segment("___"), "_");
}

#[test]
fn safe_truncates_long_input() {
    let long: String = "a".repeat(200);
    let out = safe_folder_segment(&long);
    assert_eq!(out.chars().count(), 120);
}

#[test]
fn safe_unicode_safe_truncation() {
    // Each "你" is 3 bytes but 1 char.
    let long: String = "你".repeat(150);
    let out = safe_folder_segment(&long);
    assert_eq!(out.chars().count(), 120);
    assert!(out.is_char_boundary(out.len()));
}

#[test]
fn safe_preserves_unicode_chars() {
    assert_eq!(safe_folder_segment("初音ミク"), "初音ミク");
}

#[test]
fn safe_replaces_control_chars() {
    assert_eq!(safe_folder_segment("a\x00b"), "a_b");
    assert_eq!(safe_folder_segment("a\x1fb"), "a_b");
}

// ---- further cases ----

#[test]
fn safe_replaces_every_control_char() {
    assert_eq!(safe_folder_segment("a\u{7f}b"), "a_b");
    assert_eq!(safe_folder_segment("a\u{80}b\u{9f}c"), "a_b_c");
    // U+00A0 is whitespace, U+00A1 is an ordinary character.
    assert_eq!(safe_folder_segment("a\u{a0}b\u{a1}"), "a_b\u{a1}");
    for c in ['\u{0}', '\u{1f}', '\u{7f}', '\u{80}', '\u{9f}'] {
        assert!(c.is_control());
    }
}

#[test]
fn normalize_lowercases_non_ascii() {
    assert_eq!(normalize_tag("  ÄBC\u{3000}"), "äbc");
    assert_eq!(normalize_tag("ΣΑΣ"), "σας");
}

#[test]
fn normalize_trims_unicode_whitespace() {
    assert_eq!(normalize_tag("\u{a0}\u{2009}Foo\u{85}"), "foo");
    assert_eq!(normalize_tag("   "), "");
}

#[test]
fn safe_segment_is_idempotent_on_examples() {
    for t in ["rating:safe", "  a  b  ", "._x_.", "初音 ミク", "", "a/b\\c"] {
        let once = safe_folder_segment(t);
        assert_eq!(safe_folder_segment(&once), once);
    }
}

#[test]
fn safe_segment_truncation_may_leave_trailing_underscore() {
    // 119 letters, then a space that becomes `_`, then more letters: the
    // 120th character of the cleaned text is the `_`.
    let input = format!("{} tail", "a".repeat(119));
    let out = safe_folder_segment(&input);
    assert_eq!(out.chars().count(), 120);
    assert!(out.ends_with('_'));
    // This is the one case where sanitizing again changes the name.
    assert_eq!(safe_folder_segment(&out).chars().count(), 119);
}

#[test]
fn safe_segment_has_no_unsafe_chars() {
    let out = safe_folder_segment("<a>:\"b\"/c\\d|e?f*g\u{7}h i");
    assert!(!out.contains(|c: char| "<>:\"/\\|?*".contains(c) || c.is_whitespace() || c.is_control()));
    assert!(!out.contains("__"));
    assert_eq!(out, "a_b_c_d_e_f_g_h_i");
}
