use vacuity::text::{
    chars_of, find_within, first_expr, rename_word, str_eq, string_of, white_space, word_char,
};

#[test]
fn word_characters_are_the_alphanumerics_and_underscore() {
    for u in 0u32..=0x10ffff {
        if let Some(c) = char::from_u32(u) {
            assert_eq!(word_char(c), c.is_alphanumeric() || c == '_', "char {u:#x}");
        }
    }
}

#[test]
fn white_space_is_what_trim_removes() {
    for u in 0u32..=0x10ffff {
        if let Some(c) = char::from_u32(u) {
            assert_eq!(white_space(c), c.is_whitespace(), "char {u:#x}");
        }
    }
}

#[test]
fn rename_is_word_exact() {
    assert_eq!(rename_word("self.x + myself + self_ + selfish(self)", "self", "probe_self"),
        "probe_self.x + myself + self_ + selfish(probe_self)");
    assert_eq!(rename_word("", "self", "probe_self"), "");
    assert_eq!(rename_word("self", "self", "probe_self"), "probe_self");
    assert_eq!(rename_word("a b", "a", "c"), "c b");
}

#[test]
fn rename_reads_any_text_by_characters() {
    assert_eq!(rename_word("ü self", "self", "x"), "ü x");
    assert_eq!(rename_word("é", "self", "probe_self"), "é");
    assert_eq!(rename_word("r == \"é\" && self.ok()", "self", "probe_self"), "r == \"é\" && probe_self.ok()");
    assert_eq!(rename_word("a×self", "self", "x"), "a×x");
    assert_eq!(rename_word("selfé self", "self", "x"), "selfé x");
    assert_eq!(rename_word("א", "self", "x"), "א");
}

#[test]
fn first_expr_takes_the_first_top_level_element() {
    assert_eq!(first_expr("x > 0, \"message\""), "x > 0");
    assert_eq!(first_expr("f(a, b), m"), "f(a, b)");
    assert_eq!(first_expr("  [1, 2].len() == 2  "), "[1, 2].len() == 2");
    assert_eq!(first_expr("{ a, b }"), "{ a, b }");
    assert_eq!(first_expr(") a, b"), ") a, b");
    assert_eq!(first_expr("\u{3000}x\u{a0},"), "x");
    assert_eq!(first_expr(""), "");
    assert_eq!(first_expr("s == \"a,b\" , \"msg\""), "s == \"a,b\"");
    assert_eq!(first_expr("c == ',' , m"), "c == ','");
    assert_eq!(first_expr("c == '\\'' , m"), "c == '\\''");
    assert_eq!(first_expr("s == \"q\\\",\" , m"), "s == \"q\\\",\"");
    assert_eq!(first_expr("s == r#\"a\",b\"# , m"), "s == r#\"a\",b\"#");
    assert_eq!(first_expr("x: &'a u8 , m"), "x: &'a u8");
    assert_eq!(first_expr("\"unclosed, still one"), "\"unclosed, still one");
}

#[test]
fn helpers_agree_with_std() {
    assert!(str_eq("abc", "abc"));
    assert!(!str_eq("abc", "abd"));
    assert!(!str_eq("ab", "abc"));
    let v = chars_of("héllo");
    assert_eq!(v, vec!['h', 'é', 'l', 'l', 'o']);
    assert_eq!(string_of(&v), "héllo");
    let hay = chars_of("abcabc");
    let pat = chars_of("ca");
    assert_eq!(find_within(&hay, 0, 6, &pat), Some(2));
    assert_eq!(find_within(&hay, 3, 6, &pat), None);
    assert_eq!(find_within(&hay, 4, 4, &chars_of("")), Some(4));
}
