use clip_preparer::escape::{
    escape_backslashes, escape_overlay_text, is_whitespace_char, replace_char, trim,
};

#[test]
fn overlay_text_with_colon_quote_and_backslash() {
    // One backslash before the colon, one before the quote, and the single
    // backslash of the input doubled.
    assert_eq!(
        escape_overlay_text("Name: O'Brien \\ Studio"),
        "Name\\: O\\'Brien \\\\ Studio"
    );
}

#[test]
fn each_special_character_gets_one_backslash() {
    assert_eq!(escape_overlay_text("\\"), "\\\\");
    assert_eq!(escape_overlay_text(":"), "\\:");
    assert_eq!(escape_overlay_text("'"), "\\'");
    assert_eq!(escape_overlay_text("\\:'"), "\\\\\\:\\'");
    assert_eq!(escape_overlay_text("a:b:c"), "a\\:b\\:c");
}

#[test]
fn escaping_trims_the_result() {
    assert_eq!(escape_overlay_text("  Jane Doe\n@jane  \n"), "Jane Doe\n@jane");
    assert_eq!(escape_overlay_text("   "), "");
    assert_eq!(escape_overlay_text(""), "");
}

#[test]
fn plain_text_is_left_alone_and_escaping_it_twice_changes_nothing() {
    let once = escape_overlay_text(" Jane Doe\n@jane_doe ");
    assert_eq!(once, "Jane Doe\n@jane_doe");
    assert_eq!(escape_overlay_text(&once), once);
}

#[test]
fn escaping_again_keeps_everything_but_the_three_characters() {
    let plain = |s: &str| -> String {
        s.chars().filter(|c| *c != '\\' && *c != ':' && *c != '\'').collect()
    };
    let text = "Name: O'Brien \\ Studio";
    let once = escape_overlay_text(text);
    let twice = escape_overlay_text(&once);
    assert_ne!(once, twice);
    assert_eq!(plain(&once), plain(text));
    assert_eq!(plain(&twice), plain(text));
}

#[test]
fn the_order_of_the_passes_matters() {
    let text = "a:b";
    let colon_first = replace_char(
        &replace_char(&replace_char(text, ':', "\\:"), '\\', "\\\\"),
        '\'',
        "\\'",
    );
    assert_eq!(colon_first, "a\\\\:b");
    assert_eq!(escape_overlay_text(text), "a\\:b");
    assert_ne!(colon_first, escape_overlay_text(text));
}

#[test]
fn replace_char_replaces_every_occurrence() {
    assert_eq!(replace_char("a-b-c", '-', "+"), "a+b+c");
    assert_eq!(replace_char("---", '-', ""), "");
    assert_eq!(replace_char("abc", 'x', "yy"), "abc");
    assert_eq!(replace_char("", 'x', "yy"), "");
    assert_eq!(replace_char("aXa", 'X', "<X>"), "a<X>a");
}

#[test]
fn font_path_has_its_backslashes_doubled() {
    assert_eq!(escape_backslashes("C:\\fonts\\Inter.ttf"), "C:\\\\fonts\\\\Inter.ttf");
    assert_eq!(escape_backslashes("/usr/share/fonts/Inter.ttf"), "/usr/share/fonts/Inter.ttf");
    assert_eq!(escape_backslashes("it's: here"), "it's: here");
}

#[test]
fn trim_removes_whitespace_at_both_ends_only() {
    assert_eq!(trim("  a b  "), "a b");
    assert_eq!(trim("\t\r\n a \u{a0}\u{3000}"), "a");
    assert_eq!(trim("a"), "a");
    assert_eq!(trim(""), "");
    assert_eq!(trim(" \n "), "");
    assert_eq!(trim("\u{200b}a"), "\u{200b}a");
}

#[test]
fn whitespace_is_what_the_standard_library_calls_whitespace() {
    let mut code: u32 = 0;
    while code <= 0x10FFFF {
        if let Some(c) = char::from_u32(code) {
            assert_eq!(is_whitespace_char(c), c.is_whitespace(), "U+{:04X}", code);
        }
        code += 1;
    }
}

#[test]
fn trim_agrees_with_the_standard_library() {
    let samples = [
        "", " ", "a", " a", "a ", "  a  b  ", "\n\ta\u{2003}", "\u{85}x\u{1680}",
        "\u{2028}\u{2029}\u{202f}\u{205f}z", "no space", " \\: ' ",
    ];
    for sample in samples {
        assert_eq!(trim(sample), sample.trim());
    }
}
