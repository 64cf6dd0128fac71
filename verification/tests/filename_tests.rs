use rust_tikz::clean_filename;
use rust_tikz::filename::{is_whitespace, strip_delimiters, trim};

#[test]
fn test_clean_filename() {
    assert_eq!(clean_filename("test.tex"), "test.tex");
    assert_eq!(clean_filename("\"test.tex\""), "test.tex");
    assert_eq!(clean_filename("{test.tex}"), "test.tex");
}

#[test]
fn clean_filename_trims_before_and_after() {
    assert_eq!(clean_filename("  test.tex \n"), "test.tex");
    assert_eq!(clean_filename(" \" test.tex \" "), "test.tex");
    assert_eq!(clean_filename("\t{ test.tex }"), "test.tex");
    assert_eq!(clean_filename("\u{3000}a b\u{A0}"), "a b");
    assert_eq!(clean_filename(""), "");
    assert_eq!(clean_filename(" \n "), "");
}

#[test]
fn clean_filename_takes_quotes_then_braces() {
    assert_eq!(clean_filename("\"{test.tex}\""), "test.tex");
    // Braces come off before quotes are looked for again.
    assert_eq!(clean_filename("{\"test.tex\"}"), "\"test.tex\"");
    assert_eq!(clean_filename("\"test.tex"), "test.tex");
    assert_eq!(clean_filename("\""), "");
    assert_eq!(clean_filename("\"a\"b\"c"), "a\"b");
    assert_eq!(clean_filename("{test.tex"), "test.tex");
    assert_eq!(clean_filename("{a}b}c"), "a}b");
    assert_eq!(clean_filename("a\"b\""), "a\"b\"");
    assert_eq!(clean_filename("test.tex}"), "test.tex}");
}

#[test]
fn clean_filename_names_the_pool() {
    assert_eq!(clean_filename("TeXformats:TEX.POOL"), "tex.pool");
    assert_eq!(clean_filename(" \"TeXformats:TEX.POOL\" "), "tex.pool");
    assert_eq!(clean_filename("TeXformats:TEX.POOL2"), "TeXformats:TEX.POOL2");
    assert_eq!(clean_filename("TTY:"), "TTY:");
}

#[test]
fn clean_filename_twice_is_once() {
    for name in [
        "test.tex",
        " \"test.tex\" ",
        "{ a b }",
        "TeXformats:TEX.POOL",
        "tex.pool",
        "",
        "  ",
        "a\"b\"",
        "\"{x}\"",
        "\u{2003}r\u{E9}sum\u{E9}.tex\u{2003}",
    ] {
        let once = clean_filename(name).to_string();
        assert_eq!(clean_filename(&once), once, "for {:?}", name);
    }
}

#[test]
fn clean_filename_twice_is_not_once_under_two_pairs_of_quotes() {
    // The normal form still begins with a quote, which goes when it is
    // normalized again.
    assert_eq!(clean_filename("\"\"a\"\""), "\"a\"");
    assert_eq!(clean_filename("\"a\""), "a");
    assert_eq!(clean_filename("{{a}}"), "{a}");
}

#[test]
fn white_space_is_what_unicode_says() {
    for c in ['\t', '\n', '\u{B}', '\u{C}', '\r', ' ', '\u{85}', '\u{A0}', '\u{1680}', '\u{2000}',
        '\u{200A}', '\u{2028}', '\u{2029}', '\u{202F}', '\u{205F}', '\u{3000}']
    {
        assert!(is_whitespace(c), "{:?}", c);
        assert!(c.is_whitespace());
    }
    for code in 0..0x3100u32 {
        if let Some(c) = char::from_u32(code) {
            assert_eq!(is_whitespace(c), c.is_whitespace(), "{:?}", c);
        }
    }
}

#[test]
fn trim_and_strip_delimiters() {
    assert_eq!(trim("  a b  "), "a b");
    assert_eq!(trim("ab"), "ab");
    assert_eq!(trim("   "), "");
    assert_eq!(strip_delimiters("(a)", '(', ')'), "a");
    assert_eq!(strip_delimiters("(a", '(', ')'), "a");
    assert_eq!(strip_delimiters("a)", '(', ')'), "a)");
    assert_eq!(strip_delimiters("", '(', ')'), "");
}
