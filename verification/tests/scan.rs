use proc_macro2::{TokenStream, TokenTree};
use std::str::FromStr;
use wasm_bindgen_derive::scan::is_readable;

/// Whether the lexer makes a literal of `text` that the parser does not know.
fn holds_unknown_literal(tokens: TokenStream) -> bool {
    tokens.into_iter().any(|token| match token {
        TokenTree::Group(group) => holds_unknown_literal(group.stream()),
        TokenTree::Literal(literal) => {
            let text = literal.to_string();
            text.starts_with('c') || text.starts_with('(')
        }
        _ => false,
    })
}

/// Whether `text` lexes, and into a literal that the parser does not know.
fn unknown_literal_in(text: &str) -> bool {
    match TokenStream::from_str(text) {
        Ok(tokens) => holds_unknown_literal(tokens),
        Err(_) => false,
    }
}

const ALPHABET: [&str; 16] =
    ["c", "r", "b", "\"", "'", "#", "\\", "/", "*", " ", "\n", "x", "0", "(", "\u{e9}", "_"];

fn check_all(prefix: &mut String, left: usize, seen: &mut usize) {
    if unknown_literal_in(prefix) {
        *seen += 1;
        assert!(!is_readable(prefix), "{:?}", prefix);
    }
    if left > 0 {
        for piece in ALPHABET {
            prefix.push_str(piece);
            check_all(prefix, left - 1, seen);
            prefix.truncate(prefix.len() - piece.len());
        }
    }
}

#[test]
fn every_short_text_with_an_unknown_literal_is_refused() {
    let mut seen = 0;
    check_all(&mut String::new(), 5, &mut seen);
    assert!(seen > 100, "{}", seen);
}

fn next(state: &mut u64) -> usize {
    *state = state.wrapping_mul(6364136223846793005).wrapping_add(1442695040888963407);
    (*state >> 33) as usize
}

fn check_random(seed: u64, pieces: &[&str], rounds: usize, longest: usize) -> usize {
    let mut state = seed;
    let mut seen = 0;
    for _ in 0..rounds {
        let mut text = String::new();
        for _ in 0..1 + next(&mut state) % longest {
            text.push_str(pieces[next(&mut state) % pieces.len()]);
        }
        if unknown_literal_in(&text) {
            seen += 1;
            assert!(!is_readable(&text), "{:?}", text);
        }
    }
    seen
}

const PIECES: [&str; 40] = [
    "c\"x\"", "cr\"x\"", "cr#\"x\"#", "(/*ERROR*/)", "\"", "'", "#", "\\", "/", "*", "//", "/*",
    "*/", "\n", " ", "r", "b", "br", "r#", "r\"", "r#\"", "\"#", "b'", "b\"", "'\"'", "'\\''",
    "\\\"", "\\\\", "x", "'a", "'a'", "0", "1.", "\u{e9}", "_", "(", ")", ",", "=", "\"a\"",
];

#[test]
fn random_texts_with_an_unknown_literal_are_refused_1() {
    assert!(check_random(1, &PIECES, 150_000, 8) > 1000);
}

#[test]
fn random_texts_with_an_unknown_literal_are_refused_2() {
    assert!(check_random(2, &PIECES, 100_000, 14) > 1000);
}

#[test]
fn random_texts_with_an_unknown_literal_are_refused_3() {
    assert!(check_random(3, &ALPHABET, 200_000, 10) > 100);
}

#[test]
fn code_without_an_unknown_literal_is_readable() {
    for text in [
        "",
        "c",
        "struct S;",
        "struct cr;",
        "#[doc = \"abc\"c] struct S;",
        "#[doc = 1c\"x\"] struct S;",
        "#[doc = _c\"x\"] struct S;",
        "#[doc = bcr#\"x\"#] struct S;",
        "struct S(/* ERROR */);",
        "struct S((/*ERROR */));",
        "struct S<'a>(&'a u8, [u8; 0x10], f32);",
        "struct S<'c>(&'c str);",
        "#[doc = 'c'] struct S;",
        "#[doc = '\"'] #[doc = \" c\"] struct S;",
        "#[doc = '\\''] #[doc = \" c\"] struct S;",
        "#[doc = b'\"'] #[doc = \" c\"] struct S;",
        "#[doc = \"\\\"\"] #[doc = \" c\"] struct S;",
        "#[doc = \"\\\\\"] #[doc = \" c\"] struct S;",
        "#[doc = r\"\\\"] #[doc = \" c\"] struct S;",
        "#[doc = br##\"a\"#b\"##] #[doc = \" c\"] struct S;",
        "#[doc = 1.5] #[doc = 0x1f] struct S([u8; 0b11]);",
        "const RANGE: usize = 10..0x10;",
    ] {
        assert!(is_readable(text), "{}", text);
    }
}

#[test]
fn an_unknown_literal_where_a_token_can_begin_is_refused() {
    for text in [
        "c\"",
        "cr\"",
        "cr#",
        " c\"x\"",
        "=c\"x\"",
        "#c\"x\"",
        "#[doc = \"a\" c\"x\"] struct S;",
        "#[doc = \"\\\\\" c\"x\"] struct S;",
        "#[doc = r\"\\\" c\"x\"] struct S;",
        "#[doc = '\"' c\"x\"] struct S;",
        "/* a */ c\"x\"",
        "// a\nc\"x\"",
        "(/*ERROR*/)",
        "struct S(/*ERROR*/);",
        "0b1.0",
        "0x1.",
        "[u8; 0o7.5]",
    ] {
        assert!(!is_readable(text), "{}", text);
    }
}

#[test]
fn where_it_is_unsure_the_scan_refuses() {
    for text in [
        "'c\"x\"",
        "\u{e9}c\"x\"",
        "\u{e9}r\"x\"",
        "\u{e9}br#\"x\"#",
        "'r\"x\"",
        "r#c\"x\"",
        "r#br\"x\"",
        "x.0b1.y",
    ] {
        assert!(!is_readable(text), "{}", text);
    }
    for text in ["\u{e9}", "struct Gr\u{f6}\u{df}e;", "'r", "r#type", "\u{e9}b\"x\""] {
        assert!(is_readable(text), "{}", text);
    }
}
