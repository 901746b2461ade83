use rust_editor::tokenizer::{tokenize, tokenize_with, Token};
use rust_editor::ColorClass;

fn toks(s: &str) -> Vec<(String, ColorClass)> {
    let line: Vec<char> = s.chars().collect();
    tokenize(&line).into_iter().map(|t: Token| (t.text.into_iter().collect(), t.class)).collect()
}

#[test]
fn tokens_cover_line() {
    for s in ["let x = 42; // done", "\"open", "a_b1 9z", "", "fn main() { String::new() }", "x//y\"z"] {
        let joined: String = toks(s).into_iter().map(|t| t.0).collect();
        assert_eq!(joined, s);
    }
}

#[test]
fn token_classes() {
    let t = toks("let x = 42; // hi");
    assert_eq!(
        t,
        vec![
            ("let".to_string(), ColorClass::Keyword),
            (" ".to_string(), ColorClass::Plain),
            ("x".to_string(), ColorClass::Plain),
            (" ".to_string(), ColorClass::Plain),
            ("=".to_string(), ColorClass::Plain),
            (" ".to_string(), ColorClass::Plain),
            ("42".to_string(), ColorClass::Number),
            (";".to_string(), ColorClass::Plain),
            (" ".to_string(), ColorClass::Plain),
            ("// hi".to_string(), ColorClass::Comment),
        ]
    );
}

#[test]
fn strings_and_types() {
    let t = toks("\"a b\" Vec<u32>");
    assert_eq!(t[0], ("\"a b\"".to_string(), ColorClass::Str));
    assert_eq!(t[2], ("Vec".to_string(), ColorClass::Type));
    assert_eq!(t[4], ("u32".to_string(), ColorClass::Type));
}

#[test]
fn unterminated_string_runs_to_end() {
    assert_eq!(toks("x \"ab"), vec![
        ("x".to_string(), ColorClass::Plain),
        (" ".to_string(), ColorClass::Plain),
        ("\"ab".to_string(), ColorClass::Str),
    ]);
}

#[test]
fn digits_then_word() {
    assert_eq!(toks("12ab"), vec![
        ("12".to_string(), ColorClass::Number),
        ("ab".to_string(), ColorClass::Plain),
    ]);
}

#[test]
fn unicode_words() {
    assert_eq!(toks("größe_1+"), vec![
        ("größe_1".to_string(), ColorClass::Plain),
        ("+".to_string(), ColorClass::Plain),
    ]);
}

fn toks_with(s: &str, alnum: &[bool]) -> Vec<(String, ColorClass)> {
    let line: Vec<char> = s.chars().collect();
    tokenize_with(&line, &alnum.to_vec())
        .into_iter()
        .map(|t: Token| (t.text.into_iter().collect(), t.class))
        .collect()
}

#[test]
fn tokenize_with_given_answers() {
    assert_eq!(toks_with("let", &[true, true, true]), vec![("let".to_string(), ColorClass::Keyword)]);
    assert_eq!(toks_with("let", &[false, false, false]), vec![
        ("l".to_string(), ColorClass::Plain),
        ("e".to_string(), ColorClass::Plain),
        ("t".to_string(), ColorClass::Plain),
    ]);
    assert_eq!(toks_with("ab1 x_", &[true, false, true, false, true]), vec![
        ("a".to_string(), ColorClass::Plain),
        ("b".to_string(), ColorClass::Plain),
        ("1".to_string(), ColorClass::Number),
        (" ".to_string(), ColorClass::Plain),
        ("x_".to_string(), ColorClass::Plain),
    ]);
    assert_eq!(toks_with("Vec", &[true, true]), vec![
        ("Ve".to_string(), ColorClass::Plain),
        ("c".to_string(), ColorClass::Plain),
    ]);
}
