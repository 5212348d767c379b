use sass_value::style::{Scope, Style, Symbol, Token, TokenKind};

fn t(kind: TokenKind) -> Token {
    Token { kind }
}

fn ident(s: &str) -> Token {
    t(TokenKind::Ident(s.to_string()))
}

#[test]
fn style_from_tokens() {
    let scope = Scope { vars: vec![] };
    let toks = vec![
        ident("color"),
        t(TokenKind::Symbol(Symbol::Colon)),
        t(TokenKind::Whitespace(' ')),
        ident("red"),
        t(TokenKind::Whitespace(' ')),
        t(TokenKind::Whitespace(' ')),
        ident("blue"),
    ];
    let s = Style::from_tokens(&toks, &scope).unwrap();
    assert_eq!(s.to_text(), "color: red blue;");
}

#[test]
fn style_with_variable_and_minus() {
    let scope = Scope { vars: vec![("w".to_string(), vec![ident("10px")])] };
    let toks = vec![
        ident("width"),
        t(TokenKind::Symbol(Symbol::Colon)),
        t(TokenKind::Variable("w".to_string())),
        t(TokenKind::Whitespace(' ')),
        ident("-"),
        t(TokenKind::Whitespace(' ')),
        ident("2px"),
    ];
    let s = Style::from_tokens(&toks, &scope).unwrap();
    assert_eq!(s.property, "width");
    assert_eq!(s.value, "10px-2px");
}

#[test]
fn style_errors() {
    let scope = Scope { vars: vec![] };
    assert!(Style::from_tokens(&[], &scope).is_err());
    let toks = vec![ident("a"), t(TokenKind::Symbol(Symbol::Colon)), t(TokenKind::Variable("x".to_string()))];
    assert!(Style::from_tokens(&toks, &scope).is_err());
    let toks = vec![t(TokenKind::Interpolation), t(TokenKind::Symbol(Symbol::OpenCurlyBrace))];
    assert!(Style::from_tokens(&toks, &scope).is_err());
}

#[test]
fn style_interpolated_property() {
    let scope = Scope { vars: vec![("p".to_string(), vec![ident("top")])] };
    let toks = vec![
        ident("margin-"),
        t(TokenKind::Interpolation),
        t(TokenKind::Variable("p".to_string())),
        t(TokenKind::Symbol(Symbol::CloseCurlyBrace)),
        t(TokenKind::Symbol(Symbol::Colon)),
        ident("0"),
    ];
    let s = Style::from_tokens(&toks, &scope).unwrap();
    assert_eq!(s.property, "margin-top");
    assert_eq!(s.value, "0");
}
