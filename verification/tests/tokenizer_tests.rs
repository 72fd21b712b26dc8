use saba::tokenizer::{TokenKind, TokenStream, scan, tokenize, try_tokenize};

fn kinds(s: &str) -> Vec<TokenKind> {
    tokenize(s.to_string()).unwrap().iter().map(|t| t.kind).collect()
}

#[test]
fn keywords_in_any_case() {
    assert_eq!(kinds("create TABLE Get"), vec![TokenKind::Create, TokenKind::Table, TokenKind::Get]);
}

#[test]
fn names_keep_their_text() {
    let t = tokenize("GET MyCol OF tab_1".to_string()).unwrap();
    assert_eq!(t[1].kind, TokenKind::Ident);
    assert_eq!(t[1].text.as_deref(), Some("MyCol"));
    assert_eq!(t[3].text.as_deref(), Some("tab_1"));
}

#[test]
fn numbers_and_strings() {
    let t = tokenize("12 3.5 \"a b\"".to_string()).unwrap();
    assert_eq!(t.len(), 3);
    assert_eq!(t[0].kind, TokenKind::Int);
    assert_eq!(t[0].i64_value, Some(12));
    assert_eq!(t[1].kind, TokenKind::Float);
    assert_eq!(t[1].text.as_deref(), Some("3.5"));
    assert_eq!(t[2].kind, TokenKind::String);
    assert_eq!(t[2].text.as_deref(), Some("a b"));
}

#[test]
fn operators() {
    assert_eq!(
        kinds("== != < <= > >= = + - * / % ; : , ( ) [ ]"),
        vec![
            TokenKind::Eq,
            TokenKind::NotEq,
            TokenKind::Lt,
            TokenKind::LtEq,
            TokenKind::Gt,
            TokenKind::GtEq,
            TokenKind::Assign,
            TokenKind::AddOp,
            TokenKind::SubOp,
            TokenKind::MulOp,
            TokenKind::DivOp,
            TokenKind::ModOp,
            TokenKind::Semicolon,
            TokenKind::Colon,
            TokenKind::Comma,
            TokenKind::LParen,
            TokenKind::RParen,
            TokenKind::LBracket,
            TokenKind::RBracket,
        ]
    );
}

#[test]
fn whitespace_separates_tokens() {
    assert_eq!(kinds("USE\tdb\nSHOW"), vec![TokenKind::Use, TokenKind::Ident, TokenKind::Show]);
}

#[test]
fn too_large_a_number_is_refused() {
    assert!(try_tokenize("99999999999999999999".to_string()).is_none());
    assert!(scan("99999999999999999999").is_none());
    assert!(try_tokenize("9223372036854775807".to_string()).is_some());
}

#[test]
fn stream_steps() {
    let mut s = TokenStream::new(tokenize("USE db".to_string()).unwrap());
    assert!(!s.is_end());
    assert_eq!(s.get().unwrap().kind, TokenKind::Use);
    assert_eq!(s.cur().unwrap().kind, TokenKind::Ident);
    s.prev();
    assert_eq!(s.index, 0);
    s.prev();
    assert_eq!(s.index, 0);
    s.next();
    s.next();
    assert!(s.is_end());
    assert!(s.get().is_err());
    assert!(s.cur().is_err());
}
