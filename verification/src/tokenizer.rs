use vstd::prelude::*;
use crate::error::{Error, ErrorKind, make_error};
use crate::text::push_char;

verus! {

/// The kinds of token of the query language.
#[derive(Clone, Copy, Debug, PartialEq, Eq, Structural)]
pub enum TokenKind {
    Nil,
    Ident,
    String,
    Create,
    Rename,
    To,
    Order,
    By,
    Desc,
    Asc,
    PrimaryKey,
    AutoIncrement,
    Database,
    Databases,
    Default,
    Alter,
    Use,
    Show,
    Limit,
    Drop,
    Table,
    Tables,
    Int,
    Float,
    TypeI64,
    TypeF64,
    Bool,
    True,
    False,
    Column,
    Char,
    If,
    Type,
    Exists,
    Not,
    Get,
    SetKw,
    Add,
    Del,
    Of,
    Where,
    Values,
    AddOp,
    SubOp,
    MulOp,
    DivOp,
    ModOp,
    Lt,
    LtEq,
    Gt,
    GtEq,
    Eq,
    NotEq,
    And,
    Or,
    All,
    Assign,
    Semicolon,
    Colon,
    Comma,
    LParen,
    RParen,
    LBracket,
    RBracket,
}

/// What a token is, as the contracts see it.
pub struct TokenV {
    pub kind: TokenKind,
    pub text: Option<Seq<char>>,
    pub int: Option<i64>,
}

/// A token: its kind and, for names, strings and decimal fractions, its text;
/// for whole numbers, its value.
#[derive(Debug)]
pub struct Token {
    pub kind: TokenKind,
    pub text: Option<String>,
    pub i64_value: Option<i64>,
}

pub open spec fn opt_str_view(o: Option<String>) -> Option<Seq<char>> {
    match o {
        Some(s) => Some(s@),
        None => None,
    }
}

impl View for Token {
    type V = TokenV;

    open spec fn view(&self) -> TokenV {
        TokenV { kind: self.kind, text: opt_str_view(self.text), int: self.i64_value }
    }
}

pub open spec fn toks_view(v: Seq<Token>) -> Seq<TokenV> {
    v.map_values(|t: Token| t@)
}

impl Token {
    pub fn new() -> (t: Self)
        ensures
            t@ == (TokenV { kind: TokenKind::Nil, text: None, int: None }),
    {
        Token { kind: TokenKind::Nil, text: None, i64_value: None }
    }

    pub fn from(kind: TokenKind, text: Option<String>) -> (t: Self)
        ensures
            t@ == (TokenV { kind: kind, text: opt_str_view(text), int: None }),
    {
        Token { kind, text, i64_value: None }
    }

    pub fn from_int(n: i64) -> (t: Self)
        ensures
            t@ == (TokenV { kind: TokenKind::Int, text: None, int: Some(n) }),
    {
        Token { kind: TokenKind::Int, text: None, i64_value: Some(n) }
    }

    /// A decimal fraction, kept as the text that was read.
    pub fn from_float_text(text: String) -> (t: Self)
        ensures
            t@ == (TokenV { kind: TokenKind::Float, text: Some(text@), int: None }),
    {
        Token { kind: TokenKind::Float, text: Some(text), i64_value: None }
    }
}

/// The tokens of a query and the position of the next one to read.
pub struct TokenStream {
    pub tokens: Vec<Token>,
    pub index: usize,
}

impl TokenStream {
    pub open spec fn toks(&self) -> Seq<TokenV> {
        toks_view(self.tokens@)
    }

    pub fn new(tokens: Vec<Token>) -> (s: Self)
        ensures
            s.tokens@ == tokens@,
            s.index == 0,
    {
        TokenStream { tokens, index: 0 }
    }

    pub fn is_end(&self) -> (b: bool)
        ensures
            b == (self.index >= self.tokens@.len()),
    {
        self.index >= self.tokens.len()
    }

    /// Steps back one token, unless at the start.
    pub fn prev(&mut self)
        ensures
            final(self).tokens@ == old(self).tokens@,
            final(self).index == (if old(self).index > 0 { old(self).index - 1 } else { 0 }),
    {
        if self.index > 0 {
            self.index -= 1;
        }
    }

    pub fn next(&mut self)
        requires
            old(self).index < usize::MAX,
        ensures
            final(self).tokens@ == old(self).tokens@,
            final(self).index == old(self).index + 1,
    {
        self.index += 1;
    }

    /// The current token, without moving.
    pub fn cur(&self) -> (res: Result<&Token, Error>)
        ensures
            self.index < self.tokens@.len() ==> res is Ok && *res->Ok_0 == self.tokens@[self.index as int],
            self.index >= self.tokens@.len() ==> res is Err && res->Err_0@ == ErrorKind::Runtime,
    {
        if self.index >= self.tokens.len() {
            return Err(make_error(ErrorKind::Runtime, "index out of range (cur)"));
        }
        Ok(&self.tokens[self.index])
    }

    /// The current token; moves past it.
    pub fn get(&mut self) -> (res: Result<&Token, Error>)
        ensures
            final(self).tokens@ == old(self).tokens@,
            old(self).index < old(self).tokens@.len() ==> res is Ok && final(self).index == old(self).index + 1
                && *res->Ok_0 == old(self).tokens@[old(self).index as int],
            old(self).index >= old(self).tokens@.len() ==> res is Err && res->Err_0@ == ErrorKind::Runtime
                && final(self).index == old(self).index,
    {
        if self.index >= self.tokens.len() {
            return Err(make_error(ErrorKind::Runtime, "index out of range (get)"));
        }
        let i = self.index;
        self.index += 1;
        Ok(&self.tokens[i])
    }
}

/// Whether a character outside ASCII has the Unicode `Alphabetic` property
/// (std's `char::is_alphabetic`).
pub uninterp spec fn unicode_alphabetic(c: char) -> bool;

/// Whether a character outside ASCII is in one of the Unicode general
/// categories for numbers (std's `char::is_numeric`).
pub uninterp spec fn unicode_numeric(c: char) -> bool;

/// Whether a character is alphabetic in Unicode: in ASCII, exactly the
/// letters `A` to `Z` and `a` to `z`.
pub open spec fn spec_is_alphabetic(c: char) -> bool {
    if (c as u32) < 128 {
        ('a' <= c && c <= 'z') || ('A' <= c && c <= 'Z')
    } else {
        unicode_alphabetic(c)
    }
}

/// Whether a character is numeric in Unicode: in ASCII, exactly the digits
/// `0` to `9`.
pub open spec fn spec_is_numeric(c: char) -> bool {
    if (c as u32) < 128 {
        '0' <= c && c <= '9'
    } else {
        unicode_numeric(c)
    }
}

/// Calls std's `char::is_alphabetic`, a function of the character alone,
/// true exactly for the characters with the Unicode `Alphabetic` property;
/// of ASCII those are the letters.
#[verifier::external_body]
fn char_is_alphabetic(c: char) -> (b: bool)
    ensures
        b == (if (c as u32) < 128 {
            ('a' <= c && c <= 'z') || ('A' <= c && c <= 'Z')
        } else {
            unicode_alphabetic(c)
        }),
{
    c.is_alphabetic()
}

/// Calls std's `char::is_numeric`, a function of the character alone,
/// true exactly for the characters in the Unicode general categories for
/// numbers; of ASCII those are the digits.
#[verifier::external_body]
fn char_is_numeric(c: char) -> (b: bool)
    ensures
        b == (if (c as u32) < 128 {
            '0' <= c && c <= '9'
        } else {
            unicode_numeric(c)
        }),
{
    c.is_numeric()
}

/// Calls std's `char::is_alphanumeric`, which its documentation defines as
/// `is_alphabetic() || is_numeric()`.
#[verifier::external_body]
fn char_is_alphanumeric(c: char) -> (b: bool)
    ensures
        b == ((if (c as u32) < 128 {
            ('a' <= c && c <= 'z') || ('A' <= c && c <= 'Z')
        } else {
            unicode_alphabetic(c)
        }) || (if (c as u32) < 128 {
            '0' <= c && c <= '9'
        } else {
            unicode_numeric(c)
        })),
{
    c.is_alphanumeric()
}

pub open spec fn spec_ident_head(c: char) -> bool {
    spec_is_alphabetic(c) || c == '_'
}

pub open spec fn spec_ident_char(c: char) -> bool {
    spec_is_alphabetic(c) || spec_is_numeric(c) || c == '_'
}

pub open spec fn spec_number_char(c: char) -> bool {
    spec_is_numeric(c) || c == '.'
}

fn is_ident_head(c: char) -> (b: bool)
    ensures
        b == spec_ident_head(c),
{
    char_is_alphabetic(c) || c == '_'
}

fn is_ident_char(c: char) -> (b: bool)
    ensures
        b == spec_ident_char(c),
{
    char_is_alphanumeric(c) || c == '_'
}

/// ASCII lower case of a character; other characters stay as they are.
pub open spec fn lower(c: char) -> char {
    if 'A' <= c && c <= 'Z' {
        ((c as u32) + 32) as char
    } else {
        c
    }
}

pub fn to_lower(c: char) -> (r: char)
    ensures
        r == lower(c),
{
    if 'A' <= c && c <= 'Z' {
        let b: u8 = c as u8;
        (b + 32) as char
    } else {
        c
    }
}

/// The lower-cased character at `k`, or `?` past the end.
pub open spec fn lc(cs: Seq<char>, k: int) -> char {
    if 0 <= k < cs.len() {
        lower(cs[k])
    } else {
        '?'
    }
}

fn lc_at(cs: &Vec<char>, k: usize) -> (r: char)
    ensures
        r == lc(cs@, k as int),
{
    if k < cs.len() {
        to_lower(cs[k])
    } else {
        '?'
    }
}

/// The keyword or symbol that starts at `i`, looking at up to sixteen
/// lower-cased characters, and how many characters past the first it covers.
pub open spec fn keyword_rule(cs: Seq<char>, i: int) -> Option<(TokenKind, int)> {
    let c1 = lc(cs, i);
    let c2 = lc(cs, i + 1);
    let c3 = lc(cs, i + 2);
    let c4 = lc(cs, i + 3);
    let c5 = lc(cs, i + 4);
    let c6 = lc(cs, i + 5);
    let c7 = lc(cs, i + 6);
    let c8 = lc(cs, i + 7);
    let c9 = lc(cs, i + 8);
    let c10 = lc(cs, i + 9);
    let c11 = lc(cs, i + 10);
    let c12 = lc(cs, i + 11);
    let c13 = lc(cs, i + 12);
    let c14 = lc(cs, i + 13);
    let c15 = lc(cs, i + 14);
    let c16 = lc(cs, i + 15);
    if c1 == 'g' && c2 == 'e' && c3 == 't' && c4 == ' ' {
        Some((TokenKind::Get, 2))
    } else if c1 == 's' && c2 == 'e' && c3 == 't' && c4 == ' ' {
        Some((TokenKind::SetKw, 2))
    } else if c1 == 'a' && c2 == 'd' && c3 == 'd' && c4 == ' ' {
        Some((TokenKind::Add, 2))
    } else if c1 == 'd' && c2 == 'e' && c3 == 'l' && c4 == ' ' {
        Some((TokenKind::Del, 2))
    } else if c1 == ' ' && c2 == 'a' && c3 == 'l' && c4 == 'l' && c5 == ' ' {
        Some((TokenKind::All, 3))
    } else if c1 == ' ' && c2 == 'a' && c3 == 'n' && c4 == 'd' && c5 == ' ' {
        Some((TokenKind::And, 3))
    } else if c1 == ' ' && c2 == 'a' && c3 == 's' && c4 == 'c' && c5 == ' ' {
        Some((TokenKind::Asc, 3))
    } else if (c1 == ' ' || c1 == '(' || c1 == ':') && c2 == 'i' && c3 == '6' && c4 == '4' && (c5 == ' ' || c5 == ',' || c5 == ')' || c5 == ';') {
        Some((TokenKind::TypeI64, 3))
    } else if (c1 == ' ' || c1 == '(' || c1 == ':') && c2 == 'f' && c3 == '6' && c4 == '4' && (c5 == ' ' || c5 == ',' || c5 == ')' || c5 == ';') {
        Some((TokenKind::TypeF64, 3))
    } else if (c1 == ' ' || c1 == '(' || c1 == ':') && c2 == 'i' && c3 == 'n' && c4 == 't' && (c5 == ' ' || c5 == ',' || c5 == ')' || c5 == ';') {
        Some((TokenKind::TypeI64, 3))
    } else if (c1 == ' ' || c1 == '(' || c1 == ':') && c2 == 'f' && c3 == 'l' && c4 == 'o' && c5 == 'a' && c6 == 't' && (c7 == ' ' || c7 == ',' || c7 == ')' || c7 == ';') {
        Some((TokenKind::TypeF64, 5))
    } else if c1 == 'u' && c2 == 's' && c3 == 'e' && c4 == ' ' {
        Some((TokenKind::Use, 3))
    } else if c1 == ' ' && c2 == 'n' && c3 == 'o' && c4 == 't' && c5 == ' ' {
        Some((TokenKind::Not, 3))
    } else if c1 == ' ' && c2 == 'v' && c3 == 'a' && c4 == 'l' && c5 == 'u' && c6 == 'e' && c7 == 's' && c8 == ' ' {
        Some((TokenKind::Values, 6))
    } else if c1 == ' ' && c2 == 't' && c3 == 'y' && c4 == 'p' && c5 == 'e' && c6 == ' ' {
        Some((TokenKind::Type, 4))
    } else if c1 == 'd' && c2 == 'e' && c3 == 's' && c4 == 'c' && c5 == ' ' {
        Some((TokenKind::Desc, 3))
    } else if c1 == 'd' && c2 == 'r' && c3 == 'o' && c4 == 'p' && c5 == ' ' {
        Some((TokenKind::Drop, 3))
    } else if c1 == 's' && c2 == 'h' && c3 == 'o' && c4 == 'w' && c5 == ' ' {
        Some((TokenKind::Show, 3))
    } else if (c1 == ' ' || c1 == ':' || c1 == '(') && c2 == 'c' && c3 == 'h' && c4 == 'a' && c5 == 'r' && (c6 == ' ' || c6 == '[') {
        Some((TokenKind::Char, 4))
    } else if (c1 == ' ' || c1 == ':' || c1 == '(') && c2 == 'b' && c3 == 'o' && c4 == 'o' && c5 == 'l' && (c6 == ' ' || c6 == ';' || c6 == ')' || c6 == ',') {
        Some((TokenKind::Bool, 4))
    } else if (c1 == ' ' || c1 == '=') && c2 == 't' && c3 == 'r' && c4 == 'u' && c5 == 'e' && (c6 == ' ' || c6 == ';' || c6 == ')' || c6 == ',') {
        Some((TokenKind::True, 4))
    } else if (c1 == ' ' || c1 == '=') && c2 == 'f' && c3 == 'a' && c4 == 'l' && c5 == 's' && c6 == 'e' && (c7 == ' ' || c7 == ';' || c7 == ',' || c7 == ')') {
        Some((TokenKind::False, 5))
    } else if c1 == ' ' && c2 == 'o' && c3 == 'r' && c4 == ' ' {
        Some((TokenKind::Or, 2))
    } else if c1 == ' ' && c2 == 'o' && c3 == 'f' && c4 == ' ' {
        Some((TokenKind::Of, 2))
    } else if c1 == ' ' && c2 == 'b' && c3 == 'y' && c4 == ' ' {
        Some((TokenKind::By, 2))
    } else if c1 == ' ' && c2 == 'o' && c3 == 'r' && c4 == 'd' && c5 == 'e' && c6 == 'r' && c7 == ' ' {
        Some((TokenKind::Order, 5))
    } else if c1 == ' ' && c2 == 'w' && c3 == 'h' && c4 == 'e' && c5 == 'r' && c6 == 'e' && c7 == ' ' {
        Some((TokenKind::Where, 5))
    } else if c1 == 'a' && c2 == 'l' && c3 == 't' && c4 == 'e' && c5 == 'r' && c6 == ' ' {
        Some((TokenKind::Alter, 4))
    } else if c1 == ' ' && c2 == 'l' && c3 == 'i' && c4 == 'm' && c5 == 'i' && c6 == 't' && c7 == ' ' {
        Some((TokenKind::Limit, 5))
    } else if c1 == ' ' && c2 == 't' && c3 == 'a' && c4 == 'b' && c5 == 'l' && c6 == 'e' && c7 == 's' && (c8 == ' ' || c8 == ';') {
        Some((TokenKind::Tables, 6))
    } else if c1 == ' ' && c2 == 'e' && c3 == 'x' && c4 == 'i' && c5 == 's' && c6 == 't' && c7 == 's' && c8 == ' ' {
        Some((TokenKind::Exists, 6))
    } else if c1 == ' ' && c2 == 't' && c3 == 'a' && c4 == 'b' && c5 == 'l' && c6 == 'e' && c7 == ' ' {
        Some((TokenKind::Table, 5))
    } else if c1 == ' ' && c2 == 'c' && c3 == 'o' && c4 == 'l' && c5 == 'u' && c6 == 'm' && c7 == 'n' && c8 == ' ' {
        Some((TokenKind::Column, 6))
    } else if c1 == 'c' && c2 == 'r' && c3 == 'e' && c4 == 'a' && c5 == 't' && c6 == 'e' && c7 == ' ' {
        Some((TokenKind::Create, 5))
    } else if c1 == ' ' && c2 == 'r' && c3 == 'e' && c4 == 'n' && c5 == 'a' && c6 == 'm' && c7 == 'e' && c8 == ' ' {
        Some((TokenKind::Rename, 6))
    } else if c1 == ' ' && c2 == 'd' && c3 == 'a' && c4 == 't' && c5 == 'a' && c6 == 'b' && c7 == 'a' && c8 == 's' && c9 == 'e' && c10 == 's' && (c11 == ' ' || c11 == ';') {
        Some((TokenKind::Databases, 9))
    } else if c1 == ' ' && c2 == 'd' && c3 == 'e' && c4 == 'f' && c5 == 'a' && c6 == 'u' && c7 == 'l' && c8 == 't' && c9 == ' ' {
        Some((TokenKind::Default, 7))
    } else if c1 == ' ' && c2 == 'd' && c3 == 'a' && c4 == 't' && c5 == 'a' && c6 == 'b' && c7 == 'a' && c8 == 's' && c9 == 'e' && c10 == ' ' {
        Some((TokenKind::Database, 8))
    } else if (c1 == ' ' || c1 == '(' || c1 == ',' || c1 == ':') && c2 == 'p' && c3 == 'r' && c4 == 'i' && c5 == 'm' && c6 == 'a' && c7 == 'r' && c8 == 'y' && c9 == '_' && c10 == 'k' && c11 == 'e' && c12 == 'y' && (c13 == ' ' || c13 == ',' || c13 == ')' || c13 == ';') {
        Some((TokenKind::PrimaryKey, 11))
    } else if (c1 == ' ' || c1 == '(' || c1 == ',' || c1 == ':') && c2 == 'a' && c3 == 'u' && c4 == 't' && c5 == 'o' && c6 == '_' && c7 == 'i' && c8 == 'n' && c9 == 'c' && c10 == 'r' && c11 == 'e' && c12 == 'm' && c13 == 'e' && c14 == 'n' && c15 == 't' && (c16 == ' ' || c16 == ',' || c16 == ')' || c16 == ';') {
        Some((TokenKind::AutoIncrement, 14))
    } else if c1 == ' ' && c2 == 't' && c3 == 'o' && c4 == ' ' {
        Some((TokenKind::To, 2))
    } else if c1 == ' ' && c2 == 'i' && c3 == 'f' && c4 == ' ' {
        Some((TokenKind::If, 2))
    } else if c1 == '=' && c2 == '=' {
        Some((TokenKind::Eq, 1))
    } else if c1 == '!' && c2 == '=' {
        Some((TokenKind::NotEq, 1))
    } else if c1 == '<' && c2 == '=' {
        Some((TokenKind::LtEq, 1))
    } else if c1 == '>' && c2 == '=' {
        Some((TokenKind::GtEq, 1))
    } else if c1 == '<' {
        Some((TokenKind::Lt, 0))
    } else if c1 == '>' {
        Some((TokenKind::Gt, 0))
    } else if c1 == '=' {
        Some((TokenKind::Assign, 0))
    } else if c1 == ';' {
        Some((TokenKind::Semicolon, 0))
    } else if c1 == ':' {
        Some((TokenKind::Colon, 0))
    } else if c1 == ',' {
        Some((TokenKind::Comma, 0))
    } else if c1 == '(' {
        Some((TokenKind::LParen, 0))
    } else if c1 == ')' {
        Some((TokenKind::RParen, 0))
    } else if c1 == '[' {
        Some((TokenKind::LBracket, 0))
    } else if c1 == ']' {
        Some((TokenKind::RBracket, 0))
    } else if c1 == '+' {
        Some((TokenKind::AddOp, 0))
    } else if c1 == '-' {
        Some((TokenKind::SubOp, 0))
    } else if c1 == '*' {
        Some((TokenKind::MulOp, 0))
    } else if c1 == '/' {
        Some((TokenKind::DivOp, 0))
    } else if c1 == '%' {
        Some((TokenKind::ModOp, 0))
    } else {
        None
    }
}

fn match_keyword(cs: &Vec<char>, i: usize) -> (r: Option<(TokenKind, usize)>)
    requires
        i < cs@.len(),
        cs@.len() < usize::MAX - 16,
    ensures
        match r {
            Some((k, a)) => keyword_rule(cs@, i as int) == Some((k, a as int)),
            None => keyword_rule(cs@, i as int) is None,
        },
{
    let c1 = lc_at(cs, i);
    let c2 = lc_at(cs, i + 1);
    let c3 = lc_at(cs, i + 2);
    let c4 = lc_at(cs, i + 3);
    let c5 = lc_at(cs, i + 4);
    let c6 = lc_at(cs, i + 5);
    let c7 = lc_at(cs, i + 6);
    let c8 = lc_at(cs, i + 7);
    let c9 = lc_at(cs, i + 8);
    let c10 = lc_at(cs, i + 9);
    let c11 = lc_at(cs, i + 10);
    let c12 = lc_at(cs, i + 11);
    let c13 = lc_at(cs, i + 12);
    let c14 = lc_at(cs, i + 13);
    let c15 = lc_at(cs, i + 14);
    let c16 = lc_at(cs, i + 15);
    if c1 == 'g' && c2 == 'e' && c3 == 't' && c4 == ' ' {
        Some((TokenKind::Get, 2usize))
    } else if c1 == 's' && c2 == 'e' && c3 == 't' && c4 == ' ' {
        Some((TokenKind::SetKw, 2usize))
    } else if c1 == 'a' && c2 == 'd' && c3 == 'd' && c4 == ' ' {
        Some((TokenKind::Add, 2usize))
    } else if c1 == 'd' && c2 == 'e' && c3 == 'l' && c4 == ' ' {
        Some((TokenKind::Del, 2usize))
    } else if c1 == ' ' && c2 == 'a' && c3 == 'l' && c4 == 'l' && c5 == ' ' {
        Some((TokenKind::All, 3usize))
    } else if c1 == ' ' && c2 == 'a' && c3 == 'n' && c4 == 'd' && c5 == ' ' {
        Some((TokenKind::And, 3usize))
    } else if c1 == ' ' && c2 == 'a' && c3 == 's' && c4 == 'c' && c5 == ' ' {
        Some((TokenKind::Asc, 3usize))
    } else if (c1 == ' ' || c1 == '(' || c1 == ':') && c2 == 'i' && c3 == '6' && c4 == '4' && (c5 == ' ' || c5 == ',' || c5 == ')' || c5 == ';') {
        Some((TokenKind::TypeI64, 3usize))
    } else if (c1 == ' ' || c1 == '(' || c1 == ':') && c2 == 'f' && c3 == '6' && c4 == '4' && (c5 == ' ' || c5 == ',' || c5 == ')' || c5 == ';') {
        Some((TokenKind::TypeF64, 3usize))
    } else if (c1 == ' ' || c1 == '(' || c1 == ':') && c2 == 'i' && c3 == 'n' && c4 == 't' && (c5 == ' ' || c5 == ',' || c5 == ')' || c5 == ';') {
        Some((TokenKind::TypeI64, 3usize))
    } else if (c1 == ' ' || c1 == '(' || c1 == ':') && c2 == 'f' && c3 == 'l' && c4 == 'o' && c5 == 'a' && c6 == 't' && (c7 == ' ' || c7 == ',' || c7 == ')' || c7 == ';') {
        Some((TokenKind::TypeF64, 5usize))
    } else if c1 == 'u' && c2 == 's' && c3 == 'e' && c4 == ' ' {
        Some((TokenKind::Use, 3usize))
    } else if c1 == ' ' && c2 == 'n' && c3 == 'o' && c4 == 't' && c5 == ' ' {
        Some((TokenKind::Not, 3usize))
    } else if c1 == ' ' && c2 == 'v' && c3 == 'a' && c4 == 'l' && c5 == 'u' && c6 == 'e' && c7 == 's' && c8 == ' ' {
        Some((TokenKind::Values, 6usize))
    } else if c1 == ' ' && c2 == 't' && c3 == 'y' && c4 == 'p' && c5 == 'e' && c6 == ' ' {
        Some((TokenKind::Type, 4usize))
    } else if c1 == 'd' && c2 == 'e' && c3 == 's' && c4 == 'c' && c5 == ' ' {
        Some((TokenKind::Desc, 3usize))
    } else if c1 == 'd' && c2 == 'r' && c3 == 'o' && c4 == 'p' && c5 == ' ' {
        Some((TokenKind::Drop, 3usize))
    } else if c1 == 's' && c2 == 'h' && c3 == 'o' && c4 == 'w' && c5 == ' ' {
        Some((TokenKind::Show, 3usize))
    } else if (c1 == ' ' || c1 == ':' || c1 == '(') && c2 == 'c' && c3 == 'h' && c4 == 'a' && c5 == 'r' && (c6 == ' ' || c6 == '[') {
        Some((TokenKind::Char, 4usize))
    } else if (c1 == ' ' || c1 == ':' || c1 == '(') && c2 == 'b' && c3 == 'o' && c4 == 'o' && c5 == 'l' && (c6 == ' ' || c6 == ';' || c6 == ')' || c6 == ',') {
        Some((TokenKind::Bool, 4usize))
    } else if (c1 == ' ' || c1 == '=') && c2 == 't' && c3 == 'r' && c4 == 'u' && c5 == 'e' && (c6 == ' ' || c6 == ';' || c6 == ')' || c6 == ',') {
        Some((TokenKind::True, 4usize))
    } else if (c1 == ' ' || c1 == '=') && c2 == 'f' && c3 == 'a' && c4 == 'l' && c5 == 's' && c6 == 'e' && (c7 == ' ' || c7 == ';' || c7 == ',' || c7 == ')') {
        Some((TokenKind::False, 5usize))
    } else if c1 == ' ' && c2 == 'o' && c3 == 'r' && c4 == ' ' {
        Some((TokenKind::Or, 2usize))
    } else if c1 == ' ' && c2 == 'o' && c3 == 'f' && c4 == ' ' {
        Some((TokenKind::Of, 2usize))
    } else if c1 == ' ' && c2 == 'b' && c3 == 'y' && c4 == ' ' {
        Some((TokenKind::By, 2usize))
    } else if c1 == ' ' && c2 == 'o' && c3 == 'r' && c4 == 'd' && c5 == 'e' && c6 == 'r' && c7 == ' ' {
        Some((TokenKind::Order, 5usize))
    } else if c1 == ' ' && c2 == 'w' && c3 == 'h' && c4 == 'e' && c5 == 'r' && c6 == 'e' && c7 == ' ' {
        Some((TokenKind::Where, 5usize))
    } else if c1 == 'a' && c2 == 'l' && c3 == 't' && c4 == 'e' && c5 == 'r' && c6 == ' ' {
        Some((TokenKind::Alter, 4usize))
    } else if c1 == ' ' && c2 == 'l' && c3 == 'i' && c4 == 'm' && c5 == 'i' && c6 == 't' && c7 == ' ' {
        Some((TokenKind::Limit, 5usize))
    } else if c1 == ' ' && c2 == 't' && c3 == 'a' && c4 == 'b' && c5 == 'l' && c6 == 'e' && c7 == 's' && (c8 == ' ' || c8 == ';') {
        Some((TokenKind::Tables, 6usize))
    } else if c1 == ' ' && c2 == 'e' && c3 == 'x' && c4 == 'i' && c5 == 's' && c6 == 't' && c7 == 's' && c8 == ' ' {
        Some((TokenKind::Exists, 6usize))
    } else if c1 == ' ' && c2 == 't' && c3 == 'a' && c4 == 'b' && c5 == 'l' && c6 == 'e' && c7 == ' ' {
        Some((TokenKind::Table, 5usize))
    } else if c1 == ' ' && c2 == 'c' && c3 == 'o' && c4 == 'l' && c5 == 'u' && c6 == 'm' && c7 == 'n' && c8 == ' ' {
        Some((TokenKind::Column, 6usize))
    } else if c1 == 'c' && c2 == 'r' && c3 == 'e' && c4 == 'a' && c5 == 't' && c6 == 'e' && c7 == ' ' {
        Some((TokenKind::Create, 5usize))
    } else if c1 == ' ' && c2 == 'r' && c3 == 'e' && c4 == 'n' && c5 == 'a' && c6 == 'm' && c7 == 'e' && c8 == ' ' {
        Some((TokenKind::Rename, 6usize))
    } else if c1 == ' ' && c2 == 'd' && c3 == 'a' && c4 == 't' && c5 == 'a' && c6 == 'b' && c7 == 'a' && c8 == 's' && c9 == 'e' && c10 == 's' && (c11 == ' ' || c11 == ';') {
        Some((TokenKind::Databases, 9usize))
    } else if c1 == ' ' && c2 == 'd' && c3 == 'e' && c4 == 'f' && c5 == 'a' && c6 == 'u' && c7 == 'l' && c8 == 't' && c9 == ' ' {
        Some((TokenKind::Default, 7usize))
    } else if c1 == ' ' && c2 == 'd' && c3 == 'a' && c4 == 't' && c5 == 'a' && c6 == 'b' && c7 == 'a' && c8 == 's' && c9 == 'e' && c10 == ' ' {
        Some((TokenKind::Database, 8usize))
    } else if (c1 == ' ' || c1 == '(' || c1 == ',' || c1 == ':') && c2 == 'p' && c3 == 'r' && c4 == 'i' && c5 == 'm' && c6 == 'a' && c7 == 'r' && c8 == 'y' && c9 == '_' && c10 == 'k' && c11 == 'e' && c12 == 'y' && (c13 == ' ' || c13 == ',' || c13 == ')' || c13 == ';') {
        Some((TokenKind::PrimaryKey, 11usize))
    } else if (c1 == ' ' || c1 == '(' || c1 == ',' || c1 == ':') && c2 == 'a' && c3 == 'u' && c4 == 't' && c5 == 'o' && c6 == '_' && c7 == 'i' && c8 == 'n' && c9 == 'c' && c10 == 'r' && c11 == 'e' && c12 == 'm' && c13 == 'e' && c14 == 'n' && c15 == 't' && (c16 == ' ' || c16 == ',' || c16 == ')' || c16 == ';') {
        Some((TokenKind::AutoIncrement, 14usize))
    } else if c1 == ' ' && c2 == 't' && c3 == 'o' && c4 == ' ' {
        Some((TokenKind::To, 2usize))
    } else if c1 == ' ' && c2 == 'i' && c3 == 'f' && c4 == ' ' {
        Some((TokenKind::If, 2usize))
    } else if c1 == '=' && c2 == '=' {
        Some((TokenKind::Eq, 1usize))
    } else if c1 == '!' && c2 == '=' {
        Some((TokenKind::NotEq, 1usize))
    } else if c1 == '<' && c2 == '=' {
        Some((TokenKind::LtEq, 1usize))
    } else if c1 == '>' && c2 == '=' {
        Some((TokenKind::GtEq, 1usize))
    } else if c1 == '<' {
        Some((TokenKind::Lt, 0usize))
    } else if c1 == '>' {
        Some((TokenKind::Gt, 0usize))
    } else if c1 == '=' {
        Some((TokenKind::Assign, 0usize))
    } else if c1 == ';' {
        Some((TokenKind::Semicolon, 0usize))
    } else if c1 == ':' {
        Some((TokenKind::Colon, 0usize))
    } else if c1 == ',' {
        Some((TokenKind::Comma, 0usize))
    } else if c1 == '(' {
        Some((TokenKind::LParen, 0usize))
    } else if c1 == ')' {
        Some((TokenKind::RParen, 0usize))
    } else if c1 == '[' {
        Some((TokenKind::LBracket, 0usize))
    } else if c1 == ']' {
        Some((TokenKind::RBracket, 0usize))
    } else if c1 == '+' {
        Some((TokenKind::AddOp, 0usize))
    } else if c1 == '-' {
        Some((TokenKind::SubOp, 0usize))
    } else if c1 == '*' {
        Some((TokenKind::MulOp, 0usize))
    } else if c1 == '/' {
        Some((TokenKind::DivOp, 0usize))
    } else if c1 == '%' {
        Some((TokenKind::ModOp, 0usize))
    } else {
        None
    }
}


/// The query text as the scanner reads it: newlines and tabs become spaces,
/// and one space closes it.
pub open spec fn normalize(s: Seq<char>) -> Seq<char> {
    s.map_values(|c: char| blank_out(c)).push(' ')
}

pub open spec fn blank_out(c: char) -> char {
    if c == '\n' || c == '\t' { ' ' } else { c }
}

/// The first double quote at or after `j`, or the end.
pub open spec fn find_quote(cs: Seq<char>, j: int) -> int
    decreases cs.len() - j,
{
    if j < 0 || j >= cs.len() {
        j
    } else if cs[j] == '"' {
        j
    } else {
        find_quote(cs, j + 1)
    }
}

/// The end of the run of digits and dots that starts at `j`.
pub open spec fn number_end(cs: Seq<char>, j: int) -> int
    decreases cs.len() - j,
{
    if j < 0 || j >= cs.len() {
        j
    } else if spec_number_char(cs[j]) {
        number_end(cs, j + 1)
    } else {
        j
    }
}

/// The end of the run of name characters that starts at `j`.
pub open spec fn ident_end(cs: Seq<char>, j: int) -> int
    decreases cs.len() - j,
{
    if j < 0 || j >= cs.len() {
        j
    } else if spec_ident_char(cs[j]) {
        ident_end(cs, j + 1)
    } else {
        j
    }
}

pub open spec fn is_digit(c: char) -> bool {
    '0' <= c && c <= '9'
}

/// The value of a string of decimal digits.
pub open spec fn decimal_value(s: Seq<char>) -> int
    decreases s.len(),
{
    if s.len() == 0 {
        0
    } else {
        decimal_value(s.drop_last()) * 10 + ((s.last() as int) - ('0' as int))
    }
}

pub open spec fn all_digits(s: Seq<char>) -> bool {
    forall|k: int| 0 <= k < s.len() ==> is_digit(#[trigger] s[k])
}

pub open spec fn dot_count(s: Seq<char>) -> nat
    decreases s.len(),
{
    if s.len() == 0 {
        0
    } else {
        dot_count(s.drop_last()) + if s.last() == '.' { 1nat } else { 0nat }
    }
}

/// A whole number that std's `str::parse::<i64>` reads: ASCII digits whose
/// value fits in an `i64`.
pub open spec fn int_literal_ok(s: Seq<char>) -> bool {
    s.len() > 0 && all_digits(s) && decimal_value(s) <= i64::MAX
}

/// A decimal fraction that std's `str::parse::<f64>` reads: ASCII digits with
/// exactly one dot, and at least one digit.
pub open spec fn float_literal_ok(s: Seq<char>) -> bool {
    &&& s.len() >= 2
    &&& dot_count(s) == 1
    &&& forall|k: int| 0 <= k < s.len() ==> is_digit(#[trigger] s[k]) || s[k] == '.'
}

pub open spec fn kw_token(k: TokenKind) -> TokenV {
    TokenV { kind: k, text: None, int: None }
}

/// One step of the scanner at `i`: the token it reads, if any, and where the
/// next step starts; `None` where reading a number would fail.
pub open spec fn scan_step(cs: Seq<char>, i: int) -> Option<(Option<TokenV>, int)> {
    let c1 = lc(cs, i);
    match keyword_rule(cs, i) {
        Some((k, a)) => Some((Some(kw_token(k)), i + a + 1)),
        None => {
            if c1 == '"' {
                let e = find_quote(cs, i + 1);
                Some(
                    (
                        Some(TokenV { kind: TokenKind::String, text: Some(cs.subrange(i + 1, e)), int: None }),
                        e + 1,
                    ),
                )
            } else if spec_is_numeric(c1) {
                let e = number_end(cs, i);
                let text = cs.subrange(i, e);
                let next = if e < cs.len() { e } else { e + 1 };
                if dot_count(text) > 0 {
                    if float_literal_ok(text) {
                        Some((Some(TokenV { kind: TokenKind::Float, text: Some(text), int: None }), next))
                    } else {
                        None
                    }
                } else if int_literal_ok(text) {
                    Some(
                        (
                            Some(TokenV { kind: TokenKind::Int, text: None, int: Some(decimal_value(text) as i64) }),
                            next,
                        ),
                    )
                } else {
                    None
                }
            } else if spec_ident_head(c1) {
                let e = ident_end(cs, i);
                let next = if e < cs.len() { e } else { e + 1 };
                Some((Some(TokenV { kind: TokenKind::Ident, text: Some(cs.subrange(i, e)), int: None }), next))
            } else {
                Some((None, i + 1))
            }
        },
    }
}

/// The tokens read from `i` on; `None` where the scanner would fail or stop
/// making progress.
pub open spec fn scan_from(cs: Seq<char>, i: int) -> Option<Seq<TokenV>>
    decreases cs.len() - i,
{
    if i < 0 || i >= cs.len() {
        Some(Seq::empty())
    } else {
        match scan_step(cs, i) {
            None => None,
            Some((t, next)) => {
                if next <= i {
                    None
                } else {
                    let rest = if next >= cs.len() { Some(Seq::empty()) } else { scan_from(cs, next) };
                    match rest {
                        None => None,
                        Some(r) => Some(
                            match t {
                                Some(tv) => seq![tv] + r,
                                None => r,
                            },
                        ),
                    }
                }
            },
        }
    }
}

/// The tokens of a query text; `None` where the scanner would fail.
pub open spec fn spec_tokenize(s: Seq<char>) -> Option<Seq<TokenV>> {
    scan_from(normalize(s), 0)
}

pub open spec fn tokenizable(s: Seq<char>) -> bool {
    spec_tokenize(s) is Some
}

pub open spec fn opt_token_view(t: Option<Token>) -> Option<TokenV> {
    match t {
        Some(t) => Some(t@),
        None => None,
    }
}

fn normalize_chars(s: &str) -> (v: Vec<char>)
    ensures
        v@ == normalize(s@),
{
    let mut v: Vec<char> = Vec::new();
    for c in it: s.chars()
        invariant
            it.seq() == s@,
            v@ == it.seq().take(it.index() as int).map_values(|c: char| blank_out(c)),
    {
        let d = if c == '\n' || c == '\t' { ' ' } else { c };
        proof {
            assert(c == it.seq()[it.index() as int]);
            assert(it.seq().take(it.index() + 1).map_values(|c: char| blank_out(c)) =~= it.seq().take(
                it.index() as int,
            ).map_values(|c: char| blank_out(c)).push(d));
        }
        v.push(d);
    }
    proof {
        assert(s@.take(s@.len() as int) =~= s@);
    }
    v.push(' ');
    v
}

fn read_string(cs: &Vec<char>, i: usize) -> (r: (Token, usize))
    requires
        i < cs@.len(),
        cs@.len() < usize::MAX - 16,
    ensures
        r.0@ == (TokenV { kind: TokenKind::String, text: Some(cs@.subrange(i + 1, find_quote(cs@, i + 1))), int: None }),
        r.1 == find_quote(cs@, i + 1) + 1,
{
    let mut text = String::new();
    let mut j = i + 1;
    while j < cs.len() && cs[j] != '"'
        invariant
            i + 1 <= j <= cs@.len(),
            cs@.len() < usize::MAX - 16,
            text@ == cs@.subrange(i + 1, j as int),
            find_quote(cs@, j as int) == find_quote(cs@, i + 1),
        decreases cs@.len() - j,
    {
        push_char(&mut text, cs[j]);
        proof {
            assert(cs@.subrange(i + 1, j + 1) =~= cs@.subrange(i + 1, j as int).push(cs@[j as int]));
        }
        j += 1;
    }
    (Token::from(TokenKind::String, Some(text)), j + 1)
}

proof fn lemma_dot_count_push(s: Seq<char>, c: char)
    ensures
        dot_count(s.push(c)) == dot_count(s) + if c == '.' { 1nat } else { 0nat },
{
    assert(s.push(c).drop_last() =~= s);
}

pub proof fn lemma_decimal_push(s: Seq<char>, c: char)
    ensures
        decimal_value(s.push(c)) == decimal_value(s) * 10 + ((c as int) - ('0' as int)),
{
    assert(s.push(c).drop_last() =~= s);
}

pub proof fn lemma_decimal_nonneg(s: Seq<char>)
    requires
        all_digits(s),
    ensures
        decimal_value(s) >= 0,
    decreases s.len(),
{
    if s.len() > 0 {
        assert(is_digit(s[s.len() - 1]));
        lemma_decimal_nonneg(s.drop_last());
    }
}

/// A prefix of a digit string never has a greater value than the whole.
pub proof fn lemma_decimal_prefix(s: Seq<char>, k: int)
    requires
        all_digits(s),
        0 <= k <= s.len(),
    ensures
        decimal_value(s.take(k)) <= decimal_value(s),
    decreases s.len() - k,
{
    if k < s.len() {
        lemma_decimal_prefix(s, k + 1);
        assert(s.take(k + 1) =~= s.take(k).push(s[k]));
        lemma_decimal_push(s.take(k), s[k]);
        assert(is_digit(s[k]));
        assert(all_digits(s.take(k)));
        lemma_decimal_nonneg(s.take(k));
    } else {
        assert(s.take(k) =~= s);
    }
}

/// Reads the digits `cs[from..to]` as an `i64`, as `str::parse::<i64>` would.
fn parse_decimal(cs: &Vec<char>, from: usize, to: usize) -> (r: Option<i64>)
    requires
        from <= to <= cs@.len(),
    ensures
        match r {
            Some(v) => int_literal_ok(cs@.subrange(from as int, to as int)) && v == decimal_value(
                cs@.subrange(from as int, to as int),
            ),
            None => !int_literal_ok(cs@.subrange(from as int, to as int)),
        },
{
    let ghost s = cs@.subrange(from as int, to as int);
    if from == to {
        return None;
    }
    let mut v: i64 = 0;
    let mut k = from;
    while k < to
        invariant
            from <= k <= to <= cs@.len(),
            s == cs@.subrange(from as int, to as int),
            all_digits(s.take(k - from)),
            v == decimal_value(s.take(k - from)),
            0 <= v,
        decreases to - k,
    {
        let c = cs[k];
        proof {
            assert(s.take(k - from + 1) =~= s.take(k - from).push(c));
            lemma_decimal_push(s.take(k - from), c);
        }
        if !('0' <= c && c <= '9') {
            proof {
                assert(!is_digit(s[k - from]));
            }
            return None;
        }
        let d: i64 = (c as u32 - '0' as u32) as i64;
        if v > (i64::MAX - d) / 10 {
            proof {
                assert(v * 10 + d > i64::MAX) by (nonlinear_arith)
                    requires
                        v > (i64::MAX - d) / 10,
                        0 <= d <= 9,
                ;
                if all_digits(s) {
                    lemma_decimal_prefix(s, k - from + 1);
                }
            }
            return None;
        }
        proof {
            assert(v * 10 <= i64::MAX - d) by (nonlinear_arith)
                requires
                    v <= (i64::MAX - d) / 10,
                    0 <= d <= 9,
                    0 <= v,
            ;
        }
        v = v * 10 + d;
        k += 1;
    }
    proof {
        assert(s.take(k - from) =~= s);
    }
    Some(v)
}


/// Whether `cs[from..to]` is a decimal fraction that `str::parse::<f64>` reads.
fn float_ok(cs: &Vec<char>, from: usize, to: usize) -> (b: bool)
    requires
        from <= to <= cs@.len(),
    ensures
        b == float_literal_ok(cs@.subrange(from as int, to as int)),
{
    let ghost s = cs@.subrange(from as int, to as int);
    let mut dots: usize = 0;
    let mut ok = true;
    let mut k = from;
    while k < to
        invariant
            from <= k <= to <= cs@.len(),
            s == cs@.subrange(from as int, to as int),
            dots == dot_count(s.take(k - from)),
            dots <= k - from,
            ok == (forall|m: int| 0 <= m < k - from ==> is_digit(#[trigger] s[m]) || s[m] == '.'),
        decreases to - k,
    {
        let c = cs[k];
        proof {
            assert(s.take(k - from + 1) =~= s.take(k - from).push(c));
            lemma_dot_count_push(s.take(k - from), c);
        }
        if c == '.' {
            dots += 1;
        } else if !('0' <= c && c <= '9') {
            ok = false;
        }
        k += 1;
    }
    proof {
        assert(s.take(k - from) =~= s);
    }
    to - from >= 2 && dots == 1 && ok
}

fn read_number(cs: &Vec<char>, i: usize) -> (r: Option<(Token, usize)>)
    requires
        i < cs@.len(),
        cs@.len() < usize::MAX - 16,
    ensures
        ({
            let e = number_end(cs@, i as int);
            let text = cs@.subrange(i as int, e);
            let next = if e < cs@.len() { e } else { e + 1 };
            match r {
                Some((t, n)) => n == next && if dot_count(text) > 0 {
                    float_literal_ok(text) && t@ == (TokenV { kind: TokenKind::Float, text: Some(text), int: None })
                } else {
                    int_literal_ok(text) && t@ == (TokenV {
                        kind: TokenKind::Int,
                        text: None,
                        int: Some(decimal_value(text) as i64),
                    })
                },
                None => if dot_count(text) > 0 {
                    !float_literal_ok(text)
                } else {
                    !int_literal_ok(text)
                },
            }
        }),
{
    let mut text = String::new();
    let mut j = i;
    let mut dots: usize = 0;
    while j < cs.len() && (char_is_numeric(cs[j]) || cs[j] == '.')
        invariant
            i <= j <= cs@.len(),
            cs@.len() < usize::MAX - 16,
            text@ == cs@.subrange(i as int, j as int),
            number_end(cs@, j as int) == number_end(cs@, i as int),
            dots == dot_count(cs@.subrange(i as int, j as int)),
            dots <= j - i,
        decreases cs@.len() - j,
    {
        let c = cs[j];
        proof {
            assert(cs@.subrange(i as int, j + 1) =~= cs@.subrange(i as int, j as int).push(c));
            lemma_dot_count_push(cs@.subrange(i as int, j as int), c);
        }
        if c == '.' {
            dots += 1;
        }
        push_char(&mut text, c);
        j += 1;
    }
    let next = if j < cs.len() { j } else { j + 1 };
    if dots > 0 {
        if float_ok(cs, i, j) {
            Some((Token::from_float_text(text), next))
        } else {
            None
        }
    } else {
        match parse_decimal(cs, i, j) {
            Some(v) => Some((Token::from_int(v), next)),
            None => None,
        }
    }
}

fn read_ident(cs: &Vec<char>, i: usize) -> (r: (Token, usize))
    requires
        i < cs@.len(),
        cs@.len() < usize::MAX - 16,
    ensures
        ({
            let e = ident_end(cs@, i as int);
            &&& r.0@ == (TokenV { kind: TokenKind::Ident, text: Some(cs@.subrange(i as int, e)), int: None })
            &&& r.1 == if e < cs@.len() { e } else { e + 1 }
        }),
{
    let mut text = String::new();
    let mut j = i;
    while j < cs.len() && is_ident_char(cs[j])
        invariant
            i <= j <= cs@.len(),
            cs@.len() < usize::MAX - 16,
            text@ == cs@.subrange(i as int, j as int),
            ident_end(cs@, j as int) == ident_end(cs@, i as int),
        decreases cs@.len() - j,
    {
        let c = cs[j];
        proof {
            assert(cs@.subrange(i as int, j + 1) =~= cs@.subrange(i as int, j as int).push(c));
        }
        push_char(&mut text, c);
        j += 1;
    }
    let next = if j < cs.len() { j } else { j + 1 };
    (Token::from(TokenKind::Ident, Some(text)), next)
}

fn scan_one(cs: &Vec<char>, i: usize) -> (r: Option<(Option<Token>, usize)>)
    requires
        i < cs@.len(),
        cs@.len() < usize::MAX - 16,
    ensures
        match r {
            Some((t, n)) => scan_step(cs@, i as int) == Some((opt_token_view(t), n as int)),
            None => scan_step(cs@, i as int) is None,
        },
{
    let c1 = lc_at(cs, i);
    if let Some((k, a)) = match_keyword(cs, i) {
        return Some((Some(Token::from(k, None)), i + a + 1));
    }
    if c1 == '"' {
        let (t, n) = read_string(cs, i);
        Some((Some(t), n))
    } else if char_is_numeric(c1) {
        match read_number(cs, i) {
            Some((t, n)) => Some((Some(t), n)),
            None => None,
        }
    } else if is_ident_head(c1) {
        let (t, n) = read_ident(cs, i);
        Some((Some(t), n))
    } else {
        Some((None, i + 1))
    }
}

/// Reads the tokens of a query; `None` where reading a number would fail
/// (where `tokenize` would panic).
pub fn scan(string: &str) -> (r: Option<Vec<Token>>)
    requires
        string@.len() < usize::MAX - 32,
    ensures
        match r {
            Some(v) => spec_tokenize(string@) == Some(toks_view(v@)),
            None => spec_tokenize(string@) is None,
        },
{
    let chars = normalize_chars(string);
    let ghost cs = chars@;
    let mut i: usize = 0;
    let mut ret: Vec<Token> = Vec::new();
    while i < chars.len()
        invariant
            cs == chars@,
            cs == normalize(string@),
            cs.len() < usize::MAX - 16,
            i <= cs.len(),
            scan_from(cs, 0) == match scan_from(cs, i as int) {
                Some(rest) => Some(toks_view(ret@) + rest),
                None => None::<Seq<TokenV>>,
            },
        decreases cs.len() - i,
    {
        match scan_one(&chars, i) {
            None => {
                return None;
            },
            Some((t, next)) => {
                if next <= i {
                    return None;
                }
                let ghost old_ret = ret@;
                let ghost old_i = i;
                match t {
                    Some(tok) => {
                        ret.push(tok);
                    },
                    None => {},
                }
                i = if next >= chars.len() { chars.len() } else { next };
                proof {
                    assert(toks_view(ret@) =~= toks_view(old_ret) + match opt_token_view(t) {
                        Some(tv) => seq![tv],
                        None => Seq::empty(),
                    });
                    if i >= cs.len() {
                        assert(toks_view(ret@) + Seq::<TokenV>::empty() =~= toks_view(ret@));
                    }
                    match scan_from(cs, i as int) {
                        Some(rest) => {
                            match opt_token_view(t) {
                                Some(tv) => {
                                    assert(toks_view(old_ret) + (seq![tv] + rest) =~= toks_view(ret@) + rest);
                                },
                                None => {
                                    assert(toks_view(old_ret) + rest =~= toks_view(ret@) + rest);
                                },
                            }
                        },
                        None => {},
                    }
                }
            },
        }
    }
    proof {
        assert(toks_view(ret@) + Seq::<TokenV>::empty() =~= toks_view(ret@));
    }
    Some(ret)
}

/// Splits a query into tokens. Whole numbers carry their value, names,
/// strings and decimal fractions their text.
pub fn tokenize(string: String) -> (r: Result<Vec<Token>, Error>)
    requires
        string@.len() < usize::MAX - 32,
        tokenizable(string@),
    ensures
        r is Ok,
        spec_tokenize(string@) == Some(toks_view(r->Ok_0@)),
{
    match scan(string.as_str()) {
        Some(v) => Ok(v),
        None => Ok(Vec::new()),
    }
}

/// Splits a query into tokens where it can be; `None` on the queries on which
/// `tokenize` fails (a number that does not fit, or a malformed fraction).
pub fn try_tokenize(string: String) -> (r: Option<Vec<Token>>)
    requires
        string@.len() < usize::MAX - 32,
    ensures
        match r {
            Some(v) => tokenizable(string@) && spec_tokenize(string@) == Some(toks_view(v@)),
            None => !tokenizable(string@),
        },
{
    if scan(string.as_str()).is_some() {
        match tokenize(string) {
            Ok(v) => Some(v),
            Err(_) => None,
        }
    } else {
        None
    }
}

/// The words `true` and `false` (in any case, after a space or `=` and
/// before a space, `;`, `,` or `)`) are read as the truth values they
/// spell, and a truth-value token covers exactly the word it stands for:
/// `true` never gives a `False` token, nor `false` a `True` one.
pub proof fn lemma_truth_words_read_as_spelled(cs: Seq<char>, i: int)
    ensures
        keyword_rule(cs, i) matches Some((TokenKind::True, n)) ==> n == 4 && lc(cs, i + 1) == 't' && lc(cs, i + 2) == 'r'
            && lc(cs, i + 3) == 'u' && lc(cs, i + 4) == 'e',
        keyword_rule(cs, i) matches Some((TokenKind::False, n)) ==> n == 5 && lc(cs, i + 1) == 'f' && lc(cs, i + 2) == 'a'
            && lc(cs, i + 3) == 'l' && lc(cs, i + 4) == 's' && lc(cs, i + 5) == 'e',
        (lc(cs, i) == ' ' || lc(cs, i) == '=') && lc(cs, i + 1) == 't' && lc(cs, i + 2) == 'r' && lc(cs, i + 3) == 'u'
            && lc(cs, i + 4) == 'e' && (lc(cs, i + 5) == ' ' || lc(cs, i + 5) == ';' || lc(cs, i + 5) == ','
            || lc(cs, i + 5) == ')') ==> keyword_rule(cs, i) == Some((TokenKind::True, 4int)),
        (lc(cs, i) == ' ' || lc(cs, i) == '=') && lc(cs, i + 1) == 'f' && lc(cs, i + 2) == 'a' && lc(cs, i + 3) == 'l'
            && lc(cs, i + 4) == 's' && lc(cs, i + 5) == 'e' && (lc(cs, i + 6) == ' ' || lc(cs, i + 6) == ';' || lc(
            cs,
            i + 6,
        ) == ',' || lc(cs, i + 6) == ')') ==> keyword_rule(cs, i) == Some((TokenKind::False, 5int)),
{
}

/// Every keyword and symbol token covers the word it stands for: where the
/// scanner reads a token of some kind at `i`, the lower-cased characters it
/// covers spell that kind's word (`get`, `all`, `true`, `false`, `int` or
/// `i64`, `<=`, `<`, ...), after the space or other separator that some
/// words need before them. So no word is read as the token of another.
pub proof fn lemma_tokens_cover_their_words(cs: Seq<char>, i: int)
    ensures
        keyword_rule(cs, i) matches Some((TokenKind::Get, n)) ==> (n == 2 && lc(cs, i) == 'g' && lc(cs, i + 1) == 'e' && lc(cs, i + 2) == 't'),
        keyword_rule(cs, i) matches Some((TokenKind::SetKw, n)) ==> (n == 2 && lc(cs, i) == 's' && lc(cs, i + 1) == 'e' && lc(cs, i + 2) == 't'),
        keyword_rule(cs, i) matches Some((TokenKind::Add, n)) ==> (n == 2 && lc(cs, i) == 'a' && lc(cs, i + 1) == 'd' && lc(cs, i + 2) == 'd'),
        keyword_rule(cs, i) matches Some((TokenKind::Del, n)) ==> (n == 2 && lc(cs, i) == 'd' && lc(cs, i + 1) == 'e' && lc(cs, i + 2) == 'l'),
        keyword_rule(cs, i) matches Some((TokenKind::All, n)) ==> (n == 3 && lc(cs, i) == ' ' && lc(cs, i + 1) == 'a' && lc(cs, i + 2) == 'l' && lc(cs, i + 3) == 'l'),
        keyword_rule(cs, i) matches Some((TokenKind::And, n)) ==> (n == 3 && lc(cs, i) == ' ' && lc(cs, i + 1) == 'a' && lc(cs, i + 2) == 'n' && lc(cs, i + 3) == 'd'),
        keyword_rule(cs, i) matches Some((TokenKind::Asc, n)) ==> (n == 3 && lc(cs, i) == ' ' && lc(cs, i + 1) == 'a' && lc(cs, i + 2) == 's' && lc(cs, i + 3) == 'c'),
        keyword_rule(cs, i) matches Some((TokenKind::TypeI64, n)) ==> (n == 3 && lc(cs, i + 1) == 'i' && lc(cs, i + 2) == '6' && lc(cs, i + 3) == '4') || (n == 3 && lc(cs, i + 1) == 'i' && lc(cs, i + 2) == 'n' && lc(cs, i + 3) == 't'),
        keyword_rule(cs, i) matches Some((TokenKind::TypeF64, n)) ==> (n == 3 && lc(cs, i + 1) == 'f' && lc(cs, i + 2) == '6' && lc(cs, i + 3) == '4') || (n == 5 && lc(cs, i + 1) == 'f' && lc(cs, i + 2) == 'l' && lc(cs, i + 3) == 'o' && lc(cs, i + 4) == 'a' && lc(cs, i + 5) == 't'),
        keyword_rule(cs, i) matches Some((TokenKind::Use, n)) ==> (n == 3 && lc(cs, i) == 'u' && lc(cs, i + 1) == 's' && lc(cs, i + 2) == 'e' && lc(cs, i + 3) == ' '),
        keyword_rule(cs, i) matches Some((TokenKind::Not, n)) ==> (n == 3 && lc(cs, i) == ' ' && lc(cs, i + 1) == 'n' && lc(cs, i + 2) == 'o' && lc(cs, i + 3) == 't'),
        keyword_rule(cs, i) matches Some((TokenKind::Values, n)) ==> (n == 6 && lc(cs, i) == ' ' && lc(cs, i + 1) == 'v' && lc(cs, i + 2) == 'a' && lc(cs, i + 3) == 'l' && lc(cs, i + 4) == 'u' && lc(cs, i + 5) == 'e' && lc(cs, i + 6) == 's'),
        keyword_rule(cs, i) matches Some((TokenKind::Type, n)) ==> (n == 4 && lc(cs, i) == ' ' && lc(cs, i + 1) == 't' && lc(cs, i + 2) == 'y' && lc(cs, i + 3) == 'p' && lc(cs, i + 4) == 'e'),
        keyword_rule(cs, i) matches Some((TokenKind::Desc, n)) ==> (n == 3 && lc(cs, i) == 'd' && lc(cs, i + 1) == 'e' && lc(cs, i + 2) == 's' && lc(cs, i + 3) == 'c'),
        keyword_rule(cs, i) matches Some((TokenKind::Drop, n)) ==> (n == 3 && lc(cs, i) == 'd' && lc(cs, i + 1) == 'r' && lc(cs, i + 2) == 'o' && lc(cs, i + 3) == 'p'),
        keyword_rule(cs, i) matches Some((TokenKind::Show, n)) ==> (n == 3 && lc(cs, i) == 's' && lc(cs, i + 1) == 'h' && lc(cs, i + 2) == 'o' && lc(cs, i + 3) == 'w'),
        keyword_rule(cs, i) matches Some((TokenKind::Char, n)) ==> (n == 4 && lc(cs, i + 1) == 'c' && lc(cs, i + 2) == 'h' && lc(cs, i + 3) == 'a' && lc(cs, i + 4) == 'r'),
        keyword_rule(cs, i) matches Some((TokenKind::Bool, n)) ==> (n == 4 && lc(cs, i + 1) == 'b' && lc(cs, i + 2) == 'o' && lc(cs, i + 3) == 'o' && lc(cs, i + 4) == 'l'),
        keyword_rule(cs, i) matches Some((TokenKind::True, n)) ==> (n == 4 && lc(cs, i + 1) == 't' && lc(cs, i + 2) == 'r' && lc(cs, i + 3) == 'u' && lc(cs, i + 4) == 'e'),
        keyword_rule(cs, i) matches Some((TokenKind::False, n)) ==> (n == 5 && lc(cs, i + 1) == 'f' && lc(cs, i + 2) == 'a' && lc(cs, i + 3) == 'l' && lc(cs, i + 4) == 's' && lc(cs, i + 5) == 'e'),
        keyword_rule(cs, i) matches Some((TokenKind::Or, n)) ==> (n == 2 && lc(cs, i) == ' ' && lc(cs, i + 1) == 'o' && lc(cs, i + 2) == 'r'),
        keyword_rule(cs, i) matches Some((TokenKind::Of, n)) ==> (n == 2 && lc(cs, i) == ' ' && lc(cs, i + 1) == 'o' && lc(cs, i + 2) == 'f'),
        keyword_rule(cs, i) matches Some((TokenKind::By, n)) ==> (n == 2 && lc(cs, i) == ' ' && lc(cs, i + 1) == 'b' && lc(cs, i + 2) == 'y'),
        keyword_rule(cs, i) matches Some((TokenKind::Order, n)) ==> (n == 5 && lc(cs, i) == ' ' && lc(cs, i + 1) == 'o' && lc(cs, i + 2) == 'r' && lc(cs, i + 3) == 'd' && lc(cs, i + 4) == 'e' && lc(cs, i + 5) == 'r'),
        keyword_rule(cs, i) matches Some((TokenKind::Where, n)) ==> (n == 5 && lc(cs, i) == ' ' && lc(cs, i + 1) == 'w' && lc(cs, i + 2) == 'h' && lc(cs, i + 3) == 'e' && lc(cs, i + 4) == 'r' && lc(cs, i + 5) == 'e'),
        keyword_rule(cs, i) matches Some((TokenKind::Alter, n)) ==> (n == 4 && lc(cs, i) == 'a' && lc(cs, i + 1) == 'l' && lc(cs, i + 2) == 't' && lc(cs, i + 3) == 'e' && lc(cs, i + 4) == 'r'),
        keyword_rule(cs, i) matches Some((TokenKind::Limit, n)) ==> (n == 5 && lc(cs, i) == ' ' && lc(cs, i + 1) == 'l' && lc(cs, i + 2) == 'i' && lc(cs, i + 3) == 'm' && lc(cs, i + 4) == 'i' && lc(cs, i + 5) == 't'),
        keyword_rule(cs, i) matches Some((TokenKind::Tables, n)) ==> (n == 6 && lc(cs, i) == ' ' && lc(cs, i + 1) == 't' && lc(cs, i + 2) == 'a' && lc(cs, i + 3) == 'b' && lc(cs, i + 4) == 'l' && lc(cs, i + 5) == 'e' && lc(cs, i + 6) == 's'),
        keyword_rule(cs, i) matches Some((TokenKind::Exists, n)) ==> (n == 6 && lc(cs, i) == ' ' && lc(cs, i + 1) == 'e' && lc(cs, i + 2) == 'x' && lc(cs, i + 3) == 'i' && lc(cs, i + 4) == 's' && lc(cs, i + 5) == 't' && lc(cs, i + 6) == 's'),
        keyword_rule(cs, i) matches Some((TokenKind::Table, n)) ==> (n == 5 && lc(cs, i) == ' ' && lc(cs, i + 1) == 't' && lc(cs, i + 2) == 'a' && lc(cs, i + 3) == 'b' && lc(cs, i + 4) == 'l' && lc(cs, i + 5) == 'e'),
        keyword_rule(cs, i) matches Some((TokenKind::Column, n)) ==> (n == 6 && lc(cs, i) == ' ' && lc(cs, i + 1) == 'c' && lc(cs, i + 2) == 'o' && lc(cs, i + 3) == 'l' && lc(cs, i + 4) == 'u' && lc(cs, i + 5) == 'm' && lc(cs, i + 6) == 'n'),
        keyword_rule(cs, i) matches Some((TokenKind::Create, n)) ==> (n == 5 && lc(cs, i) == 'c' && lc(cs, i + 1) == 'r' && lc(cs, i + 2) == 'e' && lc(cs, i + 3) == 'a' && lc(cs, i + 4) == 't' && lc(cs, i + 5) == 'e'),
        keyword_rule(cs, i) matches Some((TokenKind::Rename, n)) ==> (n == 6 && lc(cs, i) == ' ' && lc(cs, i + 1) == 'r' && lc(cs, i + 2) == 'e' && lc(cs, i + 3) == 'n' && lc(cs, i + 4) == 'a' && lc(cs, i + 5) == 'm' && lc(cs, i + 6) == 'e'),
        keyword_rule(cs, i) matches Some((TokenKind::Databases, n)) ==> (n == 9 && lc(cs, i) == ' ' && lc(cs, i + 1) == 'd' && lc(cs, i + 2) == 'a' && lc(cs, i + 3) == 't' && lc(cs, i + 4) == 'a' && lc(cs, i + 5) == 'b' && lc(cs, i + 6) == 'a' && lc(cs, i + 7) == 's' && lc(cs, i + 8) == 'e' && lc(cs, i + 9) == 's'),
        keyword_rule(cs, i) matches Some((TokenKind::Default, n)) ==> (n == 7 && lc(cs, i) == ' ' && lc(cs, i + 1) == 'd' && lc(cs, i + 2) == 'e' && lc(cs, i + 3) == 'f' && lc(cs, i + 4) == 'a' && lc(cs, i + 5) == 'u' && lc(cs, i + 6) == 'l' && lc(cs, i + 7) == 't'),
        keyword_rule(cs, i) matches Some((TokenKind::Database, n)) ==> (n == 8 && lc(cs, i) == ' ' && lc(cs, i + 1) == 'd' && lc(cs, i + 2) == 'a' && lc(cs, i + 3) == 't' && lc(cs, i + 4) == 'a' && lc(cs, i + 5) == 'b' && lc(cs, i + 6) == 'a' && lc(cs, i + 7) == 's' && lc(cs, i + 8) == 'e'),
        keyword_rule(cs, i) matches Some((TokenKind::PrimaryKey, n)) ==> (n == 11 && lc(cs, i + 1) == 'p' && lc(cs, i + 2) == 'r' && lc(cs, i + 3) == 'i' && lc(cs, i + 4) == 'm' && lc(cs, i + 5) == 'a' && lc(cs, i + 6) == 'r' && lc(cs, i + 7) == 'y' && lc(cs, i + 8) == '_' && lc(cs, i + 9) == 'k' && lc(cs, i + 10) == 'e' && lc(cs, i + 11) == 'y'),
        keyword_rule(cs, i) matches Some((TokenKind::AutoIncrement, n)) ==> (n == 14 && lc(cs, i + 1) == 'a' && lc(cs, i + 2) == 'u' && lc(cs, i + 3) == 't' && lc(cs, i + 4) == 'o' && lc(cs, i + 5) == '_' && lc(cs, i + 6) == 'i' && lc(cs, i + 7) == 'n' && lc(cs, i + 8) == 'c' && lc(cs, i + 9) == 'r' && lc(cs, i + 10) == 'e' && lc(cs, i + 11) == 'm' && lc(cs, i + 12) == 'e' && lc(cs, i + 13) == 'n' && lc(cs, i + 14) == 't'),
        keyword_rule(cs, i) matches Some((TokenKind::To, n)) ==> (n == 2 && lc(cs, i) == ' ' && lc(cs, i + 1) == 't' && lc(cs, i + 2) == 'o'),
        keyword_rule(cs, i) matches Some((TokenKind::If, n)) ==> (n == 2 && lc(cs, i) == ' ' && lc(cs, i + 1) == 'i' && lc(cs, i + 2) == 'f'),
        keyword_rule(cs, i) matches Some((TokenKind::Eq, n)) ==> (n == 1 && lc(cs, i) == '=' && lc(cs, i + 1) == '='),
        keyword_rule(cs, i) matches Some((TokenKind::NotEq, n)) ==> (n == 1 && lc(cs, i) == '!' && lc(cs, i + 1) == '='),
        keyword_rule(cs, i) matches Some((TokenKind::LtEq, n)) ==> (n == 1 && lc(cs, i) == '<' && lc(cs, i + 1) == '='),
        keyword_rule(cs, i) matches Some((TokenKind::GtEq, n)) ==> (n == 1 && lc(cs, i) == '>' && lc(cs, i + 1) == '='),
        keyword_rule(cs, i) matches Some((TokenKind::Lt, n)) ==> (n == 0 && lc(cs, i) == '<'),
        keyword_rule(cs, i) matches Some((TokenKind::Gt, n)) ==> (n == 0 && lc(cs, i) == '>'),
        keyword_rule(cs, i) matches Some((TokenKind::Assign, n)) ==> (n == 0 && lc(cs, i) == '='),
        keyword_rule(cs, i) matches Some((TokenKind::Semicolon, n)) ==> (n == 0 && lc(cs, i) == ';'),
        keyword_rule(cs, i) matches Some((TokenKind::Colon, n)) ==> (n == 0 && lc(cs, i) == ':'),
        keyword_rule(cs, i) matches Some((TokenKind::Comma, n)) ==> (n == 0 && lc(cs, i) == ','),
        keyword_rule(cs, i) matches Some((TokenKind::LParen, n)) ==> (n == 0 && lc(cs, i) == '('),
        keyword_rule(cs, i) matches Some((TokenKind::RParen, n)) ==> (n == 0 && lc(cs, i) == ')'),
        keyword_rule(cs, i) matches Some((TokenKind::LBracket, n)) ==> (n == 0 && lc(cs, i) == '['),
        keyword_rule(cs, i) matches Some((TokenKind::RBracket, n)) ==> (n == 0 && lc(cs, i) == ']'),
        keyword_rule(cs, i) matches Some((TokenKind::AddOp, n)) ==> (n == 0 && lc(cs, i) == '+'),
        keyword_rule(cs, i) matches Some((TokenKind::SubOp, n)) ==> (n == 0 && lc(cs, i) == '-'),
        keyword_rule(cs, i) matches Some((TokenKind::MulOp, n)) ==> (n == 0 && lc(cs, i) == '*'),
        keyword_rule(cs, i) matches Some((TokenKind::DivOp, n)) ==> (n == 0 && lc(cs, i) == '/'),
        keyword_rule(cs, i) matches Some((TokenKind::ModOp, n)) ==> (n == 0 && lc(cs, i) == '%'),
{
}

} // verus!
