//! What the parser reads from a sequence of tokens. Each construct is read
//! from a position; the outcome is an error, or what was read (nothing when
//! the construct is absent there) together with the position the parser is
//! left at.
use vstd::prelude::*;
use crate::error::ErrorKind;
use crate::eval::{EvaluatedV, compare_plain, int_value};
use crate::grammar::{
    AddStmt, AddSubExpr, AddSubItem, AlterAddColumn, AlterDropColumn, AlterStmt, AlterTable, AndExpr,
    AssExpr, ColumnDefinition, ColumnType, CompareExpr, CompareItem, CreateDatabase, CreateStmt,
    CreateTable, DelStmt, DescStmt, DropStmt, Expr, ExprList, FuncExpr, GetStmt, Limit, MulDivExpr,
    MulDivItem, Operand, OrExpr, SetStmt, Stmt, UseStmt, Value, WhereClause,
};
use crate::parser::{AddSubOpNode, CompareOpNode, MulDivOpNode, ShowStmtNode};
use crate::tokenizer::{TokenKind, TokenV, keyword_rule, kw_token, normalize, scan_from, scan_step, spec_tokenize, tokenizable};

verus! {

/// The outcome of reading a construct at a position.
pub enum Step<T> {
    /// Reading stopped with an error of this kind.
    Fail(ErrorKind),
    /// What was read, if anything, and the position after it.
    Done(Option<T>, int),
}

/// Tokens that carry what the parser takes from them: a name, a string or a
/// decimal fraction carries its text, a whole number its value.
pub open spec fn token_ok(tk: TokenV) -> bool {
    &&& (tk.kind == TokenKind::Ident || tk.kind == TokenKind::String || tk.kind == TokenKind::Float)
        ==> tk.text is Some
    &&& tk.kind == TokenKind::Int ==> tk.int is Some
}

pub open spec fn tokens_ok(t: Seq<TokenV>) -> bool {
    forall|k: int| 0 <= k < t.len() ==> token_ok(#[trigger] t[k])
}

/// How many tokens remain from position `i`.
pub open spec fn remaining(t: Seq<TokenV>, i: int) -> nat {
    if i < t.len() {
        (t.len() - i) as nat
    } else {
        0
    }
}

/// Whether the token at `i` exists and is of kind `k`.
pub open spec fn is_at(t: Seq<TokenV>, i: int, k: TokenKind) -> bool {
    i < t.len() && t[i].kind == k
}

pub open spec fn plain(o: OrExpr) -> FuncExpr {
    FuncExpr { ident: None, or_exprs: Seq::empty(), or_expr: Some(o) }
}

pub open spec fn compare_op_of(k: TokenKind) -> Option<CompareOpNode> {
    match k {
        TokenKind::Eq => Some(CompareOpNode::Eq),
        TokenKind::NotEq => Some(CompareOpNode::NotEq),
        TokenKind::Lt => Some(CompareOpNode::Lt),
        TokenKind::LtEq => Some(CompareOpNode::LtEq),
        TokenKind::Gt => Some(CompareOpNode::Gt),
        TokenKind::GtEq => Some(CompareOpNode::GtEq),
        _ => None,
    }
}

pub open spec fn add_sub_op_of(k: TokenKind) -> Option<AddSubOpNode> {
    match k {
        TokenKind::AddOp => Some(AddSubOpNode::Add),
        TokenKind::SubOp => Some(AddSubOpNode::Sub),
        _ => None,
    }
}

pub open spec fn mul_div_op_of(k: TokenKind) -> Option<MulDivOpNode> {
    match k {
        TokenKind::MulOp => Some(MulDivOpNode::Mul),
        TokenKind::DivOp => Some(MulDivOpNode::Div),
        TokenKind::ModOp => Some(MulDivOpNode::Mod),
        _ => None,
    }
}

// ---- single tokens ----

pub open spec fn ident(t: Seq<TokenV>, i: int) -> Step<Seq<char>> {
    if is_at(t, i, TokenKind::Ident) {
        Step::Done(Some(t[i].text->0), i + 1)
    } else {
        Step::Done(None, i)
    }
}

pub open spec fn string(t: Seq<TokenV>, i: int) -> Step<Seq<char>> {
    if is_at(t, i, TokenKind::String) {
        Step::Done(Some(t[i].text->0), i + 1)
    } else {
        Step::Done(None, i)
    }
}

pub open spec fn f64_value(t: Seq<TokenV>, i: int) -> Step<Seq<char>> {
    if is_at(t, i, TokenKind::Float) {
        Step::Done(Some(t[i].text->0), i + 1)
    } else {
        Step::Done(None, i)
    }
}

pub open spec fn i64_value(t: Seq<TokenV>, i: int) -> Step<i64> {
    if is_at(t, i, TokenKind::Int) {
        Step::Done(Some(t[i].int->0), i + 1)
    } else {
        Step::Done(None, i)
    }
}

pub open spec fn bool_value(t: Seq<TokenV>, i: int) -> Step<bool> {
    if is_at(t, i, TokenKind::True) {
        Step::Done(Some(true), i + 1)
    } else if is_at(t, i, TokenKind::False) {
        Step::Done(Some(false), i + 1)
    } else {
        Step::Done(None, i)
    }
}

pub open spec fn compare_op(t: Seq<TokenV>, i: int) -> Step<CompareOpNode> {
    if i < t.len() && compare_op_of(t[i].kind) is Some {
        Step::Done(compare_op_of(t[i].kind), i + 1)
    } else {
        Step::Done(None, i)
    }
}

/// Unlike the comparison operators, these are read without first testing
/// for the end: there, reading fails.
pub open spec fn add_sub_op(t: Seq<TokenV>, i: int) -> Step<AddSubOpNode> {
    if i >= t.len() {
        Step::Fail(ErrorKind::Runtime)
    } else if add_sub_op_of(t[i].kind) is Some {
        Step::Done(add_sub_op_of(t[i].kind), i + 1)
    } else {
        Step::Done(None, i)
    }
}

pub open spec fn mul_div_op(t: Seq<TokenV>, i: int) -> Step<MulDivOpNode> {
    if i >= t.len() {
        Step::Fail(ErrorKind::Runtime)
    } else if mul_div_op_of(t[i].kind) is Some {
        Step::Done(mul_div_op_of(t[i].kind), i + 1)
    } else {
        Step::Done(None, i)
    }
}

// ---- expressions ----
// The second part of each measure orders the readers that start at the same
// position. A reader that continues after a construct it has read does so
// only past that construct; the guard `j <= i` states this, and never holds
// (each exec reader ensures that a construct read consumed a token).

pub open spec fn operand_of(
    i64_value: Option<i64>,
    f64_value: Option<Seq<char>>,
    bool_value: Option<bool>,
    string: Option<Seq<char>>,
    ident: Option<Seq<char>>,
    expr: Option<Expr>,
    star: bool,
) -> Operand {
    Operand { i64_value, f64_value, bool_value, string, ident, expr, star }
}

#[verifier::opaque]
pub open spec fn operand(t: Seq<TokenV>, i: int) -> Step<Operand>
    decreases remaining(t, i), 7int,
{
    if i >= t.len() {
        Step::Done(None, i)
    } else if t[i].kind == TokenKind::LParen {
        match expr(t, i + 1) {
            Step::Fail(k) => Step::Fail(k),
            Step::Done(None, _) => Step::Fail(ErrorKind::Parse),
            Step::Done(Some(e), j) => if j >= t.len() {
                Step::Fail(ErrorKind::Runtime)
            } else if t[j].kind != TokenKind::RParen {
                Step::Fail(ErrorKind::Parse)
            } else {
                Step::Done(Some(operand_of(None, None, None, None, None, Some(e), false)), j + 1)
            },
        }
    } else if t[i].kind == TokenKind::Int {
        Step::Done(Some(operand_of(Some(t[i].int->0), None, None, None, None, None, false)), i + 1)
    } else if t[i].kind == TokenKind::Float {
        Step::Done(Some(operand_of(None, Some(t[i].text->0), None, None, None, None, false)), i + 1)
    } else if t[i].kind == TokenKind::True || t[i].kind == TokenKind::False {
        Step::Done(
            Some(operand_of(None, None, Some(t[i].kind == TokenKind::True), None, None, None, false)),
            i + 1,
        )
    } else if t[i].kind == TokenKind::String {
        Step::Done(Some(operand_of(None, None, None, Some(t[i].text->0), None, None, false)), i + 1)
    } else if t[i].kind == TokenKind::Ident {
        Step::Done(Some(operand_of(None, None, None, None, Some(t[i].text->0), None, false)), i + 1)
    } else if t[i].kind == TokenKind::MulOp {
        Step::Done(Some(operand_of(None, None, None, None, None, None, true)), i + 1)
    } else {
        Step::Done(None, i)
    }
}

/// The rest of a product after the items `acc`: `op operand` while an
/// operator follows.
#[verifier::opaque]
pub open spec fn mul_div_rest(t: Seq<TokenV>, i: int, acc: Seq<MulDivItem>) -> Step<MulDivExpr>
    decreases remaining(t, i), 8int,
{
    if i >= t.len() || mul_div_op_of(t[i].kind) is None {
        Step::Done(Some(MulDivExpr { nodes: acc }), i)
    } else {
        match operand(t, i + 1) {
            Step::Fail(k) => Step::Fail(k),
            Step::Done(None, _) => Step::Fail(ErrorKind::Parse),
            Step::Done(Some(r), j) => if j <= i {
                Step::Fail(ErrorKind::Parse)
            } else {
                mul_div_rest(
                    t,
                    j,
                    acc.push(MulDivItem::Op(mul_div_op_of(t[i].kind)->0)).push(MulDivItem::Right(r)),
                )
            },
        }
    }
}

#[verifier::opaque]
pub open spec fn mul_div_expr(t: Seq<TokenV>, i: int) -> Step<MulDivExpr>
    decreases remaining(t, i), 9int,
{
    match operand(t, i) {
        Step::Fail(k) => Step::Fail(k),
        Step::Done(None, j) => Step::Done(None, j),
        Step::Done(Some(l), j) => if j <= i {
            Step::Fail(ErrorKind::Parse)
        } else {
            mul_div_rest(t, j, seq![MulDivItem::Left(l)])
        },
    }
}

#[verifier::opaque]
pub open spec fn add_sub_rest(t: Seq<TokenV>, i: int, acc: Seq<AddSubItem>) -> Step<AddSubExpr>
    decreases remaining(t, i), 10int,
{
    if i >= t.len() || add_sub_op_of(t[i].kind) is None {
        Step::Done(Some(AddSubExpr { nodes: acc }), i)
    } else {
        match mul_div_expr(t, i + 1) {
            Step::Fail(k) => Step::Fail(k),
            Step::Done(None, _) => Step::Fail(ErrorKind::Parse),
            Step::Done(Some(r), j) => if j <= i {
                Step::Fail(ErrorKind::Parse)
            } else {
                add_sub_rest(
                    t,
                    j,
                    acc.push(AddSubItem::Op(add_sub_op_of(t[i].kind)->0)).push(AddSubItem::Right(r)),
                )
            },
        }
    }
}

#[verifier::opaque]
pub open spec fn add_sub_expr(t: Seq<TokenV>, i: int) -> Step<AddSubExpr>
    decreases remaining(t, i), 11int,
{
    match mul_div_expr(t, i) {
        Step::Fail(k) => Step::Fail(k),
        Step::Done(None, j) => Step::Done(None, j),
        Step::Done(Some(l), j) => if j <= i {
            Step::Fail(ErrorKind::Parse)
        } else {
            add_sub_rest(t, j, seq![AddSubItem::Left(l)])
        },
    }
}

#[verifier::opaque]
pub open spec fn compare_rest(t: Seq<TokenV>, i: int, acc: Seq<CompareItem>) -> Step<CompareExpr>
    decreases remaining(t, i), 12int,
{
    if i >= t.len() || compare_op_of(t[i].kind) is None {
        Step::Done(Some(CompareExpr { nodes: acc }), i)
    } else {
        match add_sub_expr(t, i + 1) {
            Step::Fail(k) => Step::Fail(k),
            Step::Done(None, _) => Step::Fail(ErrorKind::Parse),
            Step::Done(Some(r), j) => if j <= i {
                Step::Fail(ErrorKind::Parse)
            } else {
                compare_rest(
                    t,
                    j,
                    acc.push(CompareItem::Op(compare_op_of(t[i].kind)->0)).push(CompareItem::Right(r)),
                )
            },
        }
    }
}

#[verifier::opaque]
pub open spec fn compare_expr(t: Seq<TokenV>, i: int) -> Step<CompareExpr>
    decreases remaining(t, i), 13int,
{
    if i >= t.len() {
        Step::Done(None, i)
    } else {
        match add_sub_expr(t, i) {
            Step::Fail(k) => Step::Fail(k),
            Step::Done(None, j) => Step::Done(None, j),
            Step::Done(Some(l), j) => if j <= i {
                Step::Fail(ErrorKind::Parse)
            } else {
                compare_rest(t, j, seq![CompareItem::Left(l)])
            },
        }
    }
}

#[verifier::opaque]
pub open spec fn and_rest(t: Seq<TokenV>, i: int, acc: Seq<CompareExpr>) -> Step<AndExpr>
    decreases remaining(t, i), 14int,
{
    if !is_at(t, i, TokenKind::And) {
        Step::Done(Some(AndExpr { nodes: acc }), i)
    } else {
        match compare_expr(t, i + 1) {
            Step::Fail(k) => Step::Fail(k),
            Step::Done(None, _) => Step::Fail(ErrorKind::Parse),
            Step::Done(Some(c), j) => if j <= i {
                Step::Fail(ErrorKind::Parse)
            } else {
                and_rest(t, j, acc.push(c))
            },
        }
    }
}

#[verifier::opaque]
pub open spec fn and_expr(t: Seq<TokenV>, i: int) -> Step<AndExpr>
    decreases remaining(t, i), 15int,
{
    if i >= t.len() {
        Step::Done(None, i)
    } else {
        match compare_expr(t, i) {
            Step::Fail(k) => Step::Fail(k),
            Step::Done(None, j) => Step::Done(None, j),
            Step::Done(Some(c), j) => if j <= i {
                Step::Fail(ErrorKind::Parse)
            } else {
                and_rest(t, j, seq![c])
            },
        }
    }
}

#[verifier::opaque]
pub open spec fn or_rest(t: Seq<TokenV>, i: int, acc: Seq<AndExpr>) -> Step<OrExpr>
    decreases remaining(t, i), 16int,
{
    if !is_at(t, i, TokenKind::Or) {
        Step::Done(Some(OrExpr { nodes: acc }), i)
    } else {
        match and_expr(t, i + 1) {
            Step::Fail(k) => Step::Fail(k),
            Step::Done(None, _) => Step::Fail(ErrorKind::Parse),
            Step::Done(Some(a), j) => if j <= i {
                Step::Fail(ErrorKind::Parse)
            } else {
                or_rest(t, j, acc.push(a))
            },
        }
    }
}

#[verifier::opaque]
pub open spec fn or_expr(t: Seq<TokenV>, i: int) -> Step<OrExpr>
    decreases remaining(t, i), 17int,
{
    if i >= t.len() {
        Step::Done(None, i)
    } else {
        match and_expr(t, i) {
            Step::Fail(k) => Step::Fail(k),
            Step::Done(None, j) => Step::Done(None, j),
            Step::Done(Some(a), j) => if j <= i {
                Step::Fail(ErrorKind::Parse)
            } else {
                or_rest(t, j, seq![a])
            },
        }
    }
}

/// `left = right`, or just `left`; each side is an or-expression.
#[verifier::opaque]
pub open spec fn ass_expr(t: Seq<TokenV>, i: int) -> Step<AssExpr>
    decreases remaining(t, i), 19int,
{
    if i >= t.len() {
        Step::Done(None, i)
    } else {
        match or_expr(t, i) {
            Step::Fail(k) => Step::Fail(k),
            Step::Done(None, j) => Step::Done(None, j),
            Step::Done(Some(l), j) => if !is_at(t, j, TokenKind::Assign) {
                Step::Done(Some(AssExpr { left_func_expr: Some(plain(l)), right_func_expr: None }), j)
            } else if j <= i {
                Step::Fail(ErrorKind::Parse)
            } else {
                match or_expr(t, j + 1) {
                    Step::Fail(k) => Step::Fail(k),
                    Step::Done(None, _) => Step::Fail(ErrorKind::Parse),
                    Step::Done(Some(r), k) => Step::Done(
                        Some(AssExpr { left_func_expr: Some(plain(l)), right_func_expr: Some(plain(r)) }),
                        k,
                    ),
                }
            },
        }
    }
}

#[verifier::opaque]
pub open spec fn expr(t: Seq<TokenV>, i: int) -> Step<Expr>
    decreases remaining(t, i), 20int,
{
    if i >= t.len() {
        Step::Done(None, i)
    } else {
        match ass_expr(t, i) {
            Step::Fail(k) => Step::Fail(k),
            Step::Done(None, j) => Step::Done(None, j),
            Step::Done(Some(a), j) => Step::Done(Some(Expr { ass_expr: Some(a) }), j),
        }
    }
}

// ---- lists, clauses and values ----

/// Expressions separated by commas. Where no expression starts the list, the
/// parser steps back one token.
pub open spec fn expr_list(t: Seq<TokenV>, i: int) -> Step<ExprList> {
    if i >= t.len() {
        Step::Done(None, i)
    } else {
        match expr(t, i) {
            Step::Fail(k) => Step::Fail(k),
            Step::Done(None, j) => Step::Done(None, if j > 0 { j - 1 } else { 0 }),
            Step::Done(Some(e), j) => if j <= i {
                Step::Fail(ErrorKind::Parse)
            } else {
                expr_list_rest(t, j, seq![e])
            },
        }
    }
}

pub open spec fn expr_list_rest(t: Seq<TokenV>, i: int, acc: Seq<Expr>) -> Step<ExprList>
    decreases remaining(t, i),
{
    if !is_at(t, i, TokenKind::Comma) {
        Step::Done(Some(ExprList { exprs: acc }), i)
    } else {
        match expr(t, i + 1) {
            Step::Fail(k) => Step::Fail(k),
            Step::Done(None, j) => Step::Done(Some(ExprList { exprs: acc }), j),
            Step::Done(Some(e), j) => if j <= i {
                Step::Fail(ErrorKind::Parse)
            } else {
                expr_list_rest(t, j, acc.push(e))
            },
        }
    }
}

/// `WHERE expr`; the expression may be missing.
pub open spec fn where_clause(t: Seq<TokenV>, i: int) -> Step<WhereClause> {
    if !is_at(t, i, TokenKind::Where) {
        Step::Done(None, i)
    } else {
        match expr(t, i + 1) {
            Step::Fail(k) => Step::Fail(k),
            Step::Done(e, j) => Step::Done(Some(WhereClause { expr: e }), j),
        }
    }
}

/// `LIMIT expr`.
pub open spec fn limit(t: Seq<TokenV>, i: int) -> Step<Limit> {
    if !is_at(t, i, TokenKind::Limit) {
        Step::Done(None, i)
    } else {
        match expr(t, i + 1) {
            Step::Fail(k) => Step::Fail(k),
            Step::Done(None, _) => Step::Fail(ErrorKind::Parse),
            Step::Done(Some(e), j) => Step::Done(Some(Limit { expr: Some(e) }), j),
        }
    }
}

/// A literal: a whole number, a decimal fraction, a truth value or a string.
pub open spec fn value(t: Seq<TokenV>, i: int) -> Step<Value> {
    if is_at(t, i, TokenKind::Int) {
        Step::Done(Some(Value { i64_value: Some(t[i].int->0), f64_value: None, bool_value: None, string: None }), i + 1)
    } else if is_at(t, i, TokenKind::Float) {
        Step::Done(Some(Value { i64_value: None, f64_value: Some(t[i].text->0), bool_value: None, string: None }), i + 1)
    } else if is_at(t, i, TokenKind::True) || is_at(t, i, TokenKind::False) {
        Step::Done(
            Some(Value { i64_value: None, f64_value: None, bool_value: Some(t[i].kind == TokenKind::True), string: None }),
            i + 1,
        )
    } else if is_at(t, i, TokenKind::String) {
        Step::Done(Some(Value { i64_value: None, f64_value: None, bool_value: None, string: Some(t[i].text->0) }), i + 1)
    } else {
        Step::Done(None, i)
    }
}

/// One column attribute: a type, `PRIMARY_KEY`, `AUTO_INCREMENT`,
/// `CHAR[n]` or `DEFAULT value`.
pub open spec fn column_type(t: Seq<TokenV>, i: int) -> Step<ColumnType> {
    if i >= t.len() {
        Step::Done(None, i)
    } else if t[i].kind == TokenKind::PrimaryKey {
        Step::Done(Some(ColumnType::PrimaryKey), i + 1)
    } else if t[i].kind == TokenKind::AutoIncrement {
        Step::Done(Some(ColumnType::AutoIncrement), i + 1)
    } else if t[i].kind == TokenKind::TypeI64 {
        Step::Done(Some(ColumnType::I64), i + 1)
    } else if t[i].kind == TokenKind::TypeF64 {
        Step::Done(Some(ColumnType::F64), i + 1)
    } else if t[i].kind == TokenKind::Bool {
        Step::Done(Some(ColumnType::Bool), i + 1)
    } else if t[i].kind == TokenKind::Char {
        if i + 1 >= t.len() {
            Step::Fail(ErrorKind::Runtime)
        } else if t[i + 1].kind != TokenKind::LBracket {
            Step::Fail(ErrorKind::Parse)
        } else if !is_at(t, i + 2, TokenKind::Int) {
            Step::Fail(ErrorKind::Parse)
        } else if i + 3 >= t.len() {
            Step::Fail(ErrorKind::Runtime)
        } else if t[i + 3].kind != TokenKind::RBracket {
            Step::Fail(ErrorKind::Parse)
        } else {
            Step::Done(Some(ColumnType::Char(t[i + 2].int->0 as usize)), i + 4)
        }
    } else if t[i].kind == TokenKind::Default {
        match value(t, i + 1) {
            Step::Done(Some(v), j) => Step::Done(Some(ColumnType::Default(v)), j),
            _ => Step::Fail(ErrorKind::Parse),
        }
    } else {
        Step::Done(None, i)
    }
}

/// Column attributes for as long as they follow.
pub open spec fn column_types_rest(t: Seq<TokenV>, i: int, acc: Seq<ColumnType>) -> Step<Seq<ColumnType>>
    decreases remaining(t, i),
{
    if i >= t.len() {
        Step::Done(Some(acc), i)
    } else {
        match column_type(t, i) {
            Step::Fail(k) => Step::Fail(k),
            Step::Done(None, j) => Step::Done(Some(acc), j),
            Step::Done(Some(c), j) => if j <= i {
                Step::Fail(ErrorKind::Parse)
            } else {
                column_types_rest(t, j, acc.push(c))
            },
        }
    }
}

/// The first attribute of a column is its type.
pub open spec fn first_column_type_ok(c: ColumnType) -> bool {
    match c {
        ColumnType::I64 | ColumnType::F64 | ColumnType::Bool | ColumnType::Char(_) => true,
        _ => false,
    }
}

/// `name: type attributes...`
pub open spec fn column_definition(t: Seq<TokenV>, i: int) -> Step<ColumnDefinition> {
    if !is_at(t, i, TokenKind::Ident) {
        Step::Done(None, i)
    } else if i + 1 >= t.len() {
        Step::Fail(ErrorKind::Runtime)
    } else if t[i + 1].kind != TokenKind::Colon {
        Step::Done(None, i)
    } else {
        match column_type(t, i + 2) {
            Step::Fail(k) => Step::Fail(k),
            Step::Done(None, _) => Step::Fail(ErrorKind::Parse),
            Step::Done(Some(c), j) => if !first_column_type_ok(c) || j <= i {
                Step::Fail(ErrorKind::Parse)
            } else {
                match column_types_rest(t, j, seq![c]) {
                    Step::Fail(k) => Step::Fail(k),
                    Step::Done(cs, k) => Step::Done(
                        Some(ColumnDefinition { ident: Some(t[i].text->0), column_types: cs->0 }),
                        k,
                    ),
                }
            },
        }
    }
}

/// Further column definitions, each after a comma; a trailing comma is
/// allowed.
pub open spec fn column_definitions_rest(t: Seq<TokenV>, i: int, acc: Seq<ColumnDefinition>) -> Step<
    Seq<ColumnDefinition>,
>
    decreases remaining(t, i),
{
    if !is_at(t, i, TokenKind::Comma) {
        Step::Done(Some(acc), i)
    } else if i + 1 >= t.len() {
        Step::Done(Some(acc), i + 1)
    } else {
        match column_definition(t, i + 1) {
            Step::Fail(k) => Step::Fail(k),
            Step::Done(None, j) => Step::Done(Some(acc), j),
            Step::Done(Some(d), j) => if j <= i {
                Step::Fail(ErrorKind::Parse)
            } else {
                column_definitions_rest(t, j, acc.push(d))
            },
        }
    }
}

// ---- statements ----

/// `CREATE TABLE name ( definitions )`.
pub open spec fn create_table(t: Seq<TokenV>, i: int) -> Step<CreateTable> {
    if !is_at(t, i, TokenKind::Create) {
        Step::Done(None, i)
    } else if i + 1 >= t.len() {
        Step::Fail(ErrorKind::Runtime)
    } else if t[i + 1].kind != TokenKind::Table {
        Step::Done(None, i)
    } else if !is_at(t, i + 2, TokenKind::Ident) {
        Step::Fail(ErrorKind::Parse)
    } else if i + 3 >= t.len() {
        Step::Fail(ErrorKind::Runtime)
    } else if t[i + 3].kind != TokenKind::LParen {
        Step::Fail(ErrorKind::Parse)
    } else {
        match column_definition(t, i + 4) {
            Step::Fail(k) => Step::Fail(k),
            Step::Done(None, _) => Step::Fail(ErrorKind::Parse),
            Step::Done(Some(d), j) => if j <= i {
                Step::Fail(ErrorKind::Parse)
            } else {
                match column_definitions_rest(t, j, seq![d]) {
                    Step::Fail(k) => Step::Fail(k),
                    Step::Done(ds, k) => if k >= t.len() {
                        Step::Fail(ErrorKind::Runtime)
                    } else if t[k].kind != TokenKind::RParen {
                        Step::Fail(ErrorKind::Parse)
                    } else {
                        Step::Done(
                            Some(CreateTable { ident: Some(t[i + 2].text->0), column_definitions: ds->0 }),
                            k + 1,
                        )
                    },
                }
            },
        }
    }
}

/// `CREATE DATABASE name`.
pub open spec fn create_database(t: Seq<TokenV>, i: int) -> Step<CreateDatabase> {
    if !is_at(t, i, TokenKind::Create) {
        Step::Done(None, i)
    } else if i + 1 >= t.len() {
        Step::Fail(ErrorKind::Runtime)
    } else if t[i + 1].kind != TokenKind::Database {
        Step::Done(None, i)
    } else if !is_at(t, i + 2, TokenKind::Ident) {
        Step::Fail(ErrorKind::Parse)
    } else {
        Step::Done(Some(CreateDatabase { ident: Some(t[i + 2].text->0) }), i + 3)
    }
}

pub open spec fn create_stmt(t: Seq<TokenV>, i: int) -> Step<CreateStmt> {
    match create_database(t, i) {
        Step::Fail(k) => Step::Fail(k),
        Step::Done(Some(d), j) => Step::Done(Some(CreateStmt { create_database: Some(d), create_table: None }), j),
        Step::Done(None, j) => match create_table(t, j) {
            Step::Fail(k) => Step::Fail(k),
            Step::Done(Some(c), k) => Step::Done(Some(CreateStmt { create_database: None, create_table: Some(c) }), k),
            Step::Done(None, k) => Step::Done(None, k),
        },
    }
}

/// `USE name`. Like the other statements that start with a keyword of
/// their own, it is read without first testing for the end.
pub open spec fn use_stmt(t: Seq<TokenV>, i: int) -> Step<UseStmt> {
    if i >= t.len() {
        Step::Fail(ErrorKind::Runtime)
    } else if t[i].kind != TokenKind::Use {
        Step::Done(None, i)
    } else if !is_at(t, i + 1, TokenKind::Ident) {
        Step::Fail(ErrorKind::Parse)
    } else {
        Step::Done(Some(UseStmt { db_name: Some(t[i + 1].text->0) }), i + 2)
    }
}

/// `SHOW TABLES` or `SHOW DATABASES`.
pub open spec fn show_stmt(t: Seq<TokenV>, i: int) -> Step<ShowStmtNode> {
    if i >= t.len() {
        Step::Fail(ErrorKind::Runtime)
    } else if t[i].kind != TokenKind::Show {
        Step::Done(None, i)
    } else if i + 1 >= t.len() {
        Step::Fail(ErrorKind::Runtime)
    } else if t[i + 1].kind == TokenKind::Tables {
        Step::Done(Some(ShowStmtNode { tables: true, databases: false }), i + 2)
    } else if t[i + 1].kind == TokenKind::Databases {
        Step::Done(Some(ShowStmtNode { tables: false, databases: true }), i + 2)
    } else {
        Step::Fail(ErrorKind::Parse)
    }
}

/// An optional `IF EXISTS`: whether it was there, and the position after it.
pub open spec fn if_exists(t: Seq<TokenV>, i: int) -> Result<(bool, int), ErrorKind> {
    if i >= t.len() {
        Err(ErrorKind::Runtime)
    } else if t[i].kind != TokenKind::If {
        Ok((false, i))
    } else if i + 1 >= t.len() {
        Err(ErrorKind::Runtime)
    } else if t[i + 1].kind != TokenKind::Exists {
        Err(ErrorKind::Parse)
    } else {
        Ok((true, i + 2))
    }
}

/// `DROP TABLE [IF EXISTS] name` or `DROP DATABASE [IF EXISTS] name`; the
/// name may be missing.
pub open spec fn drop_stmt(t: Seq<TokenV>, i: int) -> Step<DropStmt> {
    if i >= t.len() {
        Step::Fail(ErrorKind::Runtime)
    } else if t[i].kind != TokenKind::Drop {
        Step::Done(None, i)
    } else if i + 1 >= t.len() {
        Step::Fail(ErrorKind::Runtime)
    } else if t[i + 1].kind != TokenKind::Table && t[i + 1].kind != TokenKind::Database {
        Step::Fail(ErrorKind::Parse)
    } else {
        match if_exists(t, i + 2) {
            Err(k) => Step::Fail(k),
            Ok((b, j)) => match ident(t, j) {
                Step::Done(name, k) => if t[i + 1].kind == TokenKind::Table {
                    Step::Done(Some(DropStmt { table_name: name, db_name: None, if_exists: b }), k)
                } else {
                    Step::Done(Some(DropStmt { table_name: None, db_name: name, if_exists: b }), k)
                },
                Step::Fail(k) => Step::Fail(k),
            },
        }
    }
}

/// `DROP COLUMN name`. Where `COLUMN` does not follow, the parser is left
/// after `DROP`.
pub open spec fn alter_drop_column(t: Seq<TokenV>, i: int) -> Step<AlterDropColumn> {
    if i >= t.len() {
        Step::Fail(ErrorKind::Runtime)
    } else if t[i].kind != TokenKind::Drop {
        Step::Done(None, i)
    } else if i + 1 >= t.len() {
        Step::Fail(ErrorKind::Runtime)
    } else if t[i + 1].kind != TokenKind::Column {
        Step::Done(None, i + 1)
    } else if !is_at(t, i + 2, TokenKind::Ident) {
        Step::Fail(ErrorKind::Parse)
    } else {
        Step::Done(Some(AlterDropColumn { ident: Some(t[i + 2].text->0) }), i + 3)
    }
}

/// `ADD COLUMN name attributes...`, with at least one attribute. Where
/// `COLUMN` does not follow, the parser is left after `ADD`.
pub open spec fn alter_add_column(t: Seq<TokenV>, i: int) -> Step<AlterAddColumn> {
    if i >= t.len() {
        Step::Fail(ErrorKind::Runtime)
    } else if t[i].kind != TokenKind::Add {
        Step::Done(None, i)
    } else if i + 1 >= t.len() {
        Step::Fail(ErrorKind::Runtime)
    } else if t[i + 1].kind != TokenKind::Column {
        Step::Done(None, i + 1)
    } else if !is_at(t, i + 2, TokenKind::Ident) {
        Step::Fail(ErrorKind::Parse)
    } else {
        match column_types_rest(t, i + 3, Seq::empty()) {
            Step::Fail(k) => Step::Fail(k),
            Step::Done(cs, j) => if cs->0.len() == 0 {
                Step::Fail(ErrorKind::Parse)
            } else {
                Step::Done(Some(AlterAddColumn { ident: Some(t[i + 2].text->0), column_types: cs->0 }), j)
            },
        }
    }
}

pub open spec fn alter_table_of(
    name: Seq<char>,
    add: Option<AlterAddColumn>,
    drop: Option<AlterDropColumn>,
) -> AlterTable {
    AlterTable {
        table_name: Some(name),
        alter_add_column: add,
        alter_drop_column: drop,
        alter_rename_column: None,
        alter_rename_table: None,
        alter_column_type: None,
    }
}

/// `ALTER TABLE name` followed by an added or a dropped column. Where
/// `TABLE` does not follow, the parser is left after `ALTER`.
pub open spec fn alter_table(t: Seq<TokenV>, i: int) -> Step<AlterTable> {
    if i >= t.len() {
        Step::Fail(ErrorKind::Runtime)
    } else if t[i].kind != TokenKind::Alter {
        Step::Done(None, i)
    } else if i + 1 >= t.len() {
        Step::Fail(ErrorKind::Runtime)
    } else if t[i + 1].kind != TokenKind::Table {
        Step::Done(None, i + 1)
    } else if !is_at(t, i + 2, TokenKind::Ident) {
        Step::Fail(ErrorKind::Parse)
    } else {
        match alter_add_column(t, i + 3) {
            Step::Fail(k) => Step::Fail(k),
            Step::Done(Some(a), j) => Step::Done(Some(alter_table_of(t[i + 2].text->0, Some(a), None)), j),
            Step::Done(None, j) => match alter_drop_column(t, j) {
                Step::Fail(k) => Step::Fail(k),
                Step::Done(Some(d), k) => Step::Done(Some(alter_table_of(t[i + 2].text->0, None, Some(d))), k),
                Step::Done(None, _) => Step::Fail(ErrorKind::Parse),
            },
        }
    }
}

pub open spec fn alter_stmt(t: Seq<TokenV>, i: int) -> Step<AlterStmt> {
    match alter_table(t, i) {
        Step::Fail(k) => Step::Fail(k),
        Step::Done(Some(a), j) => Step::Done(Some(AlterStmt { alter_table: Some(a) }), j),
        Step::Done(None, j) => Step::Done(None, j),
    }
}

/// `DESC name`. Where no name follows, there is no statement and the parser
/// is left after `DESC`.
pub open spec fn desc_stmt(t: Seq<TokenV>, i: int) -> Step<DescStmt> {
    if i >= t.len() {
        Step::Fail(ErrorKind::Runtime)
    } else if t[i].kind != TokenKind::Desc {
        Step::Done(None, i)
    } else if !is_at(t, i + 1, TokenKind::Ident) {
        Step::Done(None, i + 1)
    } else {
        Step::Done(Some(DescStmt { table_name: Some(t[i + 1].text->0) }), i + 2)
    }
}

/// What follows the keyword of `GET` and `SET`: `[ALL] exprs OF table
/// [WHERE expr] [LIMIT expr]`, read from `i`, the position after the keyword.
pub struct Selection {
    pub all: bool,
    pub expr_list: ExprList,
    pub table: Seq<char>,
    pub where_clause: Option<WhereClause>,
    pub limit: Option<Limit>,
}

pub open spec fn selection(t: Seq<TokenV>, i: int) -> Step<Selection> {
    if i >= t.len() {
        Step::Fail(ErrorKind::Runtime)
    } else {
        let all = t[i].kind == TokenKind::All;
        let p = if all { i + 1 } else { i };
        match expr_list(t, p) {
            Step::Fail(k) => Step::Fail(k),
            Step::Done(None, _) => Step::Fail(ErrorKind::Parse),
            Step::Done(Some(el), j) => if j >= t.len() {
                Step::Fail(ErrorKind::Runtime)
            } else if t[j].kind != TokenKind::Of || !is_at(t, j + 1, TokenKind::Ident) {
                Step::Fail(ErrorKind::Parse)
            } else {
                match where_clause(t, j + 2) {
                    Step::Fail(k) => Step::Fail(k),
                    Step::Done(w, k) => match limit(t, k) {
                        Step::Fail(k2) => Step::Fail(k2),
                        Step::Done(l, m) => Step::Done(
                            Some(Selection { all, expr_list: el, table: t[j + 1].text->0, where_clause: w, limit: l }),
                            m,
                        ),
                    },
                }
            },
        }
    }
}

/// `GET [ALL] exprs OF table [WHERE expr] [LIMIT expr]`.
pub open spec fn get_stmt(t: Seq<TokenV>, i: int) -> Step<GetStmt> {
    if !is_at(t, i, TokenKind::Get) {
        Step::Done(None, i)
    } else {
        match selection(t, i + 1) {
            Step::Fail(k) => Step::Fail(k),
            Step::Done(None, j) => Step::Done(None, j),
            Step::Done(Some(s), j) => Step::Done(
                Some(GetStmt {
                    all: s.all,
                    expr_list: Some(s.expr_list),
                    table: Some(s.table),
                    where_clause: s.where_clause,
                    limit: s.limit,
                    order_by: None,
                }),
                j,
            ),
        }
    }
}

/// `SET [ALL] assignments OF table [WHERE expr] [LIMIT expr]`.
pub open spec fn set_stmt(t: Seq<TokenV>, i: int) -> Step<SetStmt> {
    if !is_at(t, i, TokenKind::SetKw) {
        Step::Done(None, i)
    } else {
        match selection(t, i + 1) {
            Step::Fail(k) => Step::Fail(k),
            Step::Done(None, j) => Step::Done(None, j),
            Step::Done(Some(s), j) => Step::Done(
                Some(SetStmt {
                    all: s.all,
                    expr_list: Some(s.expr_list),
                    table: Some(s.table),
                    where_clause: s.where_clause,
                    limit: s.limit,
                }),
                j,
            ),
        }
    }
}

/// `ADD assignments OF table`.
pub open spec fn add_stmt(t: Seq<TokenV>, i: int) -> Step<AddStmt> {
    if !is_at(t, i, TokenKind::Add) {
        Step::Done(None, i)
    } else {
        match expr_list(t, i + 1) {
            Step::Fail(k) => Step::Fail(k),
            Step::Done(None, _) => Step::Fail(ErrorKind::Parse),
            Step::Done(Some(el), j) => if j >= t.len() {
                Step::Fail(ErrorKind::Runtime)
            } else if t[j].kind != TokenKind::Of || !is_at(t, j + 1, TokenKind::Ident) {
                Step::Fail(ErrorKind::Parse)
            } else {
                Step::Done(
                    Some(AddStmt {
                        expr_list: Some(el),
                        table: Some(t[j + 1].text->0),
                        paren_idents: None,
                        paren_values_list: Seq::empty(),
                    }),
                    j + 2,
                )
            },
        }
    }
}

/// `DEL [ALL] OF table [WHERE expr] [LIMIT expr]`.
pub open spec fn del_stmt(t: Seq<TokenV>, i: int) -> Step<DelStmt> {
    if !is_at(t, i, TokenKind::Del) {
        Step::Done(None, i)
    } else if i + 1 >= t.len() {
        Step::Fail(ErrorKind::Runtime)
    } else {
        let all = t[i + 1].kind == TokenKind::All;
        let p = if all { i + 2 } else { i + 1 };
        if p >= t.len() {
            Step::Fail(ErrorKind::Runtime)
        } else if t[p].kind != TokenKind::Of || !is_at(t, p + 1, TokenKind::Ident) {
            Step::Fail(ErrorKind::Parse)
        } else {
            match where_clause(t, p + 2) {
                Step::Fail(k) => Step::Fail(k),
                Step::Done(w, k) => match limit(t, k) {
                    Step::Fail(k2) => Step::Fail(k2),
                    Step::Done(l, m) => Step::Done(
                        Some(DelStmt { all, table: Some(t[p + 1].text->0), where_clause: w, limit: l }),
                        m,
                    ),
                },
            }
        }
    }
}

pub open spec fn no_stmt() -> Stmt {
    Stmt {
        desc_stmt: None,
        alter_stmt: None,
        drop_stmt: None,
        show_stmt: None,
        use_stmt: None,
        create_stmt: None,
        get_stmt: None,
        set_stmt: None,
        add_stmt: None,
        del_stmt: None,
    }
}

/// One statement: the kinds are tried in turn, each from where the one
/// before it left the parser, and the first that is there is taken.
pub open spec fn stmt(t: Seq<TokenV>, i: int) -> Step<Stmt> {
    match desc_stmt(t, i) {
        Step::Fail(k) => Step::Fail(k),
        Step::Done(Some(x), j) => Step::Done(Some(Stmt { desc_stmt: Some(x), ..no_stmt() }), j),
        Step::Done(None, i1) => match alter_stmt(t, i1) {
            Step::Fail(k) => Step::Fail(k),
            Step::Done(Some(x), j) => Step::Done(Some(Stmt { alter_stmt: Some(x), ..no_stmt() }), j),
            Step::Done(None, i2) => match drop_stmt(t, i2) {
                Step::Fail(k) => Step::Fail(k),
                Step::Done(Some(x), j) => Step::Done(Some(Stmt { drop_stmt: Some(x), ..no_stmt() }), j),
                Step::Done(None, i3) => match show_stmt(t, i3) {
                    Step::Fail(k) => Step::Fail(k),
                    Step::Done(Some(x), j) => Step::Done(Some(Stmt { show_stmt: Some(x), ..no_stmt() }), j),
                    Step::Done(None, i4) => stmt_after_show(t, i4),
                },
            },
        },
    }
}

/// The kinds tried after `SHOW`.
pub open spec fn stmt_after_show(t: Seq<TokenV>, i: int) -> Step<Stmt> {
    match use_stmt(t, i) {
        Step::Fail(k) => Step::Fail(k),
        Step::Done(Some(x), j) => Step::Done(Some(Stmt { use_stmt: Some(x), ..no_stmt() }), j),
        Step::Done(None, i1) => match create_stmt(t, i1) {
            Step::Fail(k) => Step::Fail(k),
            Step::Done(Some(x), j) => Step::Done(Some(Stmt { create_stmt: Some(x), ..no_stmt() }), j),
            Step::Done(None, i2) => match get_stmt(t, i2) {
                Step::Fail(k) => Step::Fail(k),
                Step::Done(Some(x), j) => Step::Done(Some(Stmt { get_stmt: Some(x), ..no_stmt() }), j),
                Step::Done(None, i3) => match set_stmt(t, i3) {
                    Step::Fail(k) => Step::Fail(k),
                    Step::Done(Some(x), j) => Step::Done(Some(Stmt { set_stmt: Some(x), ..no_stmt() }), j),
                    Step::Done(None, i4) => match add_stmt(t, i4) {
                        Step::Fail(k) => Step::Fail(k),
                        Step::Done(Some(x), j) => Step::Done(Some(Stmt { add_stmt: Some(x), ..no_stmt() }), j),
                        Step::Done(None, i5) => match del_stmt(t, i5) {
                            Step::Fail(k) => Step::Fail(k),
                            Step::Done(Some(x), j) => Step::Done(Some(Stmt { del_stmt: Some(x), ..no_stmt() }), j),
                            Step::Done(None, _) => Step::Fail(ErrorKind::Parse),
                        },
                    },
                },
            },
        },
    }
}

/// Statements from `i` on, after those read already (`acc`): each is followed
/// by a semicolon or by the end of the tokens.
pub open spec fn stmts_from(t: Seq<TokenV>, i: int, acc: Seq<Stmt>) -> Result<Seq<Stmt>, ErrorKind>
    decreases remaining(t, i),
{
    if i >= t.len() {
        Ok(acc)
    } else {
        match stmt(t, i) {
            Step::Fail(k) => Err(k),
            Step::Done(None, _) => Ok(acc),
            Step::Done(Some(x), j) => if j >= t.len() {
                Ok(acc.push(x))
            } else if t[j].kind != TokenKind::Semicolon {
                Err(ErrorKind::Parse)
            } else if j < i {
                Err(ErrorKind::Parse)
            } else {
                stmts_from(t, j + 1, acc.push(x))
            },
        }
    }
}

/// A keyword or symbol is never a name, a string or a number.
proof fn lemma_keyword_kind(cs: Seq<char>, i: int)
    ensures
        match keyword_rule(cs, i) {
            Some((k, _)) => token_ok(kw_token(k)),
            None => true,
        },
{
}

proof fn lemma_scan_tokens_ok(cs: Seq<char>, i: int)
    requires
        scan_from(cs, i) is Some,
    ensures
        tokens_ok(scan_from(cs, i)->0),
    decreases cs.len() - i,
{
    if 0 <= i < cs.len() {
        let (t, next) = scan_step(cs, i)->0;
        lemma_keyword_kind(cs, i);
        if next < cs.len() {
            lemma_scan_tokens_ok(cs, next);
        }
        let rest = if next >= cs.len() { Seq::<TokenV>::empty() } else { scan_from(cs, next)->0 };
        match t {
            Some(tv) => {
                assert(token_ok(tv));
                assert forall|k: int| 0 <= k < (seq![tv] + rest).len() implies token_ok(#[trigger] (seq![tv] + rest)[k]) by {
                    if k > 0 {
                        assert((seq![tv] + rest)[k] == rest[k - 1]);
                    }
                }
            },
            None => {},
        }
    }
}

/// Every token that the tokenizer produces carries what the parser takes
/// from it.
pub proof fn lemma_tokenize_tokens_ok(s: Seq<char>)
    requires
        tokenizable(s),
    ensures
        tokens_ok(spec_tokenize(s)->0),
{
    lemma_scan_tokens_ok(normalize(s), 0);
}

/// The relation that a comparison token spells, on whole numbers: `==`,
/// `!=`, `<`, `<=`, `>`, `>=`; nothing for another token.
pub open spec fn token_relation(k: TokenKind, a: int, b: int) -> Option<bool> {
    match k {
        TokenKind::Eq => Some(a == b),
        TokenKind::NotEq => Some(a != b),
        TokenKind::Lt => Some(a < b),
        TokenKind::LtEq => Some(a <= b),
        TokenKind::Gt => Some(a > b),
        TokenKind::GtEq => Some(a >= b),
        _ => None,
    }
}

/// A comparison token is read as the operator it spells: the operator read
/// at a comparison token is taken, and on every pair of whole numbers it
/// gives exactly the relation the token spells (so `>=` holds of equal
/// numbers and `>` does not).
pub proof fn lemma_comparison_tokens_read_as_spelled(t: Seq<TokenV>, i: int, a: i128, b: i128)
    requires
        0 <= i < t.len(),
        token_relation(t[i].kind, a as int, b as int) is Some,
    ensures
        compare_op(t, i) matches Step::Done(Some(op), j) && j == i + 1 && compare_plain(
            int_value(a),
            op,
            int_value(b),
        ) == Ok::<EvaluatedV, ErrorKind>(EvaluatedV::Done(crate::eval::bool_value(token_relation(t[i].kind, a as int, b as int)->0))),
{
}

/// The number that an arithmetic token spells, on whole numbers: `+`, `-`,
/// `*`, and `/` and `%` as division rounded toward zero and its remainder
/// (for a divisor that is not zero); nothing for another token.
pub open spec fn token_arith(k: TokenKind, a: int, b: int) -> Option<int> {
    match k {
        TokenKind::AddOp => Some(a + b),
        TokenKind::SubOp => Some(a - b),
        TokenKind::MulOp => Some(a * b),
        TokenKind::DivOp => if b != 0 {
            Some(crate::eval::trunc_div(a, b))
        } else {
            None
        },
        TokenKind::ModOp => if b != 0 {
            Some(a - b * crate::eval::trunc_div(a, b))
        } else {
            None
        },
        _ => None,
    }
}

/// An arithmetic token is read as the operator it spells: the operator read
/// at `+` or `-` gives, on every pair of whole numbers whose result fits,
/// exactly the number the token spells.
pub proof fn lemma_sum_tokens_read_as_spelled(t: Seq<TokenV>, i: int, a: i128, b: i128)
    requires
        0 <= i < t.len(),
        t[i].kind == TokenKind::AddOp || t[i].kind == TokenKind::SubOp,
        i128::MIN <= token_arith(t[i].kind, a as int, b as int)->0 <= i128::MAX,
    ensures
        add_sub_op(t, i) matches Step::Done(Some(op), j) && j == i + 1 && crate::eval::add_sub_plain(
            int_value(a),
            op,
            int_value(b),
        ) == Ok::<EvaluatedV, ErrorKind>(EvaluatedV::Done(int_value(token_arith(t[i].kind, a as int, b as int)->0 as i128))),
{
}

/// The operator read at `*`, `/` or `%` gives, on every pair of whole
/// numbers whose result fits (the divisor not zero for `/` and `%`),
/// exactly the number the token spells.
pub proof fn lemma_product_tokens_read_as_spelled(t: Seq<TokenV>, i: int, a: i128, b: i128)
    requires
        0 <= i < t.len(),
        t[i].kind == TokenKind::MulOp || t[i].kind == TokenKind::DivOp || t[i].kind == TokenKind::ModOp,
        token_arith(t[i].kind, a as int, b as int) is Some,
        i128::MIN <= token_arith(t[i].kind, a as int, b as int)->0 <= i128::MAX,
    ensures
        mul_div_op(t, i) matches Step::Done(Some(op), j) && j == i + 1 && crate::eval::mul_div_plain(
            int_value(a),
            op,
            int_value(b),
        ) == Ok::<EvaluatedV, ErrorKind>(EvaluatedV::Done(int_value(token_arith(t[i].kind, a as int, b as int)->0 as i128))),
{
}

} // verus!
