//! The syntax tree as the contracts see it: names and strings as character
//! sequences, lists as sequences.
use vstd::prelude::*;
use crate::parser::{AddSubOpNode, CompareOpNode, MulDivOpNode, ShowStmtNode};

verus! {

pub struct Query {
    pub stmts: Seq<Stmt>,
}

pub struct Stmt {
    pub desc_stmt: Option<DescStmt>,
    pub alter_stmt: Option<AlterStmt>,
    pub drop_stmt: Option<DropStmt>,
    pub show_stmt: Option<ShowStmtNode>,
    pub use_stmt: Option<UseStmt>,
    pub create_stmt: Option<CreateStmt>,
    pub get_stmt: Option<GetStmt>,
    pub set_stmt: Option<SetStmt>,
    pub add_stmt: Option<AddStmt>,
    pub del_stmt: Option<DelStmt>,
}

pub struct Limit {
    pub expr: Option<Expr>,
}

pub struct DescStmt {
    pub table_name: Option<Seq<char>>,
}

pub struct AlterAddColumn {
    pub ident: Option<Seq<char>>,
    pub column_types: Seq<ColumnType>,
}

pub struct AlterDropColumn {
    pub ident: Option<Seq<char>>,
}

pub struct AlterRenameColumn {
    pub from_ident: Option<Seq<char>>,
    pub to_ident: Option<Seq<char>>,
}

pub struct AlterRenameTable {
    pub to_ident: Option<Seq<char>>,
}

pub struct AlterColumnType {
    pub ident: Option<Seq<char>>,
    pub column_types: Seq<ColumnType>,
}

pub struct AlterTable {
    pub table_name: Option<Seq<char>>,
    pub alter_add_column: Option<AlterAddColumn>,
    pub alter_drop_column: Option<AlterDropColumn>,
    pub alter_rename_column: Option<AlterRenameColumn>,
    pub alter_rename_table: Option<AlterRenameTable>,
    pub alter_column_type: Option<AlterColumnType>,
}

pub struct AlterStmt {
    pub alter_table: Option<AlterTable>,
}

pub struct DropStmt {
    pub table_name: Option<Seq<char>>,
    pub db_name: Option<Seq<char>>,
    pub if_exists: bool,
}

pub struct UseStmt {
    pub db_name: Option<Seq<char>>,
}

pub struct CreateStmt {
    pub create_database: Option<CreateDatabase>,
    pub create_table: Option<CreateTable>,
}

pub struct CreateDatabase {
    pub ident: Option<Seq<char>>,
}

pub struct CreateTable {
    pub ident: Option<Seq<char>>,
    pub column_definitions: Seq<ColumnDefinition>,
}

pub struct ColumnDefinition {
    pub ident: Option<Seq<char>>,
    pub column_types: Seq<ColumnType>,
}

pub struct Value {
    pub i64_value: Option<i64>,
    pub f64_value: Option<Seq<char>>,
    pub bool_value: Option<bool>,
    pub string: Option<Seq<char>>,
}

pub enum ColumnType {
    PrimaryKey,
    AutoIncrement,
    I64,
    F64,
    Bool,
    Char(usize),
    Default(Value),
}

pub struct OrderBy {
    pub expr: Option<Expr>,
    pub is_asc: bool,
}

pub struct GetStmt {
    pub all: bool,
    pub expr_list: Option<ExprList>,
    pub table: Option<Seq<char>>,
    pub where_clause: Option<WhereClause>,
    pub limit: Option<Limit>,
    pub order_by: Option<OrderBy>,
}

pub struct SetStmt {
    pub all: bool,
    pub expr_list: Option<ExprList>,
    pub table: Option<Seq<char>>,
    pub where_clause: Option<WhereClause>,
    pub limit: Option<Limit>,
}

pub struct ParenIdents {
    pub idents: Seq<Seq<char>>,
}

pub struct ParenValues {
    pub values: Seq<Value>,
}

pub struct AddStmt {
    pub expr_list: Option<ExprList>,
    pub table: Option<Seq<char>>,
    pub paren_idents: Option<ParenIdents>,
    pub paren_values_list: Seq<ParenValues>,
}

pub struct DelStmt {
    pub all: bool,
    pub table: Option<Seq<char>>,
    pub where_clause: Option<WhereClause>,
    pub limit: Option<Limit>,
}

pub struct WhereClause {
    pub expr: Option<Expr>,
}

pub struct ExprList {
    pub exprs: Seq<Expr>,
}

pub struct Expr {
    pub ass_expr: Option<AssExpr>,
}

pub struct AssExpr {
    pub left_func_expr: Option<FuncExpr>,
    pub right_func_expr: Option<FuncExpr>,
}

pub struct FuncExpr {
    pub ident: Option<Seq<char>>,
    pub or_exprs: Seq<OrExpr>,
    pub or_expr: Option<OrExpr>,
}

pub struct OrExpr {
    pub nodes: Seq<AndExpr>,
}

pub struct AndExpr {
    pub nodes: Seq<CompareExpr>,
}

pub enum CompareItem {
    Left(AddSubExpr),
    Op(CompareOpNode),
    Right(AddSubExpr),
}

pub struct CompareExpr {
    pub nodes: Seq<CompareItem>,
}

pub enum AddSubItem {
    Left(MulDivExpr),
    Op(AddSubOpNode),
    Right(MulDivExpr),
}

pub struct AddSubExpr {
    pub nodes: Seq<AddSubItem>,
}

pub enum MulDivItem {
    Left(Operand),
    Op(MulDivOpNode),
    Right(Operand),
}

pub struct MulDivExpr {
    pub nodes: Seq<MulDivItem>,
}

pub struct Operand {
    pub i64_value: Option<i64>,
    pub f64_value: Option<Seq<char>>,
    pub bool_value: Option<bool>,
    pub string: Option<Seq<char>>,
    pub ident: Option<Seq<char>>,
    pub expr: Option<Expr>,
    pub star: bool,
}

} // verus!
