//! The syntax tree of a query and the parser that builds it from tokens.
use vstd::prelude::*;
use crate::error::{Error, ErrorKind, make_error};
use crate::grammar::{
    AddStmt, AddSubExpr, AddSubItem, AlterAddColumn, AlterColumnType, AlterDropColumn, AlterRenameColumn,
    AlterRenameTable, AlterStmt, AlterTable, AndExpr, AssExpr, ColumnDefinition, ColumnType, CompareExpr,
    CompareItem, CreateDatabase, CreateStmt, CreateTable, DelStmt, DescStmt, DropStmt, Expr, ExprList,
    FuncExpr, GetStmt, Limit, MulDivExpr, MulDivItem, Operand, OrExpr, OrderBy, ParenIdents, ParenValues,
    Query, SetStmt, Stmt, UseStmt, Value, WhereClause,
};
use crate::syntax::{self, Step, remaining, tokens_ok};
use crate::tokenizer::{TokenKind, TokenStream};

verus! {

/// The view of an optional boxed node.
pub open spec fn ov<T: View>(o: Option<Box<T>>) -> Option<T::V> {
    match o {
        Some(b) => Some(b@),
        None => None,
    }
}

/// The views of a list of boxed nodes.
pub open spec fn sv<T: View>(s: Seq<Box<T>>) -> Seq<T::V> {
    s.map_values(|b: Box<T>| b@)
}

#[derive(Debug)]
pub struct QueryNode {
    pub stmts: Vec<Box<StmtNode>>,
}

impl View for QueryNode {
    type V = Query;

    open spec fn view(&self) -> Query {
        Query { stmts: sv(self.stmts@) }
    }
}

impl QueryNode {
    pub fn new() -> (n: Self)
        ensures
            n@.stmts == Seq::<Stmt>::empty(),
    {
        QueryNode { stmts: Vec::new() }
    }
}

#[derive(Debug)]
pub struct StmtNode {
    pub desc_stmt: Option<Box<DescStmtNode>>,
    pub alter_stmt: Option<Box<AlterStmtNode>>,
    pub drop_stmt: Option<Box<DropStmtNode>>,
    pub show_stmt: Option<Box<ShowStmtNode>>,
    pub use_stmt: Option<Box<UseStmtNode>>,
    pub create_stmt: Option<Box<CreateStmtNode>>,
    pub get_stmt: Option<Box<GetStmtNode>>,
    pub set_stmt: Option<Box<SetStmtNode>>,
    pub add_stmt: Option<Box<AddStmtNode>>,
    pub del_stmt: Option<Box<DelStmtNode>>,
}

pub open spec fn empty_stmt() -> Stmt {
    Stmt {
        desc_stmt: None,
        alter_stmt: None,
        drop_stmt: None,
        show_stmt: None,
        use_stmt: None,
        create_stmt: None,
        get_stmt: None,
        set_stmt: None,
        add_stmt: None,
        del_stmt: None,
    }
}

impl View for StmtNode {
    type V = Stmt;

    open spec fn view(&self) -> Stmt {
        Stmt {
            desc_stmt: ov(self.desc_stmt),
            alter_stmt: ov(self.alter_stmt),
            drop_stmt: ov(self.drop_stmt),
            show_stmt: ov(self.show_stmt),
            use_stmt: ov(self.use_stmt),
            create_stmt: ov(self.create_stmt),
            get_stmt: ov(self.get_stmt),
            set_stmt: ov(self.set_stmt),
            add_stmt: ov(self.add_stmt),
            del_stmt: ov(self.del_stmt),
        }
    }
}

impl StmtNode {
    pub fn new() -> (n: Self)
        ensures
            n@ == empty_stmt(),
    {
        StmtNode {
            desc_stmt: None,
            alter_stmt: None,
            drop_stmt: None,
            show_stmt: None,
            use_stmt: None,
            create_stmt: None,
            get_stmt: None,
            set_stmt: None,
            add_stmt: None,
            del_stmt: None,
        }
    }
}

#[derive(Debug)]
pub struct LimitNode {
    pub expr: Option<Box<ExprNode>>,
}

impl View for LimitNode {
    type V = Limit;

    open spec fn view(&self) -> Limit {
        Limit { expr: ov(self.expr) }
    }
}

impl LimitNode {
    pub fn new() -> (n: Self)
        ensures
            n@.expr is None,
    {
        LimitNode { expr: None }
    }
}

#[derive(Debug)]
pub struct DescStmtNode {
    pub table_name: Option<Box<IdentNode>>,
}

impl View for DescStmtNode {
    type V = DescStmt;

    open spec fn view(&self) -> DescStmt {
        DescStmt { table_name: ov(self.table_name) }
    }
}

impl DescStmtNode {
    pub fn new() -> (n: Self)
        ensures
            n@.table_name is None,
    {
        DescStmtNode { table_name: None }
    }
}

#[derive(Debug)]
pub struct AlterAddColumnNode {
    pub ident: Option<Box<IdentNode>>,
    pub column_types: Vec<ColumnTypeNode>,
}

pub open spec fn ctv(s: Seq<ColumnTypeNode>) -> Seq<ColumnType> {
    s.map_values(|c: ColumnTypeNode| c@)
}

impl View for AlterAddColumnNode {
    type V = AlterAddColumn;

    open spec fn view(&self) -> AlterAddColumn {
        AlterAddColumn { ident: ov(self.ident), column_types: ctv(self.column_types@) }
    }
}

impl AlterAddColumnNode {
    pub fn new() -> (n: Self)
        ensures
            n@.ident is None,
            n@.column_types == Seq::<ColumnType>::empty(),
    {
        AlterAddColumnNode { ident: None, column_types: Vec::new() }
    }
}

#[derive(Debug)]
pub struct AlterDropColumnNode {
    pub ident: Option<Box<IdentNode>>,
}

impl View for AlterDropColumnNode {
    type V = AlterDropColumn;

    open spec fn view(&self) -> AlterDropColumn {
        AlterDropColumn { ident: ov(self.ident) }
    }
}

impl AlterDropColumnNode {
    pub fn new() -> (n: Self)
        ensures
            n@.ident is None,
    {
        AlterDropColumnNode { ident: None }
    }
}

/// Renaming a column: `ALTER TABLE t RENAME COLUMN a TO b`.
#[derive(Debug)]
pub struct AlterRenameColumnNode {
    pub from_ident: Option<Box<IdentNode>>,
    pub to_ident: Option<Box<IdentNode>>,
}

impl View for AlterRenameColumnNode {
    type V = AlterRenameColumn;

    open spec fn view(&self) -> AlterRenameColumn {
        AlterRenameColumn { from_ident: ov(self.from_ident), to_ident: ov(self.to_ident) }
    }
}

impl AlterRenameColumnNode {
    pub fn new() -> (n: Self)
        ensures
            n@.from_ident is None,
            n@.to_ident is None,
    {
        AlterRenameColumnNode { from_ident: None, to_ident: None }
    }
}

/// Renaming a table: `ALTER TABLE t RENAME TO u`.
#[derive(Debug)]
pub struct AlterRenameTableNode {
    pub to_ident: Option<Box<IdentNode>>,
}

impl View for AlterRenameTableNode {
    type V = AlterRenameTable;

    open spec fn view(&self) -> AlterRenameTable {
        AlterRenameTable { to_ident: ov(self.to_ident) }
    }
}

impl AlterRenameTableNode {
    pub fn new() -> (n: Self)
        ensures
            n@.to_ident is None,
    {
        AlterRenameTableNode { to_ident: None }
    }
}

/// Changing the type of a column: `ALTER TABLE t ALTER COLUMN a TYPE ...`.
#[derive(Debug)]
pub struct AlterColumnTypeNode {
    pub ident: Option<Box<IdentNode>>,
    pub column_types: Vec<ColumnTypeNode>,
}

impl View for AlterColumnTypeNode {
    type V = AlterColumnType;

    open spec fn view(&self) -> AlterColumnType {
        AlterColumnType { ident: ov(self.ident), column_types: ctv(self.column_types@) }
    }
}

impl AlterColumnTypeNode {
    pub fn new() -> (n: Self)
        ensures
            n@.ident is None,
            n@.column_types == Seq::<ColumnType>::empty(),
    {
        AlterColumnTypeNode { ident: None, column_types: Vec::new() }
    }
}

#[derive(Debug)]
pub struct AlterTableNode {
    pub table_name: Option<Box<IdentNode>>,
    pub alter_add_column: Option<Box<AlterAddColumnNode>>,
    pub alter_drop_column: Option<Box<AlterDropColumnNode>>,
    pub alter_rename_column: Option<Box<AlterRenameColumnNode>>,
    pub alter_rename_table: Option<Box<AlterRenameTableNode>>,
    pub alter_column_type: Option<Box<AlterColumnTypeNode>>,
}

impl View for AlterTableNode {
    type V = AlterTable;

    open spec fn view(&self) -> AlterTable {
        AlterTable {
            table_name: ov(self.table_name),
            alter_add_column: ov(self.alter_add_column),
            alter_drop_column: ov(self.alter_drop_column),
            alter_rename_column: ov(self.alter_rename_column),
            alter_rename_table: ov(self.alter_rename_table),
            alter_column_type: ov(self.alter_column_type),
        }
    }
}

impl AlterTableNode {
    pub fn new() -> (n: Self)
        ensures
            n@ == (AlterTable {
                table_name: None,
                alter_add_column: None,
                alter_drop_column: None,
                alter_rename_column: None,
                alter_rename_table: None,
                alter_column_type: None,
            }),
    {
        AlterTableNode {
            table_name: None,
            alter_add_column: None,
            alter_drop_column: None,
            alter_rename_column: None,
            alter_rename_table: None,
            alter_column_type: None,
        }
    }
}

#[derive(Debug)]
pub struct AlterStmtNode {
    pub alter_table: Option<Box<AlterTableNode>>,
}

impl View for AlterStmtNode {
    type V = AlterStmt;

    open spec fn view(&self) -> AlterStmt {
        AlterStmt { alter_table: ov(self.alter_table) }
    }
}

impl AlterStmtNode {
    pub fn new() -> (n: Self)
        ensures
            n@.alter_table is None,
    {
        AlterStmtNode { alter_table: None }
    }
}

#[derive(Debug)]
pub struct DropStmtNode {
    pub table_name: Option<Box<IdentNode>>,
    pub db_name: Option<Box<IdentNode>>,
    pub if_exists: bool,
}

impl View for DropStmtNode {
    type V = DropStmt;

    open spec fn view(&self) -> DropStmt {
        DropStmt { table_name: ov(self.table_name), db_name: ov(self.db_name), if_exists: self.if_exists }
    }
}

impl DropStmtNode {
    pub fn new() -> (n: Self)
        ensures
            n@ == (DropStmt { table_name: None, db_name: None, if_exists: false }),
    {
        DropStmtNode { table_name: None, db_name: None, if_exists: false }
    }
}

#[derive(Clone, Copy, Debug, PartialEq, Eq, Structural)]
pub struct ShowStmtNode {
    pub tables: bool,
    pub databases: bool,
}

impl View for ShowStmtNode {
    type V = ShowStmtNode;

    open spec fn view(&self) -> ShowStmtNode {
        *self
    }
}

impl ShowStmtNode {
    pub fn new() -> (n: Self)
        ensures
            n == (ShowStmtNode { tables: false, databases: false }),
    {
        ShowStmtNode { tables: false, databases: false }
    }
}

#[derive(Debug)]
pub struct UseStmtNode {
    pub db_name: Option<Box<IdentNode>>,
}

impl View for UseStmtNode {
    type V = UseStmt;

    open spec fn view(&self) -> UseStmt {
        UseStmt { db_name: ov(self.db_name) }
    }
}

impl UseStmtNode {
    pub fn new() -> (n: Self)
        ensures
            n@.db_name is None,
    {
        UseStmtNode { db_name: None }
    }
}

#[derive(Debug)]
pub struct CreateStmtNode {
    pub create_database: Option<Box<CreateDatabaseNode>>,
    pub create_table: Option<Box<CreateTableNode>>,
}

impl View for CreateStmtNode {
    type V = CreateStmt;

    open spec fn view(&self) -> CreateStmt {
        CreateStmt { create_database: ov(self.create_database), create_table: ov(self.create_table) }
    }
}

impl CreateStmtNode {
    pub fn new() -> (n: Self)
        ensures
            n@.create_database is None,
            n@.create_table is None,
    {
        CreateStmtNode { create_database: None, create_table: None }
    }
}

#[derive(Debug)]
pub struct CreateDatabaseNode {
    pub ident: Option<Box<IdentNode>>,
}

impl View for CreateDatabaseNode {
    type V = CreateDatabase;

    open spec fn view(&self) -> CreateDatabase {
        CreateDatabase { ident: ov(self.ident) }
    }
}

impl CreateDatabaseNode {
    pub fn new() -> (n: Self)
        ensures
            n@.ident is None,
    {
        CreateDatabaseNode { ident: None }
    }
}

#[derive(Debug)]
pub struct CreateTableNode {
    pub ident: Option<Box<IdentNode>>,
    pub column_definitions: Vec<Box<ColumnDefinitionNode>>,
}

impl View for CreateTableNode {
    type V = CreateTable;

    open spec fn view(&self) -> CreateTable {
        CreateTable { ident: ov(self.ident), column_definitions: sv(self.column_definitions@) }
    }
}

impl CreateTableNode {
    pub fn new() -> (n: Self)
        ensures
            n@.ident is None,
            n@.column_definitions == Seq::<ColumnDefinition>::empty(),
    {
        CreateTableNode { ident: None, column_definitions: Vec::new() }
    }
}

#[derive(Debug)]
pub struct ColumnDefinitionNode {
    pub ident: Option<Box<IdentNode>>,
    pub column_types: Vec<ColumnTypeNode>,
}

impl View for ColumnDefinitionNode {
    type V = ColumnDefinition;

    open spec fn view(&self) -> ColumnDefinition {
        ColumnDefinition { ident: ov(self.ident), column_types: ctv(self.column_types@) }
    }
}

impl ColumnDefinitionNode {
    pub fn new() -> (n: Self)
        ensures
            n@.ident is None,
            n@.column_types == Seq::<ColumnType>::empty(),
    {
        ColumnDefinitionNode { ident: None, column_types: Vec::new() }
    }
}

#[derive(Debug)]
pub struct ValueNode {
    pub i64_value: Option<Box<I64ValueNode>>,
    pub f64_value: Option<Box<F64ValueNode>>,
    pub bool_value: Option<Box<BoolValueNode>>,
    pub string: Option<Box<StringNode>>,
}

impl View for ValueNode {
    type V = Value;

    open spec fn view(&self) -> Value {
        Value {
            i64_value: ov(self.i64_value),
            f64_value: ov(self.f64_value),
            bool_value: ov(self.bool_value),
            string: ov(self.string),
        }
    }
}

impl ValueNode {
    pub fn new() -> (n: Self)
        ensures
            n@ == (Value { i64_value: None, f64_value: None, bool_value: None, string: None }),
    {
        ValueNode { i64_value: None, f64_value: None, bool_value: None, string: None }
    }
}

#[derive(Debug)]
pub enum ColumnTypeNode {
    PrimaryKey,
    AutoIncrement,
    I64,
    F64,
    Bool,
    Char(usize),
    Default(Box<ValueNode>),
}

impl View for ColumnTypeNode {
    type V = ColumnType;

    open spec fn view(&self) -> ColumnType {
        match self {
            ColumnTypeNode::PrimaryKey => ColumnType::PrimaryKey,
            ColumnTypeNode::AutoIncrement => ColumnType::AutoIncrement,
            ColumnTypeNode::I64 => ColumnType::I64,
            ColumnTypeNode::F64 => ColumnType::F64,
            ColumnTypeNode::Bool => ColumnType::Bool,
            ColumnTypeNode::Char(n) => ColumnType::Char(*n),
            ColumnTypeNode::Default(v) => ColumnType::Default(v@),
        }
    }
}

/// Sorting the rows that a get statement selects: `ORDER BY expr`.
#[derive(Debug)]
pub struct OrderByNode {
    pub expr: Option<Box<ExprNode>>,
    pub is_asc: bool,
}

impl View for OrderByNode {
    type V = OrderBy;

    open spec fn view(&self) -> OrderBy {
        OrderBy { expr: ov(self.expr), is_asc: self.is_asc }
    }
}

impl OrderByNode {
    pub fn new() -> (n: Self)
        ensures
            n@.expr is None,
            n@.is_asc,
    {
        OrderByNode { expr: None, is_asc: true }
    }
}

#[derive(Debug)]
pub struct GetStmtNode {
    pub all: bool,
    pub expr_list: Option<Box<ExprListNode>>,
    pub table: Option<Box<IdentNode>>,
    pub where_clause: Option<Box<WhereClauseNode>>,
    pub limit: Option<Box<LimitNode>>,
    pub order_by: Option<Box<OrderByNode>>,
}

impl View for GetStmtNode {
    type V = GetStmt;

    open spec fn view(&self) -> GetStmt {
        GetStmt {
            all: self.all,
            expr_list: ov(self.expr_list),
            table: ov(self.table),
            where_clause: ov(self.where_clause),
            limit: ov(self.limit),
            order_by: ov(self.order_by),
        }
    }
}

impl GetStmtNode {
    pub fn new() -> (n: Self)
        ensures
            n@ == (GetStmt {
                all: false,
                expr_list: None,
                table: None,
                where_clause: None,
                limit: None,
                order_by: None,
            }),
    {
        GetStmtNode { all: false, expr_list: None, table: None, where_clause: None, limit: None, order_by: None }
    }
}

#[derive(Debug)]
pub struct SetStmtNode {
    pub all: bool,
    pub expr_list: Option<Box<ExprListNode>>,
    pub table: Option<Box<IdentNode>>,
    pub where_clause: Option<Box<WhereClauseNode>>,
    pub limit: Option<Box<LimitNode>>,
}

impl View for SetStmtNode {
    type V = SetStmt;

    open spec fn view(&self) -> SetStmt {
        SetStmt {
            all: self.all,
            expr_list: ov(self.expr_list),
            table: ov(self.table),
            where_clause: ov(self.where_clause),
            limit: ov(self.limit),
        }
    }
}

impl SetStmtNode {
    pub fn new() -> (n: Self)
        ensures
            n@ == (SetStmt { all: false, expr_list: None, table: None, where_clause: None, limit: None }),
    {
        SetStmtNode { all: false, expr_list: None, table: None, where_clause: None, limit: None }
    }
}

/// The column names of `ADD OF t (a, b) VALUES ...`.
#[derive(Debug)]
pub struct ParenIdentsNode {
    pub idents: Vec<Box<IdentNode>>,
}

impl View for ParenIdentsNode {
    type V = ParenIdents;

    open spec fn view(&self) -> ParenIdents {
        ParenIdents { idents: sv(self.idents@) }
    }
}

impl ParenIdentsNode {
    pub fn new() -> (n: Self)
        ensures
            n@.idents == Seq::<Seq<char>>::empty(),
    {
        ParenIdentsNode { idents: Vec::new() }
    }
}

/// One row of values of `ADD OF t VALUES (1, 2), ...`.
#[derive(Debug)]
pub struct ParenValuesNode {
    pub values: Vec<Box<ValueNode>>,
}

impl View for ParenValuesNode {
    type V = ParenValues;

    open spec fn view(&self) -> ParenValues {
        ParenValues { values: sv(self.values@) }
    }
}

impl ParenValuesNode {
    pub fn new() -> (n: Self)
        ensures
            n@.values == Seq::<Value>::empty(),
    {
        ParenValuesNode { values: Vec::new() }
    }
}

#[derive(Debug)]
pub struct AddStmtNode {
    pub expr_list: Option<Box<ExprListNode>>,
    pub table: Option<Box<IdentNode>>,
    pub paren_idents: Option<Box<ParenIdentsNode>>,
    pub paren_values_list: Vec<Box<ParenValuesNode>>,
}

impl View for AddStmtNode {
    type V = AddStmt;

    open spec fn view(&self) -> AddStmt {
        AddStmt {
            expr_list: ov(self.expr_list),
            table: ov(self.table),
            paren_idents: ov(self.paren_idents),
            paren_values_list: sv(self.paren_values_list@),
        }
    }
}

impl AddStmtNode {
    pub fn new() -> (n: Self)
        ensures
            n@.expr_list is None,
            n@.table is None,
            n@.paren_idents is None,
            n@.paren_values_list == Seq::<ParenValues>::empty(),
    {
        AddStmtNode { expr_list: None, table: None, paren_idents: None, paren_values_list: Vec::new() }
    }
}

#[derive(Debug)]
pub struct DelStmtNode {
    pub all: bool,
    pub table: Option<Box<IdentNode>>,
    pub where_clause: Option<Box<WhereClauseNode>>,
    pub limit: Option<Box<LimitNode>>,
}

impl View for DelStmtNode {
    type V = DelStmt;

    open spec fn view(&self) -> DelStmt {
        DelStmt {
            all: self.all,
            table: ov(self.table),
            where_clause: ov(self.where_clause),
            limit: ov(self.limit),
        }
    }
}

impl DelStmtNode {
    pub fn new() -> (n: Self)
        ensures
            n@ == (DelStmt { all: false, table: None, where_clause: None, limit: None }),
    {
        DelStmtNode { all: false, table: None, where_clause: None, limit: None }
    }
}

#[derive(Debug)]
pub struct WhereClauseNode {
    pub expr: Option<Box<ExprNode>>,
}

impl View for WhereClauseNode {
    type V = WhereClause;

    open spec fn view(&self) -> WhereClause {
        WhereClause { expr: ov(self.expr) }
    }
}

impl WhereClauseNode {
    pub fn new() -> (n: Self)
        ensures
            n@.expr is None,
    {
        WhereClauseNode { expr: None }
    }
}

#[derive(Debug)]
pub struct ExprListNode {
    pub exprs: Vec<Box<ExprNode>>,
}

impl View for ExprListNode {
    type V = ExprList;

    open spec fn view(&self) -> ExprList {
        ExprList { exprs: sv(self.exprs@) }
    }
}

impl ExprListNode {
    pub fn new() -> (n: Self)
        ensures
            n@.exprs == Seq::<Expr>::empty(),
    {
        ExprListNode { exprs: Vec::new() }
    }
}

// ---- expressions: these nodes nest, so their views are defined together ----

#[derive(Debug)]
pub struct ExprNode {
    pub ass_expr: Option<Box<AssExprNode>>,
}

#[derive(Debug)]
pub struct AssExprNode {
    pub left_func_expr: Option<Box<FuncExprNode>>,
    pub right_func_expr: Option<Box<FuncExprNode>>,
}

/// A call `name(args, ...)`, or a plain or-expression.
#[derive(Debug)]
pub struct FuncExprNode {
    pub ident: Option<Box<IdentNode>>,
    pub or_exprs: Vec<Box<OrExprNode>>,
    pub or_expr: Option<Box<OrExprNode>>,
}

#[derive(Debug)]
pub struct OrExprNode {
    pub nodes: Vec<Box<AndExprNode>>,
}

#[derive(Debug)]
pub struct AndExprNode {
    pub nodes: Vec<Box<CompareExprNode>>,
}

#[derive(Debug)]
pub enum CompareExprItemNode {
    Left(Box<AddSubExprNode>),
    Op(CompareOpNode),
    Right(Box<AddSubExprNode>),
}

#[derive(Debug)]
pub struct CompareExprNode {
    pub nodes: Vec<CompareExprItemNode>,
}

#[derive(Clone, Copy, Debug, PartialEq, Eq, Structural)]
pub enum CompareOpNode {
    Lt,
    LtEq,
    Gt,
    GtEq,
    Eq,
    NotEq,
}

impl View for CompareOpNode {
    type V = CompareOpNode;

    open spec fn view(&self) -> CompareOpNode {
        *self
    }
}

#[derive(Debug)]
pub enum AddSubExprItemNode {
    Left(Box<MulDivExprNode>),
    Op(AddSubOpNode),
    Right(Box<MulDivExprNode>),
}

#[derive(Debug)]
pub struct AddSubExprNode {
    pub nodes: Vec<AddSubExprItemNode>,
}

#[derive(Clone, Copy, Debug, PartialEq, Eq, Structural)]
pub enum AddSubOpNode {
    Add,
    Sub,
}

impl View for AddSubOpNode {
    type V = AddSubOpNode;

    open spec fn view(&self) -> AddSubOpNode {
        *self
    }
}

#[derive(Debug)]
pub enum MulDivExprItemNode {
    Left(Box<OperandNode>),
    Op(MulDivOpNode),
    Right(Box<OperandNode>),
}

#[derive(Debug)]
pub struct MulDivExprNode {
    pub nodes: Vec<MulDivExprItemNode>,
}

#[derive(Clone, Copy, Debug, PartialEq, Eq, Structural)]
pub enum MulDivOpNode {
    Mul,
    Div,
    Mod,
}

impl View for MulDivOpNode {
    type V = MulDivOpNode;

    open spec fn view(&self) -> MulDivOpNode {
        *self
    }
}

#[derive(Debug)]
pub struct OperandNode {
    pub i64_value: Option<Box<I64ValueNode>>,
    pub f64_value: Option<Box<F64ValueNode>>,
    pub bool_value: Option<Box<BoolValueNode>>,
    pub string: Option<Box<StringNode>>,
    pub ident: Option<Box<IdentNode>>,
    pub expr: Option<Box<ExprNode>>,
    pub star: bool,
}

#[verifier::opaque]
pub open spec fn v_expr(n: ExprNode) -> Expr
    decreases n,
{
    Expr {
        ass_expr: match n.ass_expr {
            Some(b) => Some(v_ass(*b)),
            None => None,
        },
    }
}

#[verifier::opaque]
pub open spec fn v_ass(n: AssExprNode) -> AssExpr
    decreases n,
{
    AssExpr {
        left_func_expr: match n.left_func_expr {
            Some(b) => Some(v_func(*b)),
            None => None,
        },
        right_func_expr: match n.right_func_expr {
            Some(b) => Some(v_func(*b)),
            None => None,
        },
    }
}

#[verifier::opaque]
pub open spec fn v_func(n: FuncExprNode) -> FuncExpr
    decreases n,
{
    FuncExpr {
        ident: ov(n.ident),
        or_exprs: v_ors(n.or_exprs@),
        or_expr: match n.or_expr {
            Some(b) => Some(v_or(*b)),
            None => None,
        },
    }
}

#[verifier::opaque]
pub open spec fn v_ors(s: Seq<Box<OrExprNode>>) -> Seq<OrExpr>
    decreases s,
{
    if s.len() == 0 {
        Seq::empty()
    } else {
        v_ors(s.drop_last()).push(v_or(*s.last()))
    }
}

#[verifier::opaque]
pub open spec fn v_or(n: OrExprNode) -> OrExpr
    decreases n,
{
    OrExpr { nodes: v_ands(n.nodes@) }
}

#[verifier::opaque]
pub open spec fn v_ands(s: Seq<Box<AndExprNode>>) -> Seq<AndExpr>
    decreases s,
{
    if s.len() == 0 {
        Seq::empty()
    } else {
        v_ands(s.drop_last()).push(v_and(*s.last()))
    }
}

#[verifier::opaque]
pub open spec fn v_and(n: AndExprNode) -> AndExpr
    decreases n,
{
    AndExpr { nodes: v_compares(n.nodes@) }
}

#[verifier::opaque]
pub open spec fn v_compares(s: Seq<Box<CompareExprNode>>) -> Seq<CompareExpr>
    decreases s,
{
    if s.len() == 0 {
        Seq::empty()
    } else {
        v_compares(s.drop_last()).push(v_compare(*s.last()))
    }
}

#[verifier::opaque]
pub open spec fn v_compare(n: CompareExprNode) -> CompareExpr
    decreases n,
{
    CompareExpr { nodes: v_compare_items(n.nodes@) }
}

#[verifier::opaque]
pub open spec fn v_compare_items(s: Seq<CompareExprItemNode>) -> Seq<CompareItem>
    decreases s,
{
    if s.len() == 0 {
        Seq::empty()
    } else {
        v_compare_items(s.drop_last()).push(v_compare_item(s.last()))
    }
}

#[verifier::opaque]
pub open spec fn v_compare_item(n: CompareExprItemNode) -> CompareItem
    decreases n,
{
    match n {
        CompareExprItemNode::Left(b) => CompareItem::Left(v_addsub(*b)),
        CompareExprItemNode::Op(op) => CompareItem::Op(op),
        CompareExprItemNode::Right(b) => CompareItem::Right(v_addsub(*b)),
    }
}

#[verifier::opaque]
pub open spec fn v_addsub(n: AddSubExprNode) -> AddSubExpr
    decreases n,
{
    AddSubExpr { nodes: v_as_items(n.nodes@) }
}

#[verifier::opaque]
pub open spec fn v_as_items(s: Seq<AddSubExprItemNode>) -> Seq<AddSubItem>
    decreases s,
{
    if s.len() == 0 {
        Seq::empty()
    } else {
        v_as_items(s.drop_last()).push(v_as_item(s.last()))
    }
}

#[verifier::opaque]
pub open spec fn v_as_item(n: AddSubExprItemNode) -> AddSubItem
    decreases n,
{
    match n {
        AddSubExprItemNode::Left(b) => AddSubItem::Left(v_muldiv(*b)),
        AddSubExprItemNode::Op(op) => AddSubItem::Op(op),
        AddSubExprItemNode::Right(b) => AddSubItem::Right(v_muldiv(*b)),
    }
}

#[verifier::opaque]
pub open spec fn v_muldiv(n: MulDivExprNode) -> MulDivExpr
    decreases n,
{
    MulDivExpr { nodes: v_md_items(n.nodes@) }
}

#[verifier::opaque]
pub open spec fn v_md_items(s: Seq<MulDivExprItemNode>) -> Seq<MulDivItem>
    decreases s,
{
    if s.len() == 0 {
        Seq::empty()
    } else {
        v_md_items(s.drop_last()).push(v_md_item(s.last()))
    }
}

#[verifier::opaque]
pub open spec fn v_md_item(n: MulDivExprItemNode) -> MulDivItem
    decreases n,
{
    match n {
        MulDivExprItemNode::Left(b) => MulDivItem::Left(v_operand(*b)),
        MulDivExprItemNode::Op(op) => MulDivItem::Op(op),
        MulDivExprItemNode::Right(b) => MulDivItem::Right(v_operand(*b)),
    }
}

#[verifier::opaque]
pub open spec fn v_operand(n: OperandNode) -> Operand
    decreases n,
{
    Operand {
        i64_value: ov(n.i64_value),
        f64_value: ov(n.f64_value),
        bool_value: ov(n.bool_value),
        string: ov(n.string),
        ident: ov(n.ident),
        expr: match n.expr {
            Some(b) => Some(v_expr(*b)),
            None => None,
        },
        star: n.star,
    }
}

impl View for ExprNode {
    type V = Expr;

    open spec fn view(&self) -> Expr {
        v_expr(*self)
    }
}

impl View for AssExprNode {
    type V = AssExpr;

    open spec fn view(&self) -> AssExpr {
        v_ass(*self)
    }
}

impl View for FuncExprNode {
    type V = FuncExpr;

    open spec fn view(&self) -> FuncExpr {
        v_func(*self)
    }
}

impl View for OrExprNode {
    type V = OrExpr;

    open spec fn view(&self) -> OrExpr {
        v_or(*self)
    }
}

impl View for AndExprNode {
    type V = AndExpr;

    open spec fn view(&self) -> AndExpr {
        v_and(*self)
    }
}

impl View for CompareExprNode {
    type V = CompareExpr;

    open spec fn view(&self) -> CompareExpr {
        v_compare(*self)
    }
}

impl View for AddSubExprNode {
    type V = AddSubExpr;

    open spec fn view(&self) -> AddSubExpr {
        v_addsub(*self)
    }
}

impl View for MulDivExprNode {
    type V = MulDivExpr;

    open spec fn view(&self) -> MulDivExpr {
        v_muldiv(*self)
    }
}

impl View for OperandNode {
    type V = Operand;

    open spec fn view(&self) -> Operand {
        v_operand(*self)
    }
}

impl ExprNode {
    pub fn new() -> (n: Self)
        ensures
            n@.ass_expr is None,
    {
        proof {
            reveal_with_fuel(v_expr, 1);
            reveal_with_fuel(v_ass, 1);
        }
        ExprNode { ass_expr: None }
    }
}

impl AssExprNode {
    pub fn new() -> (n: Self)
        ensures
            n@.left_func_expr is None,
            n@.right_func_expr is None,
    {
        proof {
            reveal_with_fuel(v_ass, 1);
            reveal_with_fuel(v_func, 1);
        }
        AssExprNode { left_func_expr: None, right_func_expr: None }
    }
}

impl FuncExprNode {
    pub fn new() -> (n: Self)
        ensures
            n@ == (FuncExpr { ident: None, or_exprs: Seq::<OrExpr>::empty(), or_expr: None }),
    {
        proof {
            reveal_with_fuel(v_func, 1);
            reveal_with_fuel(v_ors, 1);
            reveal_with_fuel(v_or, 1);
        }
        FuncExprNode { ident: None, or_exprs: Vec::new(), or_expr: None }
    }
}

impl OrExprNode {
    pub fn new() -> (n: Self)
        ensures
            n@.nodes == Seq::<AndExpr>::empty(),
    {
        proof {
            reveal_with_fuel(v_or, 1);
            reveal_with_fuel(v_ands, 1);
        }
        OrExprNode { nodes: Vec::new() }
    }
}

impl AndExprNode {
    pub fn new() -> (n: Self)
        ensures
            n@.nodes == Seq::<CompareExpr>::empty(),
    {
        proof {
            reveal_with_fuel(v_and, 1);
            reveal_with_fuel(v_compares, 1);
        }
        AndExprNode { nodes: Vec::new() }
    }
}

impl CompareExprNode {
    pub fn new() -> (n: Self)
        ensures
            n@.nodes == Seq::<CompareItem>::empty(),
    {
        proof {
            reveal_with_fuel(v_compare, 1);
            reveal_with_fuel(v_compare_items, 1);
        }
        CompareExprNode { nodes: Vec::new() }
    }
}

impl AddSubExprNode {
    pub fn new() -> (n: Self)
        ensures
            n@.nodes == Seq::<AddSubItem>::empty(),
    {
        proof {
            reveal_with_fuel(v_addsub, 1);
            reveal_with_fuel(v_as_items, 1);
        }
        AddSubExprNode { nodes: Vec::new() }
    }
}

impl MulDivExprNode {
    pub fn new() -> (n: Self)
        ensures
            n@.nodes == Seq::<MulDivItem>::empty(),
    {
        proof {
            reveal_with_fuel(v_muldiv, 1);
            reveal_with_fuel(v_md_items, 1);
        }
        MulDivExprNode { nodes: Vec::new() }
    }
}

pub open spec fn empty_operand() -> Operand {
    Operand {
        i64_value: None,
        f64_value: None,
        bool_value: None,
        string: None,
        ident: None,
        expr: None,
        star: false,
    }
}

impl OperandNode {
    pub fn new() -> (n: Self)
        ensures
            n@ == empty_operand(),
    {
        proof {
            reveal_with_fuel(v_operand, 1);
            reveal_with_fuel(v_expr, 1);
        }
        OperandNode {
            i64_value: None,
            f64_value: None,
            bool_value: None,
            string: None,
            ident: None,
            expr: None,
            star: false,
        }
    }
}

#[derive(Clone, Copy, Debug, PartialEq, Eq, Structural)]
pub struct I64ValueNode {
    pub value: i64,
}

impl View for I64ValueNode {
    type V = i64;

    open spec fn view(&self) -> i64 {
        self.value
    }
}

impl I64ValueNode {
    pub fn new() -> (n: Self)
        ensures
            n.value == 0,
    {
        I64ValueNode { value: 0 }
    }
}

/// A decimal fraction, kept as the text of the literal.
#[derive(Debug)]
pub struct F64ValueNode {
    pub text: String,
}

impl View for F64ValueNode {
    type V = Seq<char>;

    open spec fn view(&self) -> Seq<char> {
        self.text@
    }
}

impl F64ValueNode {
    pub fn new() -> (n: Self)
        ensures
            n@ == "0.0"@,
    {
        F64ValueNode { text: "0.0".to_string() }
    }
}

#[derive(Clone, Copy, Debug, PartialEq, Eq, Structural)]
pub struct BoolValueNode {
    pub value: bool,
}

impl View for BoolValueNode {
    type V = bool;

    open spec fn view(&self) -> bool {
        self.value
    }
}

impl BoolValueNode {
    pub fn new() -> (n: Self)
        ensures
            n.value == false,
    {
        BoolValueNode { value: false }
    }
}

#[derive(Debug)]
pub struct StringNode {
    pub value: String,
}

impl View for StringNode {
    type V = Seq<char>;

    open spec fn view(&self) -> Seq<char> {
        self.value@
    }
}

impl StringNode {
    pub fn new() -> (n: Self)
        ensures
            n@ == Seq::<char>::empty(),
    {
        StringNode { value: String::new() }
    }
}

#[derive(Debug)]
pub struct IdentNode {
    pub value: String,
}

impl View for IdentNode {
    type V = Seq<char>;

    open spec fn view(&self) -> Seq<char> {
        self.value@
    }
}

impl IdentNode {
    pub fn new() -> (n: Self)
        ensures
            n@ == Seq::<char>::empty(),
    {
        IdentNode { value: String::new() }
    }
}


// ---- copies of nodes, which keep the view ----

impl Clone for IdentNode {
    fn clone(&self) -> (r: Self)
        ensures
            r@ == self@,
    {
        IdentNode { value: self.value.clone() }
    }
}

impl Clone for StringNode {
    fn clone(&self) -> (r: Self)
        ensures
            r@ == self@,
    {
        StringNode { value: self.value.clone() }
    }
}

impl Clone for F64ValueNode {
    fn clone(&self) -> (r: Self)
        ensures
            r@ == self@,
    {
        F64ValueNode { text: self.text.clone() }
    }
}

fn clone_opt_ident(o: &Option<Box<IdentNode>>) -> (r: Option<Box<IdentNode>>)
    ensures
        ov(r) == ov(*o),
{
    match o {
        Some(b) => Some(Box::new((**b).clone())),
        None => None,
    }
}

fn clone_opt_string(o: &Option<Box<StringNode>>) -> (r: Option<Box<StringNode>>)
    ensures
        ov(r) == ov(*o),
{
    match o {
        Some(b) => Some(Box::new((**b).clone())),
        None => None,
    }
}

fn clone_opt_f64(o: &Option<Box<F64ValueNode>>) -> (r: Option<Box<F64ValueNode>>)
    ensures
        ov(r) == ov(*o),
{
    match o {
        Some(b) => Some(Box::new((**b).clone())),
        None => None,
    }
}

fn clone_opt_i64(o: &Option<Box<I64ValueNode>>) -> (r: Option<Box<I64ValueNode>>)
    ensures
        ov(r) == ov(*o),
{
    match o {
        Some(b) => Some(Box::new(**b)),
        None => None,
    }
}

fn clone_opt_bool(o: &Option<Box<BoolValueNode>>) -> (r: Option<Box<BoolValueNode>>)
    ensures
        ov(r) == ov(*o),
{
    match o {
        Some(b) => Some(Box::new(**b)),
        None => None,
    }
}

fn clone_expr(n: &ExprNode) -> (r: ExprNode)
    ensures
        v_expr(r) == v_expr(*n),
    decreases *n,
{
    proof {
        reveal_with_fuel(v_expr, 1);
        reveal_with_fuel(v_ass, 1);
    }
    ExprNode {
        ass_expr: match &n.ass_expr {
            Some(b) => Some(Box::new(clone_ass(&**b))),
            None => None,
        },
    }
}

fn clone_ass(n: &AssExprNode) -> (r: AssExprNode)
    ensures
        v_ass(r) == v_ass(*n),
    decreases *n,
{
    proof {
        reveal_with_fuel(v_ass, 1);
        reveal_with_fuel(v_func, 1);
    }
    AssExprNode {
        left_func_expr: match &n.left_func_expr {
            Some(b) => Some(Box::new(clone_func(&**b))),
            None => None,
        },
        right_func_expr: match &n.right_func_expr {
            Some(b) => Some(Box::new(clone_func(&**b))),
            None => None,
        },
    }
}

fn clone_func(n: &FuncExprNode) -> (r: FuncExprNode)
    ensures
        v_func(r) == v_func(*n),
    decreases *n,
{
    proof {
        reveal_with_fuel(v_func, 1);
        reveal_with_fuel(v_ors, 1);
        reveal_with_fuel(v_or, 1);
    }
    FuncExprNode {
        ident: clone_opt_ident(&n.ident),
        or_exprs: clone_ors(&n.or_exprs),
        or_expr: match &n.or_expr {
            Some(b) => Some(Box::new(clone_or(&**b))),
            None => None,
        },
    }
}

fn clone_ors(v: &Vec<Box<OrExprNode>>) -> (r: Vec<Box<OrExprNode>>)
    ensures
        v_ors(r@) == v_ors(v@),
    decreases *v,
{
    let mut r: Vec<Box<OrExprNode>> = Vec::new();
    let mut i: usize = 0;
    proof {
        assert(v@.take(0) =~= r@);
    }
    while i < v.len()
        invariant
            i <= v@.len(),
            v_ors(r@) == v_ors(v@.take(i as int)),
        decreases v@.len() - i,
    {
        let c = clone_or(&*v[i]);
        let ghost old_r = r@;
        let ghost gc = c;
        r.push(Box::new(c));
        proof {
            assert(r@ == old_r.push(Box::new(gc)));
            lemma_v_ors_push(old_r, Box::new(gc));
            assert(v@.take(i + 1) =~= v@.take(i as int).push(v@[i as int]));
            lemma_v_ors_push(v@.take(i as int), v@[i as int]);
        }
        i += 1;
    }
    proof {
        assert(v@.take(i as int) =~= v@);
    }
    r
}

fn clone_or(n: &OrExprNode) -> (r: OrExprNode)
    ensures
        v_or(r) == v_or(*n),
    decreases *n,
{
    proof {
        reveal_with_fuel(v_or, 1);
        reveal_with_fuel(v_ands, 1);
    }
    OrExprNode { nodes: clone_ands(&n.nodes) }
}

fn clone_ands(v: &Vec<Box<AndExprNode>>) -> (r: Vec<Box<AndExprNode>>)
    ensures
        v_ands(r@) == v_ands(v@),
    decreases *v,
{
    let mut r: Vec<Box<AndExprNode>> = Vec::new();
    let mut i: usize = 0;
    proof {
        assert(v@.take(0) =~= r@);
    }
    while i < v.len()
        invariant
            i <= v@.len(),
            v_ands(r@) == v_ands(v@.take(i as int)),
        decreases v@.len() - i,
    {
        let c = clone_and(&*v[i]);
        let ghost old_r = r@;
        let ghost gc = c;
        r.push(Box::new(c));
        proof {
            assert(r@ == old_r.push(Box::new(gc)));
            lemma_v_ands_push(old_r, Box::new(gc));
            assert(v@.take(i + 1) =~= v@.take(i as int).push(v@[i as int]));
            lemma_v_ands_push(v@.take(i as int), v@[i as int]);
        }
        i += 1;
    }
    proof {
        assert(v@.take(i as int) =~= v@);
    }
    r
}

fn clone_and(n: &AndExprNode) -> (r: AndExprNode)
    ensures
        v_and(r) == v_and(*n),
    decreases *n,
{
    proof {
        reveal_with_fuel(v_and, 1);
        reveal_with_fuel(v_compares, 1);
    }
    AndExprNode { nodes: clone_compares(&n.nodes) }
}

fn clone_compares(v: &Vec<Box<CompareExprNode>>) -> (r: Vec<Box<CompareExprNode>>)
    ensures
        v_compares(r@) == v_compares(v@),
    decreases *v,
{
    let mut r: Vec<Box<CompareExprNode>> = Vec::new();
    let mut i: usize = 0;
    proof {
        assert(v@.take(0) =~= r@);
    }
    while i < v.len()
        invariant
            i <= v@.len(),
            v_compares(r@) == v_compares(v@.take(i as int)),
        decreases v@.len() - i,
    {
        let c = clone_compare(&*v[i]);
        let ghost old_r = r@;
        let ghost gc = c;
        r.push(Box::new(c));
        proof {
            assert(r@ == old_r.push(Box::new(gc)));
            lemma_v_compares_push(old_r, Box::new(gc));
            assert(v@.take(i + 1) =~= v@.take(i as int).push(v@[i as int]));
            lemma_v_compares_push(v@.take(i as int), v@[i as int]);
        }
        i += 1;
    }
    proof {
        assert(v@.take(i as int) =~= v@);
    }
    r
}

fn clone_compare(n: &CompareExprNode) -> (r: CompareExprNode)
    ensures
        v_compare(r) == v_compare(*n),
    decreases *n,
{
    proof {
        reveal_with_fuel(v_compare, 1);
        reveal_with_fuel(v_compare_items, 1);
    }
    CompareExprNode { nodes: clone_compare_items(&n.nodes) }
}

fn clone_compare_item(n: &CompareExprItemNode) -> (r: CompareExprItemNode)
    ensures
        v_compare_item(r) == v_compare_item(*n),
    decreases *n,
{
    proof {
        reveal_with_fuel(v_compare_item, 1);
        reveal_with_fuel(v_addsub, 1);
    }
    match n {
        CompareExprItemNode::Left(b) => CompareExprItemNode::Left(Box::new(clone_addsub(&**b))),
        CompareExprItemNode::Op(op) => CompareExprItemNode::Op(*op),
        CompareExprItemNode::Right(b) => CompareExprItemNode::Right(Box::new(clone_addsub(&**b))),
    }
}

fn clone_compare_items(v: &Vec<CompareExprItemNode>) -> (r: Vec<CompareExprItemNode>)
    ensures
        v_compare_items(r@) == v_compare_items(v@),
    decreases *v,
{
    let mut r: Vec<CompareExprItemNode> = Vec::new();
    let mut i: usize = 0;
    proof {
        assert(v@.take(0) =~= r@);
    }
    while i < v.len()
        invariant
            i <= v@.len(),
            v_compare_items(r@) == v_compare_items(v@.take(i as int)),
        decreases v@.len() - i,
    {
        let c = clone_compare_item(&v[i]);
        let ghost old_r = r@;
        let ghost gc = c;
        r.push(c);
        proof {
            lemma_v_compare_items_push(old_r, gc);
            assert(v@.take(i + 1) =~= v@.take(i as int).push(v@[i as int]));
            lemma_v_compare_items_push(v@.take(i as int), v@[i as int]);
        }
        i += 1;
    }
    proof {
        assert(v@.take(i as int) =~= v@);
    }
    r
}

fn clone_addsub(n: &AddSubExprNode) -> (r: AddSubExprNode)
    ensures
        v_addsub(r) == v_addsub(*n),
    decreases *n,
{
    proof {
        reveal_with_fuel(v_addsub, 1);
        reveal_with_fuel(v_as_items, 1);
    }
    AddSubExprNode { nodes: clone_as_items(&n.nodes) }
}

fn clone_as_item(n: &AddSubExprItemNode) -> (r: AddSubExprItemNode)
    ensures
        v_as_item(r) == v_as_item(*n),
    decreases *n,
{
    proof {
        reveal_with_fuel(v_as_item, 1);
        reveal_with_fuel(v_muldiv, 1);
    }
    match n {
        AddSubExprItemNode::Left(b) => AddSubExprItemNode::Left(Box::new(clone_muldiv(&**b))),
        AddSubExprItemNode::Op(op) => AddSubExprItemNode::Op(*op),
        AddSubExprItemNode::Right(b) => AddSubExprItemNode::Right(Box::new(clone_muldiv(&**b))),
    }
}

fn clone_as_items(v: &Vec<AddSubExprItemNode>) -> (r: Vec<AddSubExprItemNode>)
    ensures
        v_as_items(r@) == v_as_items(v@),
    decreases *v,
{
    let mut r: Vec<AddSubExprItemNode> = Vec::new();
    let mut i: usize = 0;
    proof {
        assert(v@.take(0) =~= r@);
    }
    while i < v.len()
        invariant
            i <= v@.len(),
            v_as_items(r@) == v_as_items(v@.take(i as int)),
        decreases v@.len() - i,
    {
        let c = clone_as_item(&v[i]);
        let ghost old_r = r@;
        let ghost gc = c;
        r.push(c);
        proof {
            lemma_v_as_items_push(old_r, gc);
            assert(v@.take(i + 1) =~= v@.take(i as int).push(v@[i as int]));
            lemma_v_as_items_push(v@.take(i as int), v@[i as int]);
        }
        i += 1;
    }
    proof {
        assert(v@.take(i as int) =~= v@);
    }
    r
}

fn clone_muldiv(n: &MulDivExprNode) -> (r: MulDivExprNode)
    ensures
        v_muldiv(r) == v_muldiv(*n),
    decreases *n,
{
    proof {
        reveal_with_fuel(v_muldiv, 1);
        reveal_with_fuel(v_md_items, 1);
    }
    MulDivExprNode { nodes: clone_md_items(&n.nodes) }
}

fn clone_md_item(n: &MulDivExprItemNode) -> (r: MulDivExprItemNode)
    ensures
        v_md_item(r) == v_md_item(*n),
    decreases *n,
{
    proof {
        reveal_with_fuel(v_md_item, 1);
        reveal_with_fuel(v_operand, 1);
    }
    match n {
        MulDivExprItemNode::Left(b) => MulDivExprItemNode::Left(Box::new(clone_operand(&**b))),
        MulDivExprItemNode::Op(op) => MulDivExprItemNode::Op(*op),
        MulDivExprItemNode::Right(b) => MulDivExprItemNode::Right(Box::new(clone_operand(&**b))),
    }
}

fn clone_md_items(v: &Vec<MulDivExprItemNode>) -> (r: Vec<MulDivExprItemNode>)
    ensures
        v_md_items(r@) == v_md_items(v@),
    decreases *v,
{
    let mut r: Vec<MulDivExprItemNode> = Vec::new();
    let mut i: usize = 0;
    proof {
        assert(v@.take(0) =~= r@);
    }
    while i < v.len()
        invariant
            i <= v@.len(),
            v_md_items(r@) == v_md_items(v@.take(i as int)),
        decreases v@.len() - i,
    {
        let c = clone_md_item(&v[i]);
        let ghost old_r = r@;
        let ghost gc = c;
        r.push(c);
        proof {
            lemma_v_md_items_push(old_r, gc);
            assert(v@.take(i + 1) =~= v@.take(i as int).push(v@[i as int]));
            lemma_v_md_items_push(v@.take(i as int), v@[i as int]);
        }
        i += 1;
    }
    proof {
        assert(v@.take(i as int) =~= v@);
    }
    r
}

fn clone_operand(n: &OperandNode) -> (r: OperandNode)
    ensures
        v_operand(r) == v_operand(*n),
    decreases *n,
{
    proof {
        reveal_with_fuel(v_operand, 1);
        reveal_with_fuel(v_expr, 1);
    }
    OperandNode {
        i64_value: clone_opt_i64(&n.i64_value),
        f64_value: clone_opt_f64(&n.f64_value),
        bool_value: clone_opt_bool(&n.bool_value),
        string: clone_opt_string(&n.string),
        ident: clone_opt_ident(&n.ident),
        expr: match &n.expr {
            Some(b) => Some(Box::new(clone_expr(&**b))),
            None => None,
        },
        star: n.star,
    }
}


/// Copying a node keeps its view.
pub trait DeepCopy: View + Sized {
    fn deep_copy(&self) -> (r: Self)
        ensures
            r@ == self@,
    ;
}

pub fn copy_opt<T: DeepCopy>(o: &Option<Box<T>>) -> (r: Option<Box<T>>)
    ensures
        ov(r) == ov(*o),
{
    match o {
        Some(b) => Some(Box::new((**b).deep_copy())),
        None => None,
    }
}

pub fn copy_boxes<T: DeepCopy>(v: &Vec<Box<T>>) -> (r: Vec<Box<T>>)
    ensures
        sv(r@) == sv(v@),
{
    let mut r: Vec<Box<T>> = Vec::new();
    let mut i: usize = 0;
    while i < v.len()
        invariant
            i <= v@.len(),
            sv(r@) == sv(v@.take(i as int)),
        decreases v@.len() - i,
    {
        let c = (*v[i]).deep_copy();
        let ghost old_r = r@;
        let ghost gc = c;
        r.push(Box::new(c));
        proof {
            assert(sv(r@) =~= sv(old_r).push(gc@));
            assert(sv(v@.take(i + 1)) =~= sv(v@.take(i as int)).push(v@[i as int]@));
        }
        i += 1;
    }
    proof {
        assert(v@.take(i as int) =~= v@);
    }
    r
}

pub fn copy_column_types(v: &Vec<ColumnTypeNode>) -> (r: Vec<ColumnTypeNode>)
    ensures
        ctv(r@) == ctv(v@),
{
    let mut r: Vec<ColumnTypeNode> = Vec::new();
    let mut i: usize = 0;
    while i < v.len()
        invariant
            i <= v@.len(),
            ctv(r@) == ctv(v@.take(i as int)),
        decreases v@.len() - i,
    {
        let c = v[i].deep_copy();
        let ghost old_r = r@;
        let ghost gc = c;
        r.push(c);
        proof {
            assert(ctv(r@) =~= ctv(old_r).push(gc@));
            assert(ctv(v@.take(i + 1)) =~= ctv(v@.take(i as int)).push(v@[i as int]@));
        }
        i += 1;
    }
    proof {
        assert(v@.take(i as int) =~= v@);
    }
    r
}

impl DeepCopy for IdentNode {
    fn deep_copy(&self) -> (r: Self) {
        IdentNode { value: self.value.clone() }
    }
}

impl DeepCopy for StringNode {
    fn deep_copy(&self) -> (r: Self) {
        StringNode { value: self.value.clone() }
    }
}

impl DeepCopy for F64ValueNode {
    fn deep_copy(&self) -> (r: Self) {
        F64ValueNode { text: self.text.clone() }
    }
}

impl DeepCopy for I64ValueNode {
    fn deep_copy(&self) -> (r: Self) {
        *self
    }
}

impl DeepCopy for BoolValueNode {
    fn deep_copy(&self) -> (r: Self) {
        *self
    }
}

impl DeepCopy for ValueNode {
    fn deep_copy(&self) -> (r: Self) {
        ValueNode {
            i64_value: copy_opt(&self.i64_value),
            f64_value: copy_opt(&self.f64_value),
            bool_value: copy_opt(&self.bool_value),
            string: copy_opt(&self.string),
        }
    }
}

impl DeepCopy for ColumnTypeNode {
    fn deep_copy(&self) -> (r: Self) {
        match self {
            ColumnTypeNode::PrimaryKey => ColumnTypeNode::PrimaryKey,
            ColumnTypeNode::AutoIncrement => ColumnTypeNode::AutoIncrement,
            ColumnTypeNode::I64 => ColumnTypeNode::I64,
            ColumnTypeNode::F64 => ColumnTypeNode::F64,
            ColumnTypeNode::Bool => ColumnTypeNode::Bool,
            ColumnTypeNode::Char(n) => ColumnTypeNode::Char(*n),
            ColumnTypeNode::Default(v) => ColumnTypeNode::Default(Box::new((**v).deep_copy())),
        }
    }
}

impl DeepCopy for ExprNode {
    fn deep_copy(&self) -> (r: Self) {
        clone_expr(self)
    }
}

impl DeepCopy for AssExprNode {
    fn deep_copy(&self) -> (r: Self) {
        clone_ass(self)
    }
}

impl DeepCopy for FuncExprNode {
    fn deep_copy(&self) -> (r: Self) {
        clone_func(self)
    }
}

impl DeepCopy for OrExprNode {
    fn deep_copy(&self) -> (r: Self) {
        clone_or(self)
    }
}

impl DeepCopy for AndExprNode {
    fn deep_copy(&self) -> (r: Self) {
        clone_and(self)
    }
}

impl DeepCopy for CompareExprNode {
    fn deep_copy(&self) -> (r: Self) {
        clone_compare(self)
    }
}

impl DeepCopy for AddSubExprNode {
    fn deep_copy(&self) -> (r: Self) {
        clone_addsub(self)
    }
}

impl DeepCopy for MulDivExprNode {
    fn deep_copy(&self) -> (r: Self) {
        clone_muldiv(self)
    }
}

impl DeepCopy for OperandNode {
    fn deep_copy(&self) -> (r: Self) {
        clone_operand(self)
    }
}

impl DeepCopy for WhereClauseNode {
    fn deep_copy(&self) -> (r: Self) {
        WhereClauseNode { expr: copy_opt(&self.expr) }
    }
}

impl DeepCopy for LimitNode {
    fn deep_copy(&self) -> (r: Self) {
        LimitNode { expr: copy_opt(&self.expr) }
    }
}

impl DeepCopy for ExprListNode {
    fn deep_copy(&self) -> (r: Self) {
        ExprListNode { exprs: copy_boxes(&self.exprs) }
    }
}

impl DeepCopy for ParenIdentsNode {
    fn deep_copy(&self) -> (r: Self) {
        ParenIdentsNode { idents: copy_boxes(&self.idents) }
    }
}

impl DeepCopy for ParenValuesNode {
    fn deep_copy(&self) -> (r: Self) {
        ParenValuesNode { values: copy_boxes(&self.values) }
    }
}

impl DeepCopy for OrderByNode {
    fn deep_copy(&self) -> (r: Self) {
        OrderByNode { expr: copy_opt(&self.expr), is_asc: self.is_asc }
    }
}

// ---- reading the tokens ----

/// What a reader returned, as the contracts see it.
pub open spec fn viewed<T: View>(r: Result<Option<T>, Error>) -> Result<Option<T::V>, ErrorKind> {
    match r {
        Ok(Some(x)) => Ok(Some(x@)),
        Ok(None) => Ok(None),
        Err(e) => Err(e@),
    }
}

/// A reader's result and the position it left agree with the outcome `s`.
pub open spec fn reads<V>(r: Result<Option<V>, ErrorKind>, fin: int, s: Step<V>) -> bool {
    match s {
        Step::Fail(k) => r == Err::<Option<V>, ErrorKind>(k),
        Step::Done(o, j) => r == Ok::<Option<V>, ErrorKind>(o) && fin == j,
    }
}

/// A reader that succeeds leaves the parser where it started or later, and
/// past what it read.
pub open spec fn moves<T>(r: Result<Option<T>, Error>, before: usize, after: usize) -> bool {
    r is Ok ==> before <= after && (r->Ok_0 is Some ==> before < after)
}

pub fn parse_bool_value(tok_strm: &mut TokenStream) -> (r: Result<Option<Box<BoolValueNode>>, Error>)
    ensures
        final(tok_strm).tokens@ == old(tok_strm).tokens@,
        reads(viewed(r), final(tok_strm).index as int, syntax::bool_value(old(tok_strm).toks(), old(tok_strm).index as int)),
        moves(r, old(tok_strm).index, final(tok_strm).index),
{
    let mut n = BoolValueNode::new();

    if tok_strm.is_end() {
        return Ok(None);
    }

    let tok = tok_strm.get()?;
    if tok.kind == TokenKind::True {
        n.value = true;
    } else if tok.kind == TokenKind::False {
        n.value = false;
    } else {
        tok_strm.prev();
        return Ok(None);
    }

    Ok(Some(Box::new(n)))
}

pub fn parse_i64_value(tok_strm: &mut TokenStream) -> (r: Result<Option<Box<I64ValueNode>>, Error>)
    requires
        tokens_ok(old(tok_strm).toks()),
    ensures
        final(tok_strm).tokens@ == old(tok_strm).tokens@,
        reads(viewed(r), final(tok_strm).index as int, syntax::i64_value(old(tok_strm).toks(), old(tok_strm).index as int)),
        moves(r, old(tok_strm).index, final(tok_strm).index),
{
    let mut n = I64ValueNode::new();

    if tok_strm.is_end() {
        return Ok(None);
    }

    let ghost k = tok_strm.index as int;
    let tok = tok_strm.get()?;
    if tok.kind != TokenKind::Int {
        tok_strm.prev();
        return Ok(None);
    }
    proof {
        assert(syntax::token_ok(old(tok_strm).toks()[k]));
    }
    n.value = tok.i64_value.unwrap();

    Ok(Some(Box::new(n)))
}

pub fn parse_f64_value(tok_strm: &mut TokenStream) -> (r: Result<Option<Box<F64ValueNode>>, Error>)
    requires
        tokens_ok(old(tok_strm).toks()),
    ensures
        final(tok_strm).tokens@ == old(tok_strm).tokens@,
        reads(viewed(r), final(tok_strm).index as int, syntax::f64_value(old(tok_strm).toks(), old(tok_strm).index as int)),
        moves(r, old(tok_strm).index, final(tok_strm).index),
{
    let mut n = F64ValueNode::new();

    if tok_strm.is_end() {
        return Ok(None);
    }

    let ghost k = tok_strm.index as int;
    let tok = tok_strm.get()?;
    if tok.kind != TokenKind::Float {
        tok_strm.prev();
        return Ok(None);
    }
    proof {
        assert(syntax::token_ok(old(tok_strm).toks()[k]));
    }
    n.text = tok.text.clone().unwrap();

    Ok(Some(Box::new(n)))
}

pub fn parse_string(tok_strm: &mut TokenStream) -> (r: Result<Option<Box<StringNode>>, Error>)
    requires
        tokens_ok(old(tok_strm).toks()),
    ensures
        final(tok_strm).tokens@ == old(tok_strm).tokens@,
        reads(viewed(r), final(tok_strm).index as int, syntax::string(old(tok_strm).toks(), old(tok_strm).index as int)),
        moves(r, old(tok_strm).index, final(tok_strm).index),
{
    let mut n = StringNode::new();

    if tok_strm.is_end() {
        return Ok(None);
    }

    let ghost k = tok_strm.index as int;
    let tok = tok_strm.get()?;
    if tok.kind != TokenKind::String {
        tok_strm.prev();
        return Ok(None);
    }
    proof {
        assert(syntax::token_ok(old(tok_strm).toks()[k]));
    }
    n.value = tok.text.clone().unwrap();

    Ok(Some(Box::new(n)))
}

pub fn parse_ident(tok_strm: &mut TokenStream) -> (r: Result<Option<Box<IdentNode>>, Error>)
    requires
        tokens_ok(old(tok_strm).toks()),
    ensures
        final(tok_strm).tokens@ == old(tok_strm).tokens@,
        reads(viewed(r), final(tok_strm).index as int, syntax::ident(old(tok_strm).toks(), old(tok_strm).index as int)),
        moves(r, old(tok_strm).index, final(tok_strm).index),
{
    let mut n = IdentNode::new();

    if tok_strm.is_end() {
        return Ok(None);
    }

    let ghost k = tok_strm.index as int;
    let tok = tok_strm.get()?;
    if tok.kind != TokenKind::Ident {
        tok_strm.prev();
        return Ok(None);
    }
    proof {
        assert(syntax::token_ok(old(tok_strm).toks()[k]));
    }
    n.value = tok.text.clone().unwrap();

    Ok(Some(Box::new(n)))
}

pub fn parse_compare_op(tok_strm: &mut TokenStream) -> (r: Result<Option<Box<CompareOpNode>>, Error>)
    ensures
        final(tok_strm).tokens@ == old(tok_strm).tokens@,
        reads(viewed(r), final(tok_strm).index as int, syntax::compare_op(old(tok_strm).toks(), old(tok_strm).index as int)),
        moves(r, old(tok_strm).index, final(tok_strm).index),
{
    if tok_strm.is_end() {
        return Ok(None);
    }

    let tok = tok_strm.get()?;
    if tok.kind == TokenKind::Eq {
        return Ok(Some(Box::new(CompareOpNode::Eq)));
    } else if tok.kind == TokenKind::NotEq {
        return Ok(Some(Box::new(CompareOpNode::NotEq)));
    } else if tok.kind == TokenKind::Lt {
        return Ok(Some(Box::new(CompareOpNode::Lt)));
    } else if tok.kind == TokenKind::LtEq {
        return Ok(Some(Box::new(CompareOpNode::LtEq)));
    } else if tok.kind == TokenKind::Gt {
        return Ok(Some(Box::new(CompareOpNode::Gt)));
    } else if tok.kind == TokenKind::GtEq {
        return Ok(Some(Box::new(CompareOpNode::GtEq)));
    } else {
        tok_strm.prev();
        return Ok(None);
    }
}

pub fn parse_add_sub_op(tok_strm: &mut TokenStream) -> (r: Result<Option<AddSubOpNode>, Error>)
    ensures
        final(tok_strm).tokens@ == old(tok_strm).tokens@,
        reads(viewed(r), final(tok_strm).index as int, syntax::add_sub_op(old(tok_strm).toks(), old(tok_strm).index as int)),
        moves(r, old(tok_strm).index, final(tok_strm).index),
{
    let tok = tok_strm.get()?;

    if tok.kind == TokenKind::AddOp {
        return Ok(Some(AddSubOpNode::Add));
    } else if tok.kind == TokenKind::SubOp {
        return Ok(Some(AddSubOpNode::Sub));
    } else {
        tok_strm.prev();
        return Ok(None);
    }
}

pub fn parse_mul_div_op(tok_strm: &mut TokenStream) -> (r: Result<Option<MulDivOpNode>, Error>)
    ensures
        final(tok_strm).tokens@ == old(tok_strm).tokens@,
        reads(viewed(r), final(tok_strm).index as int, syntax::mul_div_op(old(tok_strm).toks(), old(tok_strm).index as int)),
        moves(r, old(tok_strm).index, final(tok_strm).index),
{
    let tok = tok_strm.get()?;

    if tok.kind == TokenKind::MulOp {
        return Ok(Some(MulDivOpNode::Mul));
    } else if tok.kind == TokenKind::DivOp {
        return Ok(Some(MulDivOpNode::Div));
    } else if tok.kind == TokenKind::ModOp {
        return Ok(Some(MulDivOpNode::Mod));
    } else {
        tok_strm.prev();
        return Ok(None);
    }
}

proof fn lemma_v_md_items_push(s: Seq<MulDivExprItemNode>, x: MulDivExprItemNode)
    ensures
        v_md_items(s.push(x)) == v_md_items(s).push(v_md_item(x)),
{
    reveal_with_fuel(v_md_items, 1);
    reveal_with_fuel(v_md_item, 1);
    reveal_with_fuel(v_operand, 1);
    assert(s.push(x).drop_last() =~= s);
}

proof fn lemma_v_as_items_push(s: Seq<AddSubExprItemNode>, x: AddSubExprItemNode)
    ensures
        v_as_items(s.push(x)) == v_as_items(s).push(v_as_item(x)),
{
    reveal_with_fuel(v_as_items, 1);
    reveal_with_fuel(v_as_item, 1);
    reveal_with_fuel(v_muldiv, 1);
    assert(s.push(x).drop_last() =~= s);
}

proof fn lemma_v_compare_items_push(s: Seq<CompareExprItemNode>, x: CompareExprItemNode)
    ensures
        v_compare_items(s.push(x)) == v_compare_items(s).push(v_compare_item(x)),
{
    reveal_with_fuel(v_compare_items, 1);
    reveal_with_fuel(v_compare_item, 1);
    reveal_with_fuel(v_addsub, 1);
    assert(s.push(x).drop_last() =~= s);
}

proof fn lemma_v_compares_push(s: Seq<Box<CompareExprNode>>, x: Box<CompareExprNode>)
    ensures
        v_compares(s.push(x)) == v_compares(s).push(v_compare(*x)),
{
    reveal_with_fuel(v_compares, 1);
    reveal_with_fuel(v_compare, 1);
    reveal_with_fuel(v_compare_items, 1);
    assert(s.push(x).drop_last() =~= s);
}

proof fn lemma_v_ors_push(s: Seq<Box<OrExprNode>>, x: Box<OrExprNode>)
    ensures
        v_ors(s.push(x)) == v_ors(s).push(v_or(*x)),
{
    reveal_with_fuel(v_ors, 1);
    reveal_with_fuel(v_or, 1);
    reveal_with_fuel(v_ands, 1);
    assert(s.push(x).drop_last() =~= s);
}

proof fn lemma_v_ands_push(s: Seq<Box<AndExprNode>>, x: Box<AndExprNode>)
    ensures
        v_ands(s.push(x)) == v_ands(s).push(v_and(*x)),
{
    reveal_with_fuel(v_ands, 1);
    reveal_with_fuel(v_and, 1);
    reveal_with_fuel(v_compares, 1);
    assert(s.push(x).drop_last() =~= s);
}

proof fn lemma_sv_push<T: View>(s: Seq<Box<T>>, x: Box<T>)
    ensures
        sv(s.push(x)) == sv(s).push(x@),
{
    assert(sv(s.push(x)) =~= sv(s).push(x@));
}

#[verifier::spinoff_prover]
pub fn parse_operand(tok_strm: &mut TokenStream) -> (r: Result<Option<Box<OperandNode>>, Error>)
    requires
        tokens_ok(old(tok_strm).toks()),
    ensures
        final(tok_strm).tokens@ == old(tok_strm).tokens@,
        reads(viewed(r), final(tok_strm).index as int, syntax::operand(old(tok_strm).toks(), old(tok_strm).index as int)),
        moves(r, old(tok_strm).index, final(tok_strm).index),
    decreases remaining(old(tok_strm).toks(), old(tok_strm).index as int), 7int,
{
    proof {
        reveal_with_fuel(v_operand, 1);
        reveal_with_fuel(v_expr, 1);
    }
    proof {
        reveal_with_fuel(syntax::operand, 1);
        reveal_with_fuel(syntax::expr, 1);
    }
    let mut n = OperandNode::new();

    if tok_strm.is_end() {
        return Ok(None);
    }

    let tok = tok_strm.get()?;
    if tok.kind == TokenKind::LParen {
        n.expr = parse_expr(tok_strm)?;
        if n.expr.is_none() {
            return Err(make_error(ErrorKind::Parse, "missing expression in operand"));
        }

        let tok = tok_strm.get()?;
        if tok.kind != TokenKind::RParen {
            return Err(make_error(ErrorKind::Parse, "missing ) in operand"));
        }

        return Ok(Some(Box::new(n)));
    } else {
        tok_strm.prev();

        n.i64_value = parse_i64_value(tok_strm)?;
        if n.i64_value.is_some() {
            return Ok(Some(Box::new(n)));
        }

        n.f64_value = parse_f64_value(tok_strm)?;
        if n.f64_value.is_some() {
            return Ok(Some(Box::new(n)));
        }

        n.bool_value = parse_bool_value(tok_strm)?;
        if n.bool_value.is_some() {
            return Ok(Some(Box::new(n)));
        }

        n.string = parse_string(tok_strm)?;
        if n.string.is_some() {
            return Ok(Some(Box::new(n)));
        }

        n.ident = parse_ident(tok_strm)?;
        if n.ident.is_some() {
            return Ok(Some(Box::new(n)));
        }

        let tok = tok_strm.get()?;
        if tok.kind == TokenKind::MulOp {
            n.star = true;
            return Ok(Some(Box::new(n)));
        }
        tok_strm.prev();

        return Ok(None);
    }
}

#[verifier::spinoff_prover]
pub fn parse_mul_div_expr(tok_strm: &mut TokenStream) -> (r: Result<Option<Box<MulDivExprNode>>, Error>)
    requires
        tokens_ok(old(tok_strm).toks()),
    ensures
        final(tok_strm).tokens@ == old(tok_strm).tokens@,
        reads(viewed(r), final(tok_strm).index as int, syntax::mul_div_expr(old(tok_strm).toks(), old(tok_strm).index as int)),
        moves(r, old(tok_strm).index, final(tok_strm).index),
    decreases remaining(old(tok_strm).toks(), old(tok_strm).index as int), 9int,
{
    proof {
        reveal_with_fuel(v_md_items, 1);
        reveal_with_fuel(v_md_item, 1);
        reveal_with_fuel(v_muldiv, 1);
        reveal_with_fuel(v_operand, 1);
    }
    proof {
        reveal_with_fuel(syntax::mul_div_expr, 1);
        reveal_with_fuel(syntax::mul_div_rest, 1);
        reveal_with_fuel(syntax::operand, 1);
    }
    let ghost t = tok_strm.toks();
    let ghost i0 = tok_strm.index as int;
    let mut n = MulDivExprNode::new();

    let left = parse_operand(tok_strm)?;
    if left.is_none() {
        return Ok(None);
    }
    let item = MulDivExprItemNode::Left(left.unwrap());
    proof {
        lemma_v_md_items_push(n.nodes@, item);
    }
    n.nodes.push(item);

    loop
        invariant
            tok_strm.tokens@ == old(tok_strm).tokens@,
            t == old(tok_strm).toks(),
            i0 == old(tok_strm).index,
            tokens_ok(t),
            i0 < tok_strm.index,
            syntax::mul_div_expr(t, i0) == syntax::mul_div_rest(t, tok_strm.index as int, v_md_items(n.nodes@)),
        ensures
            tok_strm.tokens@ == old(tok_strm).tokens@,
            i0 < tok_strm.index,
            syntax::mul_div_expr(t, i0) == Step::Done(Some(MulDivExpr { nodes: v_md_items(n.nodes@) }), tok_strm.index as int),
        decreases remaining(t, tok_strm.index as int),
    {
        proof {
            reveal_with_fuel(v_md_items, 1);
            reveal_with_fuel(v_md_item, 1);
            reveal_with_fuel(v_muldiv, 1);
            reveal_with_fuel(v_operand, 1);
        }
        proof {
            reveal_with_fuel(syntax::mul_div_rest, 1);
            reveal_with_fuel(syntax::operand, 1);
        }
        if tok_strm.is_end() {
            break;
        }
        let op = parse_mul_div_op(tok_strm)?;
        if op.is_none() {
            break;
        }
        let item = MulDivExprItemNode::Op(op.unwrap());
        proof {
            lemma_v_md_items_push(n.nodes@, item);
        }
        n.nodes.push(item);

        let right = parse_operand(tok_strm)?;
        if right.is_none() {
            return Err(make_error(ErrorKind::Parse, "missing mul div expr in add sub expr"));
        }
        let item = MulDivExprItemNode::Right(right.unwrap());
        proof {
            lemma_v_md_items_push(n.nodes@, item);
        }
        n.nodes.push(item);
    }

    Ok(Some(Box::new(n)))
}

#[verifier::spinoff_prover]
pub fn parse_add_sub_expr(tok_strm: &mut TokenStream) -> (r: Result<Option<Box<AddSubExprNode>>, Error>)
    requires
        tokens_ok(old(tok_strm).toks()),
    ensures
        final(tok_strm).tokens@ == old(tok_strm).tokens@,
        reads(viewed(r), final(tok_strm).index as int, syntax::add_sub_expr(old(tok_strm).toks(), old(tok_strm).index as int)),
        moves(r, old(tok_strm).index, final(tok_strm).index),
    decreases remaining(old(tok_strm).toks(), old(tok_strm).index as int), 11int,
{
    proof {
        reveal_with_fuel(v_as_items, 1);
        reveal_with_fuel(v_as_item, 1);
        reveal_with_fuel(v_addsub, 1);
        reveal_with_fuel(v_muldiv, 1);
    }
    proof {
        reveal_with_fuel(syntax::add_sub_expr, 1);
        reveal_with_fuel(syntax::add_sub_rest, 1);
        reveal_with_fuel(syntax::mul_div_expr, 1);
    }
    let ghost t = tok_strm.toks();
    let ghost i0 = tok_strm.index as int;
    let mut n = AddSubExprNode::new();

    let left = parse_mul_div_expr(tok_strm)?;
    if left.is_none() {
        return Ok(None);
    }
    let item = AddSubExprItemNode::Left(left.unwrap());
    proof {
        lemma_v_as_items_push(n.nodes@, item);
    }
    n.nodes.push(item);

    loop
        invariant
            tok_strm.tokens@ == old(tok_strm).tokens@,
            t == old(tok_strm).toks(),
            i0 == old(tok_strm).index,
            tokens_ok(t),
            i0 < tok_strm.index,
            syntax::add_sub_expr(t, i0) == syntax::add_sub_rest(t, tok_strm.index as int, v_as_items(n.nodes@)),
        ensures
            tok_strm.tokens@ == old(tok_strm).tokens@,
            i0 < tok_strm.index,
            syntax::add_sub_expr(t, i0) == Step::Done(Some(AddSubExpr { nodes: v_as_items(n.nodes@) }), tok_strm.index as int),
        decreases remaining(t, tok_strm.index as int),
    {
        proof {
            reveal_with_fuel(v_as_items, 1);
            reveal_with_fuel(v_as_item, 1);
            reveal_with_fuel(v_addsub, 1);
            reveal_with_fuel(v_muldiv, 1);
        }
        proof {
            reveal_with_fuel(syntax::add_sub_rest, 1);
            reveal_with_fuel(syntax::mul_div_expr, 1);
        }
        if tok_strm.is_end() {
            break;
        }
        let op = parse_add_sub_op(tok_strm)?;
        if op.is_none() {
            break;
        }
        let item = AddSubExprItemNode::Op(op.unwrap());
        proof {
            lemma_v_as_items_push(n.nodes@, item);
        }
        n.nodes.push(item);

        let right = parse_mul_div_expr(tok_strm)?;
        if right.is_none() {
            return Err(make_error(ErrorKind::Parse, "missing mul div expr in add sub expr"));
        }
        let item = AddSubExprItemNode::Right(right.unwrap());
        proof {
            lemma_v_as_items_push(n.nodes@, item);
        }
        n.nodes.push(item);
    }

    Ok(Some(Box::new(n)))
}

#[verifier::spinoff_prover]
pub fn parse_compare_expr(tok_strm: &mut TokenStream) -> (r: Result<Option<Box<CompareExprNode>>, Error>)
    requires
        tokens_ok(old(tok_strm).toks()),
    ensures
        final(tok_strm).tokens@ == old(tok_strm).tokens@,
        reads(viewed(r), final(tok_strm).index as int, syntax::compare_expr(old(tok_strm).toks(), old(tok_strm).index as int)),
        moves(r, old(tok_strm).index, final(tok_strm).index),
    decreases remaining(old(tok_strm).toks(), old(tok_strm).index as int), 13int,
{
    proof {
        reveal_with_fuel(v_compare_items, 1);
        reveal_with_fuel(v_compare_item, 1);
        reveal_with_fuel(v_compare, 1);
        reveal_with_fuel(v_addsub, 1);
    }
    proof {
        reveal_with_fuel(syntax::compare_expr, 1);
        reveal_with_fuel(syntax::compare_rest, 1);
        reveal_with_fuel(syntax::add_sub_expr, 1);
    }
    let ghost t = tok_strm.toks();
    let ghost i0 = tok_strm.index as int;
    let mut n = CompareExprNode::new();

    if tok_strm.is_end() {
        return Ok(None);
    }

    let left = parse_add_sub_expr(tok_strm)?;
    if left.is_none() {
        return Ok(None);
    }

    let node = CompareExprItemNode::Left(left.unwrap());
    proof {
        lemma_v_compare_items_push(n.nodes@, node);
    }
    n.nodes.push(node);

    loop
        invariant
            tok_strm.tokens@ == old(tok_strm).tokens@,
            t == old(tok_strm).toks(),
            i0 == old(tok_strm).index,
            tokens_ok(t),
            i0 < tok_strm.index,
            syntax::compare_expr(t, i0) == syntax::compare_rest(t, tok_strm.index as int, v_compare_items(n.nodes@)),
        ensures
            tok_strm.tokens@ == old(tok_strm).tokens@,
            i0 < tok_strm.index,
            syntax::compare_expr(t, i0) == Step::Done(Some(CompareExpr { nodes: v_compare_items(n.nodes@) }), tok_strm.index as int),
        decreases remaining(t, tok_strm.index as int),
    {
        proof {
            reveal_with_fuel(v_compare_items, 1);
            reveal_with_fuel(v_compare_item, 1);
            reveal_with_fuel(v_compare, 1);
            reveal_with_fuel(v_addsub, 1);
        }
        proof {
            reveal_with_fuel(syntax::compare_rest, 1);
            reveal_with_fuel(syntax::add_sub_expr, 1);
        }
        if tok_strm.is_end() {
            break;
        }
        let op = parse_compare_op(tok_strm)?;
        if op.is_none() {
            break;
        }

        let node = CompareExprItemNode::Op(*op.unwrap());
        proof {
            lemma_v_compare_items_push(n.nodes@, node);
        }
        n.nodes.push(node);

        let right = parse_add_sub_expr(tok_strm)?;
        if right.is_none() {
            return Err(make_error(ErrorKind::Parse, "missing right logic expr in compare expr"));
        }

        let node = CompareExprItemNode::Right(right.unwrap());
        proof {
            lemma_v_compare_items_push(n.nodes@, node);
        }
        n.nodes.push(node);
    }

    Ok(Some(Box::new(n)))
}

#[verifier::spinoff_prover]
pub fn parse_and_expr(tok_strm: &mut TokenStream) -> (r: Result<Option<Box<AndExprNode>>, Error>)
    requires
        tokens_ok(old(tok_strm).toks()),
    ensures
        final(tok_strm).tokens@ == old(tok_strm).tokens@,
        reads(viewed(r), final(tok_strm).index as int, syntax::and_expr(old(tok_strm).toks(), old(tok_strm).index as int)),
        moves(r, old(tok_strm).index, final(tok_strm).index),
    decreases remaining(old(tok_strm).toks(), old(tok_strm).index as int), 15int,
{
    proof {
        reveal_with_fuel(v_compares, 1);
        reveal_with_fuel(v_compare, 1);
        reveal_with_fuel(v_and, 1);
    }
    proof {
        reveal_with_fuel(syntax::and_expr, 1);
        reveal_with_fuel(syntax::and_rest, 1);
        reveal_with_fuel(syntax::compare_expr, 1);
    }
    let ghost t = tok_strm.toks();
    let ghost i0 = tok_strm.index as int;
    let mut n = AndExprNode::new();

    if tok_strm.is_end() {
        return Ok(None);
    }

    let compare_expr = parse_compare_expr(tok_strm)?;
    if compare_expr.is_none() {
        return Ok(None);
    }
    let c = compare_expr.unwrap();
    proof {
        lemma_v_compares_push(n.nodes@, c);
    }
    n.nodes.push(c);

    loop
        invariant
            tok_strm.tokens@ == old(tok_strm).tokens@,
            t == old(tok_strm).toks(),
            i0 == old(tok_strm).index,
            tokens_ok(t),
            i0 < tok_strm.index,
            syntax::and_expr(t, i0) == syntax::and_rest(t, tok_strm.index as int, v_compares(n.nodes@)),
        ensures
            tok_strm.tokens@ == old(tok_strm).tokens@,
            i0 < tok_strm.index,
            syntax::and_expr(t, i0) == Step::Done(Some(AndExpr { nodes: v_compares(n.nodes@) }), tok_strm.index as int),
        decreases remaining(t, tok_strm.index as int),
    {
        proof {
            reveal_with_fuel(v_compares, 1);
            reveal_with_fuel(v_compare, 1);
            reveal_with_fuel(v_and, 1);
        }
        proof {
            reveal_with_fuel(syntax::and_rest, 1);
            reveal_with_fuel(syntax::compare_expr, 1);
        }
        if tok_strm.is_end() {
            break;
        }
        let tok = tok_strm.get()?;
        if tok.kind != TokenKind::And {
            tok_strm.prev();
            break;
        }

        let compare_expr = parse_compare_expr(tok_strm)?;
        if compare_expr.is_none() {
            return Err(make_error(ErrorKind::Parse, "failed to parse and expr in or expr"));
        }
        let c = compare_expr.unwrap();
        proof {
            lemma_v_compares_push(n.nodes@, c);
        }
        n.nodes.push(c);
    }

    Ok(Some(Box::new(n)))
}

#[verifier::spinoff_prover]
pub fn parse_or_expr(tok_strm: &mut TokenStream) -> (r: Result<Option<Box<OrExprNode>>, Error>)
    requires
        tokens_ok(old(tok_strm).toks()),
    ensures
        final(tok_strm).tokens@ == old(tok_strm).tokens@,
        reads(viewed(r), final(tok_strm).index as int, syntax::or_expr(old(tok_strm).toks(), old(tok_strm).index as int)),
        moves(r, old(tok_strm).index, final(tok_strm).index),
    decreases remaining(old(tok_strm).toks(), old(tok_strm).index as int), 17int,
{
    proof {
        reveal_with_fuel(v_ands, 1);
        reveal_with_fuel(v_and, 1);
        reveal_with_fuel(v_or, 1);
    }
    proof {
        reveal_with_fuel(syntax::or_expr, 1);
        reveal_with_fuel(syntax::or_rest, 1);
        reveal_with_fuel(syntax::and_expr, 1);
    }
    let ghost t = tok_strm.toks();
    let ghost i0 = tok_strm.index as int;
    let mut n = OrExprNode::new();

    if tok_strm.is_end() {
        return Ok(None);
    }

    let and_expr = parse_and_expr(tok_strm)?;
    if and_expr.is_none() {
        return Ok(None);
    }
    let a = and_expr.unwrap();
    proof {
        lemma_v_ands_push(n.nodes@, a);
    }
    n.nodes.push(a);

    loop
        invariant
            tok_strm.tokens@ == old(tok_strm).tokens@,
            t == old(tok_strm).toks(),
            i0 == old(tok_strm).index,
            tokens_ok(t),
            i0 < tok_strm.index,
            syntax::or_expr(t, i0) == syntax::or_rest(t, tok_strm.index as int, v_ands(n.nodes@)),
        ensures
            tok_strm.tokens@ == old(tok_strm).tokens@,
            i0 < tok_strm.index,
            syntax::or_expr(t, i0) == Step::Done(Some(OrExpr { nodes: v_ands(n.nodes@) }), tok_strm.index as int),
        decreases remaining(t, tok_strm.index as int),
    {
        proof {
            reveal_with_fuel(v_ands, 1);
            reveal_with_fuel(v_and, 1);
            reveal_with_fuel(v_or, 1);
        }
        proof {
            reveal_with_fuel(syntax::or_rest, 1);
            reveal_with_fuel(syntax::and_expr, 1);
        }
        if tok_strm.is_end() {
            break;
        }
        let tok = tok_strm.get()?;
        if tok.kind != TokenKind::Or {
            tok_strm.prev();
            break;
        }

        let and_expr = parse_and_expr(tok_strm)?;
        if and_expr.is_none() {
            return Err(make_error(ErrorKind::Parse, "failed to parse and expr in or expr"));
        }
        let a = and_expr.unwrap();
        proof {
            lemma_v_ands_push(n.nodes@, a);
        }
        n.nodes.push(a);
    }

    Ok(Some(Box::new(n)))
}

/// An or-expression as the plain form of a function expression.
fn plain_func_expr(o: Box<OrExprNode>) -> (f: Box<FuncExprNode>)
    ensures
        f@ == syntax::plain(o@),
{
    proof {
        reveal_with_fuel(v_ors, 1);
        reveal_with_fuel(v_or, 1);
        reveal_with_fuel(v_func, 1);
        reveal_with_fuel(v_ands, 1);
    }
    let f = FuncExprNode { ident: None, or_exprs: Vec::new(), or_expr: Some(o) };
    proof {
        assert(v_ors(f.or_exprs@) =~= Seq::<OrExpr>::empty());
    }
    Box::new(f)
}

#[verifier::spinoff_prover]
pub fn parse_ass_expr(tok_strm: &mut TokenStream) -> (r: Result<Option<Box<AssExprNode>>, Error>)
    requires
        tokens_ok(old(tok_strm).toks()),
    ensures
        final(tok_strm).tokens@ == old(tok_strm).tokens@,
        reads(viewed(r), final(tok_strm).index as int, syntax::ass_expr(old(tok_strm).toks(), old(tok_strm).index as int)),
        moves(r, old(tok_strm).index, final(tok_strm).index),
    decreases remaining(old(tok_strm).toks(), old(tok_strm).index as int), 19int,
{
    proof {
        reveal_with_fuel(v_ass, 1);
        reveal_with_fuel(v_func, 1);
    }
    proof {
        reveal_with_fuel(syntax::ass_expr, 1);
        reveal_with_fuel(syntax::or_expr, 1);
    }
    let ghost t = tok_strm.toks();
    let ghost i0 = tok_strm.index as int;

    if tok_strm.is_end() {
        return Ok(None);
    }

    let left_or_expr = parse_or_expr(tok_strm)?;
    let l = match left_or_expr {
        None => {
            return Ok(None);
        },
        Some(l) => l,
    };
    let ghost lv = l@;
    let ghost j = tok_strm.index as int;
    proof {
        assert(syntax::or_expr(t, i0) == Step::Done(Some(lv), j));
        assert(i0 < j);
    }
    let left = plain_func_expr(l);

    if tok_strm.is_end() {
        return Ok(Some(Box::new(AssExprNode { left_func_expr: Some(left), right_func_expr: None })));
    }

    let tok = tok_strm.get()?;
    if tok.kind != TokenKind::Assign {
        tok_strm.prev();
        return Ok(Some(Box::new(AssExprNode { left_func_expr: Some(left), right_func_expr: None })));
    }

    let right_or_expr = parse_or_expr(tok_strm)?;
    let r = match right_or_expr {
        None => {
            return Err(make_error(ErrorKind::Parse, "missing right hand operand in ass expr"));
        },
        Some(r) => r,
    };
    let right = plain_func_expr(r);

    Ok(Some(Box::new(AssExprNode { left_func_expr: Some(left), right_func_expr: Some(right) })))
}

#[verifier::spinoff_prover]
pub fn parse_expr(tok_strm: &mut TokenStream) -> (r: Result<Option<Box<ExprNode>>, Error>)
    requires
        tokens_ok(old(tok_strm).toks()),
    ensures
        final(tok_strm).tokens@ == old(tok_strm).tokens@,
        reads(viewed(r), final(tok_strm).index as int, syntax::expr(old(tok_strm).toks(), old(tok_strm).index as int)),
        moves(r, old(tok_strm).index, final(tok_strm).index),
    decreases remaining(old(tok_strm).toks(), old(tok_strm).index as int), 20int,
{
    proof {
        reveal_with_fuel(v_expr, 1);
        reveal_with_fuel(v_ass, 1);
    }
    proof {
        reveal_with_fuel(syntax::expr, 1);
        reveal_with_fuel(syntax::ass_expr, 1);
    }
    let mut n = ExprNode::new();

    if tok_strm.is_end() {
        return Ok(None);
    }

    n.ass_expr = parse_ass_expr(tok_strm)?;
    if n.ass_expr.is_none() {
        return Ok(None);
    }

    Ok(Some(Box::new(n)))
}

proof fn lemma_ctv_push(s: Seq<ColumnTypeNode>, x: ColumnTypeNode)
    ensures
        ctv(s.push(x)) == ctv(s).push(x@),
{
    assert(ctv(s.push(x)) =~= ctv(s).push(x@));
}

pub fn parse_expr_list(tok_strm: &mut TokenStream) -> (r: Result<Option<Box<ExprListNode>>, Error>)
    requires
        tokens_ok(old(tok_strm).toks()),
    ensures
        final(tok_strm).tokens@ == old(tok_strm).tokens@,
        reads(viewed(r), final(tok_strm).index as int, syntax::expr_list(old(tok_strm).toks(), old(tok_strm).index as int)),
        r matches Ok(Some(_)) ==> old(tok_strm).index < final(tok_strm).index,
{
    let ghost t = tok_strm.toks();
    let ghost i0 = tok_strm.index as int;
    let mut n = ExprListNode::new();

    if tok_strm.is_end() {
        return Ok(None);
    }

    let expr = parse_expr(tok_strm)?;
    if expr.is_none() {
        tok_strm.prev();
        return Ok(None);
    }
    let e = expr.unwrap();
    proof {
        lemma_sv_push(n.exprs@, e);
    }
    n.exprs.push(e);

    while !tok_strm.is_end()
        invariant_except_break
            syntax::expr_list(t, i0) == syntax::expr_list_rest(t, tok_strm.index as int, sv(n.exprs@)),
        invariant
            tok_strm.tokens@ == old(tok_strm).tokens@,
            t == old(tok_strm).toks(),
            i0 == old(tok_strm).index,
            tokens_ok(t),
            i0 < tok_strm.index,
        ensures
            tok_strm.tokens@ == old(tok_strm).tokens@,
            i0 < tok_strm.index,
            syntax::expr_list(t, i0) == Step::Done(Some(ExprList { exprs: sv(n.exprs@) }), tok_strm.index as int),
        decreases remaining(t, tok_strm.index as int),
    {
        let tok = tok_strm.get()?;
        if tok.kind != TokenKind::Comma {
            tok_strm.prev();
            break;
        }

        let expr = parse_expr(tok_strm)?;
        if expr.is_none() {
            break;
        }
        let e = expr.unwrap();
        proof {
            lemma_sv_push(n.exprs@, e);
        }
        n.exprs.push(e);
    }

    Ok(Some(Box::new(n)))
}

pub fn parse_where_clause(tok_strm: &mut TokenStream) -> (r: Result<Option<Box<WhereClauseNode>>, Error>)
    requires
        tokens_ok(old(tok_strm).toks()),
    ensures
        final(tok_strm).tokens@ == old(tok_strm).tokens@,
        reads(viewed(r), final(tok_strm).index as int, syntax::where_clause(old(tok_strm).toks(), old(tok_strm).index as int)),
        moves(r, old(tok_strm).index, final(tok_strm).index),
{
    let mut n = WhereClauseNode::new();

    if tok_strm.is_end() {
        return Ok(None);
    }

    let tok = tok_strm.get()?;
    if tok.kind != TokenKind::Where {
        tok_strm.prev();
        return Ok(None);
    }

    n.expr = parse_expr(tok_strm)?;

    Ok(Some(Box::new(n)))
}

pub fn parse_limit(tok_strm: &mut TokenStream) -> (r: Result<Option<Box<LimitNode>>, Error>)
    requires
        tokens_ok(old(tok_strm).toks()),
    ensures
        final(tok_strm).tokens@ == old(tok_strm).tokens@,
        reads(viewed(r), final(tok_strm).index as int, syntax::limit(old(tok_strm).toks(), old(tok_strm).index as int)),
        moves(r, old(tok_strm).index, final(tok_strm).index),
{
    if tok_strm.is_end() {
        return Ok(None);
    }

    let tok = tok_strm.get()?;
    if tok.kind != TokenKind::Limit {
        tok_strm.prev();
        return Ok(None);
    }

    let mut n = LimitNode::new();

    n.expr = parse_expr(tok_strm)?;
    if n.expr.is_none() {
        return Err(make_error(ErrorKind::Parse, "missing expr in limit"));
    }

    Ok(Some(Box::new(n)))
}

pub fn parse_value(tok_strm: &mut TokenStream) -> (r: Result<Option<Box<ValueNode>>, Error>)
    requires
        tokens_ok(old(tok_strm).toks()),
    ensures
        final(tok_strm).tokens@ == old(tok_strm).tokens@,
        reads(viewed(r), final(tok_strm).index as int, syntax::value(old(tok_strm).toks(), old(tok_strm).index as int)),
{
    let mut n = ValueNode::new();

    n.i64_value = parse_i64_value(tok_strm)?;
    if n.i64_value.is_some() {
        return Ok(Some(Box::new(n)));
    }

    n.f64_value = parse_f64_value(tok_strm)?;
    if n.f64_value.is_some() {
        return Ok(Some(Box::new(n)));
    }

    n.bool_value = parse_bool_value(tok_strm)?;
    if n.bool_value.is_some() {
        return Ok(Some(Box::new(n)));
    }

    n.string = parse_string(tok_strm)?;
    if n.string.is_some() {
        return Ok(Some(Box::new(n)));
    }

    Ok(None)
}

pub fn parse_column_type(tok_strm: &mut TokenStream) -> (r: Result<Option<ColumnTypeNode>, Error>)
    requires
        tokens_ok(old(tok_strm).toks()),
    ensures
        final(tok_strm).tokens@ == old(tok_strm).tokens@,
        reads(viewed(r), final(tok_strm).index as int, syntax::column_type(old(tok_strm).toks(), old(tok_strm).index as int)),
        moves(r, old(tok_strm).index, final(tok_strm).index),
{
    if tok_strm.is_end() {
        return Ok(None);
    }

    let tok = tok_strm.get()?;
    if tok.kind == TokenKind::PrimaryKey {
        return Ok(Some(ColumnTypeNode::PrimaryKey));
    } else if tok.kind == TokenKind::AutoIncrement {
        return Ok(Some(ColumnTypeNode::AutoIncrement));
    } else if tok.kind == TokenKind::TypeI64 {
        return Ok(Some(ColumnTypeNode::I64));
    } else if tok.kind == TokenKind::TypeF64 {
        return Ok(Some(ColumnTypeNode::F64));
    } else if tok.kind == TokenKind::Bool {
        return Ok(Some(ColumnTypeNode::Bool));
    } else if tok.kind == TokenKind::Char {
        let tok = tok_strm.get()?;
        if tok.kind != TokenKind::LBracket {
            return Err(make_error(ErrorKind::Parse, "missing [ in char of column type"));
        }

        let i64_value = parse_i64_value(tok_strm)?;
        if i64_value.is_none() {
            return Err(make_error(ErrorKind::Parse, "missing number of char in column type"));
        }

        let tok = tok_strm.get()?;
        if tok.kind != TokenKind::RBracket {
            return Err(make_error(ErrorKind::Parse, "missing ] in char of column type"));
        }

        let value = i64_value.unwrap().value as usize;
        return Ok(Some(ColumnTypeNode::Char(value)));
    } else if tok.kind == TokenKind::Default {
        let value = parse_value(tok_strm)?;
        if value.is_none() {
            return Err(make_error(ErrorKind::Parse, "missing value of default attribute"));
        }

        return Ok(Some(ColumnTypeNode::Default(value.unwrap())));
    }

    tok_strm.prev();
    Ok(None)
}

/// The first attribute of a column must be its type.
fn check_first_column_type(column_type: &Option<ColumnTypeNode>) -> (r: Result<(), Error>)
    ensures
        r is Ok <==> (column_type is None || syntax::first_column_type_ok(column_type->0@)),
        r is Err ==> r->Err_0@ == ErrorKind::Parse,
{
    if let Some(column_type) = column_type {
        match column_type {
            ColumnTypeNode::I64 | ColumnTypeNode::F64 | ColumnTypeNode::Bool | ColumnTypeNode::Char(_) => {},
            _ => return Err(make_error(ErrorKind::Parse, "invalid first column type")),
        }
    }
    Ok(())
}

pub fn parse_column_definition(tok_strm: &mut TokenStream) -> (r: Result<Option<Box<ColumnDefinitionNode>>, Error>)
    requires
        tokens_ok(old(tok_strm).toks()),
    ensures
        final(tok_strm).tokens@ == old(tok_strm).tokens@,
        reads(viewed(r), final(tok_strm).index as int, syntax::column_definition(old(tok_strm).toks(), old(tok_strm).index as int)),
        moves(r, old(tok_strm).index, final(tok_strm).index),
{
    let ghost t = tok_strm.toks();
    let ghost i0 = tok_strm.index as int;
    let mut n = ColumnDefinitionNode::new();

    if tok_strm.is_end() {
        return Ok(None);
    }

    let i = tok_strm.index;

    n.ident = parse_ident(tok_strm)?;
    if n.ident.is_none() {
        tok_strm.index = i;
        return Ok(None);
    }

    let tok = tok_strm.get()?;
    if tok.kind != TokenKind::Colon {
        tok_strm.index = i;
        return Ok(None);
    }

    let column_type = parse_column_type(tok_strm)?;
    if column_type.is_none() {
        return Err(make_error(ErrorKind::Parse, "missing column type in column definition"));
    }
    check_first_column_type(&column_type)?;
    let c = column_type.unwrap();
    proof {
        lemma_ctv_push(n.column_types@, c);
    }
    n.column_types.push(c);

    while !tok_strm.is_end()
        invariant
            tok_strm.tokens@ == old(tok_strm).tokens@,
            t == old(tok_strm).toks(),
            i0 == old(tok_strm).index,
            tokens_ok(t),
            i0 < tok_strm.index,
            n@.ident == Some(t[i0].text->0),
            syntax::column_definition(t, i0) == (match syntax::column_types_rest(t, tok_strm.index as int, ctv(n.column_types@)) {
                Step::Fail(k) => Step::Fail(k),
                Step::Done(cs, k) => Step::Done(Some(ColumnDefinition { ident: Some(t[i0].text->0), column_types: cs->0 }), k),
            }),
        ensures
            tok_strm.tokens@ == old(tok_strm).tokens@,
            i0 < tok_strm.index,
            n@.ident == Some(t[i0].text->0),
            syntax::column_definition(t, i0) == Step::Done(Some(n@), tok_strm.index as int),
        decreases remaining(t, tok_strm.index as int),
    {
        let column_type = parse_column_type(tok_strm)?;
        if column_type.is_none() {
            break;
        }
        let c = column_type.unwrap();
        proof {
            lemma_ctv_push(n.column_types@, c);
        }
        n.column_types.push(c);
    }

    Ok(Some(Box::new(n)))
}

pub fn parse_create_table(tok_strm: &mut TokenStream) -> (r: Result<Option<Box<CreateTableNode>>, Error>)
    requires
        tokens_ok(old(tok_strm).toks()),
    ensures
        final(tok_strm).tokens@ == old(tok_strm).tokens@,
        reads(viewed(r), final(tok_strm).index as int, syntax::create_table(old(tok_strm).toks(), old(tok_strm).index as int)),
        moves(r, old(tok_strm).index, final(tok_strm).index),
{
    let ghost t = tok_strm.toks();
    let ghost i0 = tok_strm.index as int;
    let mut n = CreateTableNode::new();

    if tok_strm.is_end() {
        return Ok(None);
    }

    let i = tok_strm.index;

    let tok = tok_strm.get()?;
    if tok.kind != TokenKind::Create {
        tok_strm.index = i;
        return Ok(None);
    }

    let tok = tok_strm.get()?;
    if tok.kind != TokenKind::Table {
        tok_strm.index = i;
        return Ok(None);
    }

    n.ident = parse_ident(tok_strm)?;
    if n.ident.is_none() {
        return Err(make_error(ErrorKind::Parse, "missing table name in create table"));
    }

    let tok = tok_strm.get()?;
    if tok.kind != TokenKind::LParen {
        return Err(make_error(ErrorKind::Parse, "missing ( in create table"));
    }

    let column_definition = parse_column_definition(tok_strm)?;
    if column_definition.is_none() {
        return Err(make_error(ErrorKind::Parse, "missing column definition in create table"));
    }
    let d = column_definition.unwrap();
    let ghost d0 = d@;
    let ghost j0 = tok_strm.index as int;
    proof {
        lemma_sv_push(n.column_definitions@, d);
    }
    n.column_definitions.push(d);

    while !tok_strm.is_end()
        invariant_except_break
            syntax::column_definitions_rest(t, j0, seq![d0])
                == syntax::column_definitions_rest(t, tok_strm.index as int, sv(n.column_definitions@)),
        invariant
            tok_strm.tokens@ == old(tok_strm).tokens@,
            t == old(tok_strm).toks(),
            i0 == old(tok_strm).index,
            tokens_ok(t),
            syntax::is_at(t, i0, TokenKind::Create),
            syntax::is_at(t, i0 + 1, TokenKind::Table),
            syntax::is_at(t, i0 + 2, TokenKind::Ident),
            syntax::is_at(t, i0 + 3, TokenKind::LParen),
            syntax::column_definition(t, i0 + 4) == Step::Done(Some(d0), j0),
            i0 + 4 < j0 <= tok_strm.index,
            n@.ident == Some(t[i0 + 2].text->0),
        ensures
            tok_strm.tokens@ == old(tok_strm).tokens@,
            j0 <= tok_strm.index,
            n@.ident == Some(t[i0 + 2].text->0),
            syntax::column_definitions_rest(t, j0, seq![d0])
                == Step::Done(Some(sv(n.column_definitions@)), tok_strm.index as int),
        decreases remaining(t, tok_strm.index as int),
    {
        let tok = tok_strm.get()?;
        if tok.kind != TokenKind::Comma {
            tok_strm.prev();
            break;
        }

        if tok_strm.is_end() {
            break;
        }

        let column_definition = parse_column_definition(tok_strm)?;
        if column_definition.is_none() {
            break;
        }
        let d = column_definition.unwrap();
        proof {
            lemma_sv_push(n.column_definitions@, d);
        }
        n.column_definitions.push(d);
    }

    let tok = tok_strm.get()?;
    if tok.kind != TokenKind::RParen {
        return Err(make_error(ErrorKind::Parse, "missing ) in create table"));
    }

    Ok(Some(Box::new(n)))
}

pub fn parse_create_database(tok_strm: &mut TokenStream) -> (r: Result<Option<Box<CreateDatabaseNode>>, Error>)
    requires
        tokens_ok(old(tok_strm).toks()),
    ensures
        final(tok_strm).tokens@ == old(tok_strm).tokens@,
        reads(viewed(r), final(tok_strm).index as int, syntax::create_database(old(tok_strm).toks(), old(tok_strm).index as int)),
        moves(r, old(tok_strm).index, final(tok_strm).index),
{
    let mut n = CreateDatabaseNode::new();

    if tok_strm.is_end() {
        return Ok(None);
    }

    let i = tok_strm.index;

    let tok = tok_strm.get()?;
    if tok.kind != TokenKind::Create {
        tok_strm.index = i;
        return Ok(None);
    }

    let tok = tok_strm.get()?;
    if tok.kind != TokenKind::Database {
        tok_strm.index = i;
        return Ok(None);
    }

    n.ident = parse_ident(tok_strm)?;
    if n.ident.is_none() {
        return Err(make_error(ErrorKind::Parse, "missing database name"));
    }

    Ok(Some(Box::new(n)))
}

pub fn parse_create_stmt(tok_strm: &mut TokenStream) -> (r: Result<Option<Box<CreateStmtNode>>, Error>)
    requires
        tokens_ok(old(tok_strm).toks()),
    ensures
        final(tok_strm).tokens@ == old(tok_strm).tokens@,
        reads(viewed(r), final(tok_strm).index as int, syntax::create_stmt(old(tok_strm).toks(), old(tok_strm).index as int)),
        moves(r, old(tok_strm).index, final(tok_strm).index),
{
    let mut n = CreateStmtNode::new();

    n.create_database = parse_create_database(tok_strm)?;
    if !n.create_database.is_none() {
        return Ok(Some(Box::new(n)));
    }

    n.create_table = parse_create_table(tok_strm)?;
    if !n.create_table.is_none() {
        return Ok(Some(Box::new(n)));
    }

    Ok(None)
}

pub fn parse_use_stmt(tok_strm: &mut TokenStream) -> (r: Result<Option<Box<UseStmtNode>>, Error>)
    requires
        tokens_ok(old(tok_strm).toks()),
    ensures
        final(tok_strm).tokens@ == old(tok_strm).tokens@,
        reads(viewed(r), final(tok_strm).index as int, syntax::use_stmt(old(tok_strm).toks(), old(tok_strm).index as int)),
        moves(r, old(tok_strm).index, final(tok_strm).index),
{
    let mut n = UseStmtNode::new();

    let tok = tok_strm.get()?;
    if tok.kind != TokenKind::Use {
        tok_strm.prev();
        return Ok(None);
    }

    n.db_name = parse_ident(tok_strm)?;
    if n.db_name.is_none() {
        return Err(make_error(ErrorKind::Parse, "missing database name"));
    }

    Ok(Some(Box::new(n)))
}

pub fn parse_show_stmt(tok_strm: &mut TokenStream) -> (r: Result<Option<Box<ShowStmtNode>>, Error>)
    ensures
        final(tok_strm).tokens@ == old(tok_strm).tokens@,
        reads(viewed(r), final(tok_strm).index as int, syntax::show_stmt(old(tok_strm).toks(), old(tok_strm).index as int)),
        moves(r, old(tok_strm).index, final(tok_strm).index),
{
    let mut n = ShowStmtNode::new();

    let tok = tok_strm.get()?;
    if tok.kind != TokenKind::Show {
        tok_strm.prev();
        return Ok(None);
    }

    let tok = tok_strm.get()?;
    if tok.kind == TokenKind::Tables {
        n.tables = true;
    } else if tok.kind == TokenKind::Databases {
        n.databases = true;
    } else {
        return Err(make_error(ErrorKind::Parse, "invalid state: show stmt"));
    }

    Ok(Some(Box::new(n)))
}

fn parse_if_exists(tok_strm: &mut TokenStream) -> (r: Result<bool, Error>)
    ensures
        final(tok_strm).tokens@ == old(tok_strm).tokens@,
        match syntax::if_exists(old(tok_strm).toks(), old(tok_strm).index as int) {
            Ok((b, j)) => r == Ok::<bool, Error>(b) && final(tok_strm).index == j,
            Err(k) => r is Err && r->Err_0@ == k,
        },
{
    let tok = tok_strm.get()?;
    if tok.kind == TokenKind::If {
        let tok = tok_strm.get()?;
        if tok.kind != TokenKind::Exists {
            return Err(make_error(ErrorKind::Parse, "invalid syntax. missing 'exists'"));
        }
        return Ok(true);
    } else {
        tok_strm.prev();
        return Ok(false);
    }
}

pub fn parse_drop_stmt(tok_strm: &mut TokenStream) -> (r: Result<Option<Box<DropStmtNode>>, Error>)
    requires
        tokens_ok(old(tok_strm).toks()),
    ensures
        final(tok_strm).tokens@ == old(tok_strm).tokens@,
        reads(viewed(r), final(tok_strm).index as int, syntax::drop_stmt(old(tok_strm).toks(), old(tok_strm).index as int)),
        moves(r, old(tok_strm).index, final(tok_strm).index),
{
    let mut n = DropStmtNode::new();

    let tok = tok_strm.get()?;
    if tok.kind != TokenKind::Drop {
        tok_strm.prev();
        return Ok(None);
    }

    let tok = tok_strm.get()?;
    if tok.kind == TokenKind::Table {
        n.if_exists = parse_if_exists(tok_strm)?;
        n.table_name = parse_ident(tok_strm)?;
    } else if tok.kind == TokenKind::Database {
        n.if_exists = parse_if_exists(tok_strm)?;
        n.db_name = parse_ident(tok_strm)?;
    } else {
        return Err(make_error(ErrorKind::Parse, "invalid state: drop stmt"));
    }

    Ok(Some(Box::new(n)))
}

pub fn parse_alter_drop_column(tok_strm: &mut TokenStream) -> (r: Result<Option<Box<AlterDropColumnNode>>, Error>)
    requires
        tokens_ok(old(tok_strm).toks()),
    ensures
        final(tok_strm).tokens@ == old(tok_strm).tokens@,
        reads(viewed(r), final(tok_strm).index as int, syntax::alter_drop_column(old(tok_strm).toks(), old(tok_strm).index as int)),
        moves(r, old(tok_strm).index, final(tok_strm).index),
{
    let mut n = AlterDropColumnNode::new();

    let tok = tok_strm.get()?;
    if tok.kind != TokenKind::Drop {
        tok_strm.prev();
        return Ok(None);
    }

    let tok = tok_strm.get()?;
    if tok.kind != TokenKind::Column {
        tok_strm.prev();
        return Ok(None);
    }

    n.ident = parse_ident(tok_strm)?;
    if n.ident.is_none() {
        return Err(make_error(ErrorKind::Parse, "missing column name in drop column stmt"));
    }

    Ok(Some(Box::new(n)))
}

pub fn parse_alter_add_column(tok_strm: &mut TokenStream) -> (r: Result<Option<Box<AlterAddColumnNode>>, Error>)
    requires
        tokens_ok(old(tok_strm).toks()),
    ensures
        final(tok_strm).tokens@ == old(tok_strm).tokens@,
        reads(viewed(r), final(tok_strm).index as int, syntax::alter_add_column(old(tok_strm).toks(), old(tok_strm).index as int)),
        moves(r, old(tok_strm).index, final(tok_strm).index),
{
    let ghost t = tok_strm.toks();
    let ghost i0 = tok_strm.index as int;
    let mut n = AlterAddColumnNode::new();

    let tok = tok_strm.get()?;
    if tok.kind != TokenKind::Add {
        tok_strm.prev();
        return Ok(None);
    }

    let tok = tok_strm.get()?;
    if tok.kind != TokenKind::Column {
        tok_strm.prev();
        return Ok(None);
    }

    n.ident = parse_ident(tok_strm)?;
    if n.ident.is_none() {
        return Err(make_error(ErrorKind::Parse, "missing column ident in alter add column stmt"));
    }

    while !tok_strm.is_end()
        invariant
            tok_strm.tokens@ == old(tok_strm).tokens@,
            t == old(tok_strm).toks(),
            i0 == old(tok_strm).index,
            tokens_ok(t),
            i0 + 3 <= tok_strm.index,
            syntax::is_at(t, i0, TokenKind::Add),
            syntax::is_at(t, i0 + 1, TokenKind::Column),
            syntax::is_at(t, i0 + 2, TokenKind::Ident),
            n@.ident == Some(t[i0 + 2].text->0),
            syntax::column_types_rest(t, i0 + 3, Seq::empty())
                == syntax::column_types_rest(t, tok_strm.index as int, ctv(n.column_types@)),
        ensures
            tok_strm.tokens@ == old(tok_strm).tokens@,
            i0 + 3 <= tok_strm.index,
            n@.ident == Some(t[i0 + 2].text->0),
            syntax::column_types_rest(t, i0 + 3, Seq::empty())
                == Step::Done(Some(ctv(n.column_types@)), tok_strm.index as int),
        decreases remaining(t, tok_strm.index as int),
    {
        let column_type = parse_column_type(tok_strm)?;
        if column_type.is_none() {
            break;
        }
        let c = column_type.unwrap();
        proof {
            lemma_ctv_push(n.column_types@, c);
        }
        n.column_types.push(c);
    }

    if n.column_types.len() == 0 {
        return Err(make_error(ErrorKind::Parse, "missing column types in alter add column stmt"));
    }

    Ok(Some(Box::new(n)))
}

pub fn parse_alter_table(tok_strm: &mut TokenStream) -> (r: Result<Option<Box<AlterTableNode>>, Error>)
    requires
        tokens_ok(old(tok_strm).toks()),
    ensures
        final(tok_strm).tokens@ == old(tok_strm).tokens@,
        reads(viewed(r), final(tok_strm).index as int, syntax::alter_table(old(tok_strm).toks(), old(tok_strm).index as int)),
        moves(r, old(tok_strm).index, final(tok_strm).index),
{
    let mut n = AlterTableNode::new();

    let tok = tok_strm.get()?;
    if tok.kind != TokenKind::Alter {
        tok_strm.prev();
        return Ok(None);
    }

    let tok = tok_strm.get()?;
    if tok.kind != TokenKind::Table {
        tok_strm.prev();
        return Ok(None);
    }

    n.table_name = parse_ident(tok_strm)?;
    if n.table_name.is_none() {
        return Err(make_error(ErrorKind::Parse, "missing table name in alter table stmt"));
    }

    n.alter_add_column = parse_alter_add_column(tok_strm)?;
    if n.alter_add_column.is_some() {
        return Ok(Some(Box::new(n)));
    }

    n.alter_drop_column = parse_alter_drop_column(tok_strm)?;
    if n.alter_drop_column.is_some() {
        return Ok(Some(Box::new(n)));
    }

    Err(make_error(ErrorKind::Parse, "invalid state: alter table stmt"))
}

pub fn parse_alter_stmt(tok_strm: &mut TokenStream) -> (r: Result<Option<Box<AlterStmtNode>>, Error>)
    requires
        tokens_ok(old(tok_strm).toks()),
    ensures
        final(tok_strm).tokens@ == old(tok_strm).tokens@,
        reads(viewed(r), final(tok_strm).index as int, syntax::alter_stmt(old(tok_strm).toks(), old(tok_strm).index as int)),
        moves(r, old(tok_strm).index, final(tok_strm).index),
{
    let mut n = AlterStmtNode::new();

    n.alter_table = parse_alter_table(tok_strm)?;
    if n.alter_table.is_some() {
        return Ok(Some(Box::new(n)));
    }

    Ok(None)
}

pub fn parse_desc_stmt(tok_strm: &mut TokenStream) -> (r: Result<Option<Box<DescStmtNode>>, Error>)
    requires
        tokens_ok(old(tok_strm).toks()),
    ensures
        final(tok_strm).tokens@ == old(tok_strm).tokens@,
        reads(viewed(r), final(tok_strm).index as int, syntax::desc_stmt(old(tok_strm).toks(), old(tok_strm).index as int)),
        moves(r, old(tok_strm).index, final(tok_strm).index),
{
    let mut n = DescStmtNode::new();

    let tok = tok_strm.get()?;
    if tok.kind != TokenKind::Desc {
        tok_strm.prev();
        return Ok(None);
    }

    n.table_name = parse_ident(tok_strm)?;
    if n.table_name.is_some() {
        return Ok(Some(Box::new(n)));
    }

    Ok(None)
}

pub fn parse_get_stmt(tok_strm: &mut TokenStream) -> (r: Result<Option<Box<GetStmtNode>>, Error>)
    requires
        tokens_ok(old(tok_strm).toks()),
    ensures
        final(tok_strm).tokens@ == old(tok_strm).tokens@,
        reads(viewed(r), final(tok_strm).index as int, syntax::get_stmt(old(tok_strm).toks(), old(tok_strm).index as int)),
        moves(r, old(tok_strm).index, final(tok_strm).index),
{
    let mut n = GetStmtNode::new();

    if tok_strm.is_end() {
        return Ok(None);
    }

    let tok = tok_strm.get()?;
    if tok.kind != TokenKind::Get {
        tok_strm.prev();
        return Ok(None);
    }

    let tok = tok_strm.get()?;
    if tok.kind == TokenKind::All {
        n.all = true;
    } else {
        tok_strm.prev();
    }

    n.expr_list = parse_expr_list(tok_strm)?;
    if n.expr_list.is_none() {
        return Err(make_error(ErrorKind::Parse, "failed to parse expr list in get stmt"));
    }

    let tok = tok_strm.get()?;
    if tok.kind != TokenKind::Of {
        return Err(make_error(ErrorKind::Parse, "missing 'OF' in get stmt"));
    }

    n.table = parse_ident(tok_strm)?;
    if n.table.is_none() {
        return Err(make_error(ErrorKind::Parse, "missing table name in get stmt"));
    }

    n.where_clause = parse_where_clause(tok_strm)?;
    n.limit = parse_limit(tok_strm)?;

    Ok(Some(Box::new(n)))
}

pub fn parse_set_stmt(tok_strm: &mut TokenStream) -> (r: Result<Option<Box<SetStmtNode>>, Error>)
    requires
        tokens_ok(old(tok_strm).toks()),
    ensures
        final(tok_strm).tokens@ == old(tok_strm).tokens@,
        reads(viewed(r), final(tok_strm).index as int, syntax::set_stmt(old(tok_strm).toks(), old(tok_strm).index as int)),
        moves(r, old(tok_strm).index, final(tok_strm).index),
{
    let mut n = SetStmtNode::new();

    if tok_strm.is_end() {
        return Ok(None);
    }

    let tok = tok_strm.get()?;
    if tok.kind != TokenKind::SetKw {
        tok_strm.prev();
        return Ok(None);
    }

    let tok = tok_strm.get()?;
    if tok.kind == TokenKind::All {
        n.all = true;
    } else {
        tok_strm.prev();
    }

    let expr_list = parse_expr_list(tok_strm)?;
    if expr_list.is_none() {
        return Err(make_error(ErrorKind::Parse, "failed to parse expr list in set stmt"));
    }

    n.expr_list = expr_list;

    let tok = tok_strm.get()?;
    if tok.kind != TokenKind::Of {
        return Err(make_error(ErrorKind::Parse, "missing 'OF' in set stmt"));
    }

    n.table = parse_ident(tok_strm)?;
    if n.table.is_none() {
        return Err(make_error(ErrorKind::Parse, "missing table name in set stmt"));
    }

    n.where_clause = parse_where_clause(tok_strm)?;
    n.limit = parse_limit(tok_strm)?;

    Ok(Some(Box::new(n)))
}

pub fn parse_add_stmt(tok_strm: &mut TokenStream) -> (r: Result<Option<Box<AddStmtNode>>, Error>)
    requires
        tokens_ok(old(tok_strm).toks()),
    ensures
        final(tok_strm).tokens@ == old(tok_strm).tokens@,
        reads(viewed(r), final(tok_strm).index as int, syntax::add_stmt(old(tok_strm).toks(), old(tok_strm).index as int)),
        moves(r, old(tok_strm).index, final(tok_strm).index),
{
    let mut n = AddStmtNode::new();

    if tok_strm.is_end() {
        return Ok(None);
    }

    let tok = tok_strm.get()?;
    if tok.kind != TokenKind::Add {
        tok_strm.prev();
        return Ok(None);
    }

    n.expr_list = parse_expr_list(tok_strm)?;
    if n.expr_list.is_none() {
        return Err(make_error(ErrorKind::Parse, "failed to parse expr list in add stmt"));
    }

    let tok = tok_strm.get()?;
    if tok.kind != TokenKind::Of {
        return Err(make_error(ErrorKind::Parse, "missing 'OF' in add stmt"));
    }

    n.table = parse_ident(tok_strm)?;
    if n.table.is_none() {
        return Err(make_error(ErrorKind::Parse, "missing table name in add stmt"));
    }

    Ok(Some(Box::new(n)))
}

pub fn parse_del_stmt(tok_strm: &mut TokenStream) -> (r: Result<Option<Box<DelStmtNode>>, Error>)
    requires
        tokens_ok(old(tok_strm).toks()),
    ensures
        final(tok_strm).tokens@ == old(tok_strm).tokens@,
        reads(viewed(r), final(tok_strm).index as int, syntax::del_stmt(old(tok_strm).toks(), old(tok_strm).index as int)),
        moves(r, old(tok_strm).index, final(tok_strm).index),
{
    let mut n = DelStmtNode::new();

    if tok_strm.is_end() {
        return Ok(None);
    }

    let tok = tok_strm.get()?;
    if tok.kind != TokenKind::Del {
        tok_strm.prev();
        return Ok(None);
    }

    let tok = tok_strm.get()?;
    if tok.kind == TokenKind::All {
        n.all = true;
    } else {
        tok_strm.prev();
    }

    let tok = tok_strm.get()?;
    if tok.kind != TokenKind::Of {
        return Err(make_error(ErrorKind::Parse, "missing 'OF' in get stmt"));
    }

    n.table = parse_ident(tok_strm)?;
    if n.table.is_none() {
        return Err(make_error(ErrorKind::Parse, "missing table name in del stmt"));
    }

    n.where_clause = parse_where_clause(tok_strm)?;
    n.limit = parse_limit(tok_strm)?;

    Ok(Some(Box::new(n)))
}

#[verifier::spinoff_prover]
pub fn parse_stmt(tok_strm: &mut TokenStream) -> (r: Result<Option<Box<StmtNode>>, Error>)
    requires
        tokens_ok(old(tok_strm).toks()),
    ensures
        final(tok_strm).tokens@ == old(tok_strm).tokens@,
        reads(viewed(r), final(tok_strm).index as int, syntax::stmt(old(tok_strm).toks(), old(tok_strm).index as int)),
        moves(r, old(tok_strm).index, final(tok_strm).index),
{
    let mut stmt = StmtNode::new();

    let desc_stmt = parse_desc_stmt(tok_strm)?;
    if desc_stmt.is_some() {
        stmt.desc_stmt = desc_stmt;
        return Ok(Some(Box::new(stmt)));
    }

    let alter_stmt = parse_alter_stmt(tok_strm)?;
    if alter_stmt.is_some() {
        stmt.alter_stmt = alter_stmt;
        return Ok(Some(Box::new(stmt)));
    }

    let drop_stmt = parse_drop_stmt(tok_strm)?;
    if drop_stmt.is_some() {
        stmt.drop_stmt = drop_stmt;
        return Ok(Some(Box::new(stmt)));
    }

    let show_stmt = parse_show_stmt(tok_strm)?;
    if show_stmt.is_some() {
        stmt.show_stmt = show_stmt;
        return Ok(Some(Box::new(stmt)));
    }

    let use_stmt = parse_use_stmt(tok_strm)?;
    if use_stmt.is_some() {
        stmt.use_stmt = use_stmt;
        return Ok(Some(Box::new(stmt)));
    }

    let create_stmt = parse_create_stmt(tok_strm)?;
    if create_stmt.is_some() {
        stmt.create_stmt = create_stmt;
        return Ok(Some(Box::new(stmt)));
    }

    let get_stmt = parse_get_stmt(tok_strm)?;
    if get_stmt.is_some() {
        stmt.get_stmt = get_stmt;
        return Ok(Some(Box::new(stmt)));
    }

    let set_stmt = parse_set_stmt(tok_strm)?;
    if set_stmt.is_some() {
        stmt.set_stmt = set_stmt;
        return Ok(Some(Box::new(stmt)));
    }

    let add_stmt = parse_add_stmt(tok_strm)?;
    if add_stmt.is_some() {
        stmt.add_stmt = add_stmt;
        return Ok(Some(Box::new(stmt)));
    }

    let del_stmt = parse_del_stmt(tok_strm)?;
    if del_stmt.is_some() {
        stmt.del_stmt = del_stmt;
        return Ok(Some(Box::new(stmt)));
    }

    Err(make_error(ErrorKind::Parse, "failed to parse stmt"))
}

/// Reads the statements of a query, each followed by a semicolon or by the
/// end of the tokens.
pub fn parse(tok_strm: &mut TokenStream) -> (r: Result<QueryNode, Error>)
    requires
        tokens_ok(old(tok_strm).toks()),
    ensures
        final(tok_strm).tokens@ == old(tok_strm).tokens@,
        match syntax::stmts_from(old(tok_strm).toks(), old(tok_strm).index as int, Seq::empty()) {
            Ok(stmts) => r is Ok && r->Ok_0@.stmts == stmts,
            Err(k) => r is Err && r->Err_0@ == k,
        },
{
    let ghost t = tok_strm.toks();
    let ghost i0 = tok_strm.index as int;
    let mut query = QueryNode::new();

    while !tok_strm.is_end()
        invariant_except_break
            syntax::stmts_from(t, i0, Seq::empty()) == syntax::stmts_from(t, tok_strm.index as int, query@.stmts),
        invariant
            tok_strm.tokens@ == old(tok_strm).tokens@,
            t == old(tok_strm).toks(),
            i0 == old(tok_strm).index,
            tokens_ok(t),
        ensures
            tok_strm.tokens@ == old(tok_strm).tokens@,
            syntax::stmts_from(t, i0, Seq::empty()) == Ok::<Seq<Stmt>, ErrorKind>(query@.stmts),
        decreases remaining(t, tok_strm.index as int),
    {
        let stmt: Option<Box<StmtNode>> = parse_stmt(tok_strm)?;
        if stmt.is_none() {
            break;
        }
        let x = stmt.unwrap();
        proof {
            lemma_sv_push(query.stmts@, x);
        }
        query.stmts.push(x);

        if tok_strm.is_end() {
            break;
        }

        let tok = tok_strm.get()?;
        if tok.kind != TokenKind::Semicolon {
            return Err(make_error(ErrorKind::Parse, "missing semicolon in stmt"));
        }
    }

    Ok(query)
}

} // verus!
