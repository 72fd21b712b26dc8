//! The plans as the contracts see them, and what the planner makes of each
//! statement.
use vstd::prelude::*;
use crate::error::ErrorKind;
use crate::grammar::{
    AddStmt, AlterStmt, AlterTable, AssExpr, ColumnDefinition, ColumnType, CreateDatabase, CreateStmt,
    CreateTable, DelStmt, DescStmt, DropStmt, Expr, ExprList, FuncExpr, GetStmt, Limit, ParenIdents,
    ParenValues, Query, SetStmt, Stmt, UseStmt, Value, WhereClause,
};
use crate::objects::{ObjectKind, ObjectV, nil_object, object_text};
use crate::parser::ShowStmtNode;
use crate::text::nat_text;
use crate::tokenizer::TokenKind;

verus! {

pub struct Plans {
    pub plans: Seq<Plan>,
}

pub struct Plan {
    pub desc_table: Option<DescTable>,
    pub use_db: Option<UseDatabase>,
    pub sort: Option<Sort>,
    pub aggregate: Option<Aggregate>,
    pub project: Option<Project>,
    pub database_create: Option<DatabaseCreate>,
    pub dir_list: Option<DirList>,
    pub dir_delete_all: Option<DirDeleteAll>,
    pub csv_file_create: Option<CsvFileCreate>,
    pub csv_file_append: Option<CsvFileAppend>,
    pub csv_file_delete: Option<CsvFileDelete>,
    pub csv_file_rewrite: Option<CsvFileRewrite>,
    pub csv_file_rename: Option<CsvFileRename>,
}

pub struct CsvFileRewrite {
    pub table_name: Option<Seq<char>>,
    pub row_delete: Option<RowDelete>,
    pub row_update: Option<RowUpdate>,
    pub column_add: Option<ColumnAdd>,
    pub column_drop: Option<ColumnDrop>,
    pub column_rename: Option<ColumnRename>,
    pub column_alter_type: Option<ColumnAlterType>,
}

pub struct Sort {
    pub expr: Option<Expr>,
    pub project: Option<Project>,
    pub is_asc: bool,
    pub all: bool,
}

pub struct CsvFileRename {
    pub table_name: Option<Seq<char>>,
    pub to_ident: Option<Seq<char>>,
}

pub struct ColumnAlterType {
    pub project: Option<Project>,
    pub ident: Option<Seq<char>>,
    pub column_types: Seq<ColumnType>,
}

pub struct ColumnRename {
    pub project: Option<Project>,
    pub from_ident: Option<Seq<char>>,
    pub to_ident: Option<Seq<char>>,
}

pub struct ColumnDrop {
    pub ident: Option<Seq<char>>,
    pub project: Option<Project>,
}

pub struct ColumnAdd {
    pub ident: Option<Seq<char>>,
    pub column_types_string: Option<Seq<char>>,
    pub column_definition_string: Option<Seq<char>>,
    pub project: Option<Project>,
}

pub struct DescTable {
    pub table_name: Option<Seq<char>>,
}

pub struct RowDelete {
    pub all: bool,
    pub project: Option<Project>,
}

pub struct RowUpdate {
    pub project: Option<Project>,
    pub expr_list: Option<ExprList>,
    pub all: bool,
}

pub struct DirDeleteAll {
    pub db_name: Option<Seq<char>>,
    pub if_exists: bool,
}

pub struct CsvFileDelete {
    pub table_name: Option<Seq<char>>,
    pub if_exists: bool,
}

pub struct DirList {
    pub csv_file_grep: Option<()>,
}

pub struct UseDatabase {
    pub db_name: Seq<char>,
}

pub struct CsvFileAppend {
    pub table_name: Seq<char>,
    pub expr_list: Option<ExprList>,
    pub paren_idents: Option<ParenIdents>,
    pub paren_values_list: Seq<ParenValues>,
}

pub struct Aggregate {
    pub filter: Option<Filter>,
    pub limit: Option<Limit>,
    pub all: bool,
    pub expr_list: Option<ExprList>,
}

pub struct Project {
    pub method: TokenKind,
    pub filter: Option<Filter>,
    pub limit: Option<Limit>,
    pub all: bool,
    pub expr_list: Option<ExprList>,
}

pub struct Filter {
    pub where_clause: Option<WhereClause>,
    pub csv_file_scan: Option<CsvFileScan>,
}

pub struct CsvFileScan {
    pub table_name: Seq<char>,
    pub all: bool,
}

pub struct DatabaseCreate {
    pub db_name: Seq<char>,
}

pub struct CsvFileCreate {
    pub table_name: Seq<char>,
    pub csv_head_row: Seq<char>,
}

pub open spec fn empty_plan() -> Plan {
    Plan {
        desc_table: None,
        use_db: None,
        sort: None,
        aggregate: None,
        project: None,
        database_create: None,
        dir_list: None,
        dir_delete_all: None,
        csv_file_create: None,
        csv_file_append: None,
        csv_file_delete: None,
        csv_file_rewrite: None,
        csv_file_rename: None,
    }
}

pub open spec fn empty_rewrite() -> CsvFileRewrite {
    CsvFileRewrite {
        table_name: None,
        row_delete: None,
        row_update: None,
        column_add: None,
        column_drop: None,
        column_rename: None,
        column_alter_type: None,
    }
}

pub open spec fn empty_project() -> Project {
    Project { method: TokenKind::Nil, filter: None, limit: None, all: false, expr_list: None }
}

/// A full scan of a table, filtered by nothing.
pub open spec fn full_scan_filter(table: Seq<char>) -> Filter {
    Filter { where_clause: None, csv_file_scan: Some(CsvFileScan { table_name: table, all: true }) }
}

/// The projection over all rows that the column changes of `ALTER TABLE` read.
pub open spec fn rewrite_project(method: TokenKind, table: Seq<char>) -> Project {
    Project { method: method, filter: Some(full_scan_filter(table)), limit: None, all: true, expr_list: None }
}

// ---- column types as header text ----

/// The value of a literal, as the planner turns it into an object.
pub open spec fn value_object(v: Value) -> Result<ObjectV, ErrorKind> {
    if v.i64_value is Some {
        Ok(ObjectV { kind: ObjectKind::Int, int_value: v.i64_value->0 as i128, ..nil_object() })
    } else if v.f64_value is Some {
        Ok(ObjectV { kind: ObjectKind::Float, float_text: v.f64_value->0, ..nil_object() })
    } else if v.bool_value is Some {
        Ok(ObjectV { kind: ObjectKind::Bool, bool_value: v.bool_value->0, ..nil_object() })
    } else if v.string is Some {
        Ok(ObjectV { kind: ObjectKind::String, string: v.string->0, ..nil_object() })
    } else {
        Err(ErrorKind::Runtime)
    }
}

/// The header text of one column type, such as `CHAR[100]` or `DEFAULT "x"`.
pub open spec fn column_type_text(ct: ColumnType) -> Result<Seq<char>, ErrorKind> {
    match ct {
        ColumnType::PrimaryKey => Ok("PRIMARY_KEY"@),
        ColumnType::AutoIncrement => Ok("AUTO_INCREMENT"@),
        ColumnType::I64 => Ok("INT"@),
        ColumnType::F64 => Ok("FLOAT"@),
        ColumnType::Char(n) => Ok("CHAR["@ + nat_text(n as nat) + "]"@),
        ColumnType::Bool => Ok("BOOL"@),
        ColumnType::Default(v) => match value_object(v) {
            Ok(o) => if o.kind == ObjectKind::String {
                Ok("DEFAULT "@ + ("\""@ + o.string + "\""@))
            } else {
                Ok("DEFAULT "@ + object_text(o))
            },
            Err(k) => Err(k),
        },
    }
}

/// The texts of the column types, each followed by a space.
pub open spec fn column_types_spaced(cts: Seq<ColumnType>) -> Result<Seq<char>, ErrorKind>
    decreases cts.len(),
{
    if cts.len() == 0 {
        Ok(Seq::empty())
    } else {
        match column_types_spaced(cts.drop_last()) {
            Ok(a) => match column_type_text(cts.last()) {
                Ok(b) => Ok(a + b + " "@),
                Err(k) => Err(k),
            },
            Err(k) => Err(k),
        }
    }
}

/// The texts of the column types, separated by spaces.
pub open spec fn column_types_text(cts: Seq<ColumnType>) -> Result<Seq<char>, ErrorKind> {
    match column_types_spaced(cts) {
        Ok(s) => Ok(if s.len() > 0 { s.drop_last() } else { s }),
        Err(k) => Err(k),
    }
}

/// The header of one column: `name: TYPE ...`.
pub open spec fn column_def_text(cd: ColumnDefinition) -> Result<Seq<char>, ErrorKind> {
    match cd.ident {
        None => Err(ErrorKind::Runtime),
        Some(id) => match column_types_spaced(cd.column_types) {
            Ok(t) => Ok((id + ": "@ + t).drop_last()),
            Err(k) => Err(k),
        },
    }
}

/// The headers of the columns, each followed by a comma.
pub open spec fn column_defs_spaced(cds: Seq<ColumnDefinition>) -> Result<Seq<char>, ErrorKind>
    decreases cds.len(),
{
    if cds.len() == 0 {
        Ok(Seq::empty())
    } else {
        match column_defs_spaced(cds.drop_last()) {
            Ok(a) => match column_def_text(cds.last()) {
                Ok(b) => Ok(a + b + ","@),
                Err(k) => Err(k),
            },
            Err(k) => Err(k),
        }
    }
}

/// The head row of a new table's CSV file: the column headers joined by
/// commas, and a newline.
pub open spec fn csv_head_row(cds: Seq<ColumnDefinition>) -> Result<Seq<char>, ErrorKind> {
    match column_defs_spaced(cds) {
        Ok(s) => Ok((if s.len() > 0 { s.drop_last() } else { s }) + "\n"@),
        Err(k) => Err(k),
    }
}

// ---- what each statement is planned into ----

pub open spec fn plan_desc(n: DescStmt, p: Plan) -> Result<Plan, ErrorKind> {
    match n.table_name {
        Some(t) => Ok(Plan { desc_table: Some(DescTable { table_name: Some(t) }), ..p }),
        None => Err(ErrorKind::Runtime),
    }
}

pub open spec fn plan_alter_table(n: AlterTable, p: Plan) -> Result<Plan, ErrorKind> {
    if n.alter_add_column is Some {
        let ac = n.alter_add_column->0;
        match n.table_name {
            None => Err(ErrorKind::Runtime),
            Some(t) => match ac.ident {
                None => Err(ErrorKind::Runtime),
                Some(id) => match column_types_text(ac.column_types) {
                    Err(k) => Err(k),
                    Ok(cts) => Ok(
                        Plan {
                            csv_file_rewrite: Some(
                                CsvFileRewrite {
                                    table_name: Some(t),
                                    column_add: Some(
                                        ColumnAdd {
                                            ident: Some(id),
                                            column_types_string: Some(cts),
                                            column_definition_string: Some(id + ": "@ + cts),
                                            project: Some(rewrite_project(TokenKind::Alter, t)),
                                        },
                                    ),
                                    ..empty_rewrite()
                                },
                            ),
                            ..p
                        },
                    ),
                },
            },
        }
    } else if n.alter_drop_column is Some {
        match n.table_name {
            None => Err(ErrorKind::Runtime),
            Some(t) => Ok(
                Plan {
                    csv_file_rewrite: Some(
                        CsvFileRewrite {
                            table_name: Some(t),
                            column_drop: Some(
                                ColumnDrop {
                                    ident: n.alter_drop_column->0.ident,
                                    project: Some(rewrite_project(TokenKind::Nil, t)),
                                },
                            ),
                            ..empty_rewrite()
                        },
                    ),
                    ..p
                },
            ),
        }
    } else if n.alter_rename_column is Some {
        match n.table_name {
            None => Err(ErrorKind::Runtime),
            Some(t) => Ok(
                Plan {
                    csv_file_rewrite: Some(
                        CsvFileRewrite {
                            table_name: Some(t),
                            column_rename: Some(
                                ColumnRename {
                                    project: Some(rewrite_project(TokenKind::Nil, t)),
                                    from_ident: n.alter_rename_column->0.from_ident,
                                    to_ident: n.alter_rename_column->0.to_ident,
                                },
                            ),
                            ..empty_rewrite()
                        },
                    ),
                    ..p
                },
            ),
        }
    } else if n.alter_rename_table is Some {
        match n.table_name {
            None => Err(ErrorKind::Runtime),
            Some(t) => Ok(
                Plan {
                    csv_file_rename: Some(
                        CsvFileRename { table_name: Some(t), to_ident: n.alter_rename_table->0.to_ident },
                    ),
                    ..p
                },
            ),
        }
    } else if n.alter_column_type is Some {
        match n.table_name {
            None => Err(ErrorKind::Runtime),
            Some(t) => Ok(
                Plan {
                    csv_file_rewrite: Some(
                        CsvFileRewrite {
                            table_name: Some(t),
                            column_alter_type: Some(
                                ColumnAlterType {
                                    project: Some(rewrite_project(TokenKind::Nil, t)),
                                    ident: n.alter_column_type->0.ident,
                                    column_types: n.alter_column_type->0.column_types,
                                },
                            ),
                            ..empty_rewrite()
                        },
                    ),
                    ..p
                },
            ),
        }
    } else {
        Err(ErrorKind::Runtime)
    }
}

pub open spec fn plan_alter(n: AlterStmt, p: Plan) -> Result<Plan, ErrorKind> {
    match n.alter_table {
        Some(at) => plan_alter_table(at, p),
        None => Err(ErrorKind::Runtime),
    }
}

pub open spec fn plan_drop(n: DropStmt, p: Plan) -> Result<Plan, ErrorKind> {
    if n.table_name is Some {
        Ok(Plan { csv_file_delete: Some(CsvFileDelete { table_name: n.table_name, if_exists: n.if_exists }), ..p })
    } else if n.db_name is Some {
        Ok(Plan { dir_delete_all: Some(DirDeleteAll { db_name: n.db_name, if_exists: n.if_exists }), ..p })
    } else {
        Err(ErrorKind::Runtime)
    }
}

pub open spec fn plan_show(n: ShowStmtNode, p: Plan) -> Plan {
    Plan { dir_list: Some(DirList { csv_file_grep: if n.tables { Some(()) } else { None } }), ..p }
}

pub open spec fn plan_use(n: UseStmt, p: Plan) -> Result<Plan, ErrorKind> {
    match n.db_name {
        Some(d) => Ok(Plan { use_db: Some(UseDatabase { db_name: d }), ..p }),
        None => Err(ErrorKind::Runtime),
    }
}

pub open spec fn name_or_empty(o: Option<Seq<char>>) -> Seq<char> {
    match o {
        Some(s) => s,
        None => Seq::empty(),
    }
}

pub open spec fn plan_create_database(n: CreateDatabase, p: Plan) -> Plan {
    Plan { database_create: Some(DatabaseCreate { db_name: name_or_empty(n.ident) }), ..p }
}

pub open spec fn plan_create_table(n: CreateTable, p: Plan) -> Result<Plan, ErrorKind> {
    match csv_head_row(n.column_definitions) {
        Ok(row) => Ok(
            Plan {
                csv_file_create: Some(CsvFileCreate { table_name: name_or_empty(n.ident), csv_head_row: row }),
                ..p
            },
        ),
        Err(k) => Err(k),
    }
}

pub open spec fn plan_create(n: CreateStmt, p: Plan) -> Result<Plan, ErrorKind> {
    if n.create_database is Some {
        Ok(plan_create_database(n.create_database->0, p))
    } else if n.create_table is Some {
        plan_create_table(n.create_table->0, p)
    } else {
        Err(ErrorKind::Runtime)
    }
}

pub open spec fn plan_add(n: AddStmt, p: Plan) -> Plan {
    Plan {
        csv_file_append: Some(
            CsvFileAppend {
                table_name: name_or_empty(n.table),
                expr_list: n.expr_list,
                paren_idents: if n.expr_list is None { n.paren_idents } else { None },
                paren_values_list: if n.expr_list is None { n.paren_values_list } else { Seq::empty() },
            },
        ),
        ..p
    }
}

pub open spec fn plan_del(n: DelStmt, p: Plan) -> Plan {
    Plan {
        csv_file_rewrite: Some(
            CsvFileRewrite {
                table_name: n.table,
                row_delete: Some(
                    RowDelete {
                        all: n.all,
                        project: Some(
                            Project {
                                method: TokenKind::Del,
                                filter: Some(
                                    Filter {
                                        where_clause: n.where_clause,
                                        csv_file_scan: match n.table {
                                            Some(t) => Some(CsvFileScan { table_name: t, all: true }),
                                            None => None,
                                        },
                                    },
                                ),
                                limit: n.limit,
                                all: true,
                                expr_list: None,
                            },
                        ),
                    },
                ),
                ..empty_rewrite()
            },
        ),
        ..p
    }
}

pub open spec fn plan_set(n: SetStmt, p: Plan) -> Result<Plan, ErrorKind> {
    if n.expr_list is None {
        Err(ErrorKind::Runtime)
    } else if n.table is None {
        Err(ErrorKind::Runtime)
    } else {
        let t = n.table->0;
        Ok(
            Plan {
                csv_file_rewrite: Some(
                    CsvFileRewrite {
                        table_name: Some(t),
                        row_update: Some(
                            RowUpdate {
                                project: Some(
                                    Project {
                                        method: TokenKind::SetKw,
                                        filter: Some(
                                            Filter {
                                                where_clause: n.where_clause,
                                                csv_file_scan: Some(CsvFileScan { table_name: t, all: true }),
                                            },
                                        ),
                                        limit: n.limit,
                                        all: true,
                                        expr_list: None,
                                    },
                                ),
                                expr_list: n.expr_list,
                                all: n.all,
                            },
                        ),
                        ..empty_rewrite()
                    },
                ),
                ..p
            },
        )
    }
}

/// Lower case of a text, as std's `str::to_lowercase` gives it.
pub uninterp spec fn spec_to_lowercase(s: Seq<char>) -> Seq<char>;

/// Whether a function expression calls an aggregate (`COUNT`).
pub open spec fn func_needs_aggregate(f: FuncExpr) -> bool {
    match f.ident {
        Some(id) => spec_to_lowercase(id) == "count"@,
        None => false,
    }
}

pub open spec fn ass_needs_aggregate(a: AssExpr) -> Result<bool, ErrorKind> {
    if a.left_func_expr is Some {
        Ok(func_needs_aggregate(a.left_func_expr->0))
    } else if a.right_func_expr is Some {
        Ok(func_needs_aggregate(a.right_func_expr->0))
    } else {
        Err(ErrorKind::Runtime)
    }
}

pub open spec fn expr_needs_aggregate(e: Expr) -> Result<bool, ErrorKind> {
    match e.ass_expr {
        Some(a) => ass_needs_aggregate(a),
        None => Err(ErrorKind::Runtime),
    }
}

/// Whether one of the expressions from `k` on needs an aggregate; the first
/// error met, in order, otherwise.
pub open spec fn exprs_need_aggregate(es: Seq<Expr>, k: int) -> Result<bool, ErrorKind>
    decreases es.len() - k,
{
    if k < 0 || k >= es.len() {
        Ok(false)
    } else {
        match expr_needs_aggregate(es[k]) {
            Err(e) => Err(e),
            Ok(true) => Ok(true),
            Ok(false) => exprs_need_aggregate(es, k + 1),
        }
    }
}

pub open spec fn get_needs_aggregate(n: GetStmt) -> Result<bool, ErrorKind> {
    match n.expr_list {
        Some(el) => exprs_need_aggregate(el.exprs, 0),
        None => Err(ErrorKind::Runtime),
    }
}

/// The scan of a get statement's table; only set when the table is named.
pub open spec fn get_scan(n: GetStmt) -> CsvFileScan {
    match n.table {
        Some(t) => CsvFileScan { table_name: t, all: n.all },
        None => CsvFileScan { table_name: Seq::empty(), all: false },
    }
}

pub open spec fn plan_get(n: GetStmt, p: Plan) -> Result<Plan, ErrorKind> {
    match get_needs_aggregate(n) {
        Err(k) => Err(k),
        Ok(true) => Ok(
            Plan {
                aggregate: Some(
                    Aggregate {
                        filter: Some(Filter { where_clause: n.where_clause, csv_file_scan: Some(get_scan(n)) }),
                        limit: n.limit,
                        all: n.all,
                        expr_list: n.expr_list,
                    },
                ),
                ..p
            },
        ),
        Ok(false) => {
            let filter = Filter { where_clause: n.where_clause, csv_file_scan: Some(get_scan(n)) };
            match n.order_by {
                Some(ob) => match ob.expr {
                    Some(e) => Ok(
                        Plan {
                            sort: Some(
                                Sort {
                                    expr: Some(e),
                                    project: Some(
                                        Project {
                                            method: TokenKind::Get,
                                            filter: Some(filter),
                                            limit: n.limit,
                                            all: true,
                                            expr_list: n.expr_list,
                                        },
                                    ),
                                    is_asc: ob.is_asc,
                                    all: n.all,
                                },
                            ),
                            ..p
                        },
                    ),
                    None => Ok(p),
                },
                None => Ok(
                    Plan {
                        project: Some(
                            Project {
                                method: TokenKind::Get,
                                filter: Some(filter),
                                limit: n.limit,
                                all: n.all,
                                expr_list: n.expr_list,
                            },
                        ),
                        ..p
                    },
                ),
            }
        },
    }
}

/// The plan of one statement, which fills one part of `p`; the statements
/// are tried in the order show, desc, alter, drop, use, create, get, set,
/// add, del.
pub open spec fn plan_stmt(n: Stmt, p: Plan) -> Result<Plan, ErrorKind> {
    if n.show_stmt is Some {
        Ok(plan_show(n.show_stmt->0, p))
    } else if n.desc_stmt is Some {
        plan_desc(n.desc_stmt->0, p)
    } else if n.alter_stmt is Some {
        plan_alter(n.alter_stmt->0, p)
    } else if n.drop_stmt is Some {
        plan_drop(n.drop_stmt->0, p)
    } else if n.use_stmt is Some {
        plan_use(n.use_stmt->0, p)
    } else if n.create_stmt is Some {
        plan_create(n.create_stmt->0, p)
    } else if n.get_stmt is Some {
        plan_get(n.get_stmt->0, p)
    } else if n.set_stmt is Some {
        plan_set(n.set_stmt->0, p)
    } else if n.add_stmt is Some {
        Ok(plan_add(n.add_stmt->0, p))
    } else if n.del_stmt is Some {
        Ok(plan_del(n.del_stmt->0, p))
    } else {
        Ok(p)
    }
}

/// The plans of the statements before `k`, one for each, or the first error.
pub open spec fn plan_stmts(stmts: Seq<Stmt>, k: int) -> Result<Seq<Plan>, ErrorKind>
    decreases k,
{
    if k <= 0 {
        Ok(Seq::empty())
    } else {
        match plan_stmts(stmts, k - 1) {
            Err(e) => Err(e),
            Ok(ps) => match plan_stmt(stmts[k - 1], empty_plan()) {
                Err(e) => Err(e),
                Ok(p) => Ok(ps.push(p)),
            },
        }
    }
}

/// The plans of a query: one plan for each statement, or the first error.
pub open spec fn plan_query(q: Query) -> Result<Plans, ErrorKind> {
    match plan_stmts(q.stmts, q.stmts.len() as int) {
        Ok(ps) => Ok(Plans { plans: ps }),
        Err(e) => Err(e),
    }
}

proof fn lemma_plan_stmts_len(stmts: Seq<Stmt>, k: int)
    requires
        0 <= k <= stmts.len(),
    ensures
        plan_stmts(stmts, k) matches Ok(ps) ==> ps.len() == k,
    decreases k,
{
    if k > 0 {
        lemma_plan_stmts_len(stmts, k - 1);
    }
}

/// Planning a query gives one plan for each of its statements, or fails.
pub proof fn lemma_one_plan_per_statement(q: Query)
    ensures
        plan_query(q) matches Ok(ps) ==> ps.plans.len() == q.stmts.len(),
{
    lemma_plan_stmts_len(q.stmts, q.stmts.len() as int);
}

/// The plan of each statement is the plan of that statement alone: planning
/// one statement does not depend on the others.
pub proof fn lemma_plans_are_per_statement(q: Query, i: int)
    requires
        0 <= i < q.stmts.len(),
        plan_query(q) is Ok,
    ensures
        plan_stmt(q.stmts[i], empty_plan()) is Ok,
        plan_query(q)->Ok_0.plans[i] == plan_stmt(q.stmts[i], empty_plan())->Ok_0,
{
    lemma_plan_stmts_prefix(q.stmts, q.stmts.len() as int, i);
}

proof fn lemma_plan_stmts_prefix(stmts: Seq<Stmt>, k: int, i: int)
    requires
        0 <= i < k <= stmts.len(),
        plan_stmts(stmts, k) is Ok,
    ensures
        plan_stmt(stmts[i], empty_plan()) is Ok,
        plan_stmts(stmts, k)->Ok_0[i] == plan_stmt(stmts[i], empty_plan())->Ok_0,
    decreases k,
{
    lemma_plan_stmts_len(stmts, k - 1);
    if i < k - 1 {
        lemma_plan_stmts_prefix(stmts, k - 1, i);
    }
}

} // verus!
