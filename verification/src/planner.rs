//! Turns the syntax tree of a query into plans: what files to scan, filter,
//! project, append to or rewrite.
use vstd::prelude::*;
use crate::error::{Error, ErrorKind, make_error};
use crate::grammar;
use crate::objects::{Object, ObjectKind};
use crate::parser::{
    self, ColumnTypeNode, DeepCopy, ExprListNode, ExprNode, LimitNode, ParenIdentsNode, ParenValuesNode,
    WhereClauseNode, copy_boxes, copy_column_types, ctv, ov, sv,
};
use crate::plan_model::{
    Aggregate, ColumnAdd, ColumnAlterType, ColumnDrop, ColumnRename, CsvFileAppend, CsvFileCreate,
    CsvFileDelete, CsvFileRename, CsvFileRewrite, CsvFileScan, DatabaseCreate, DescTable, DirDeleteAll,
    DirList, Filter, Plan, Plans, Project, RowDelete, RowUpdate, Sort, UseDatabase, column_def_text,
    column_defs_spaced, column_type_text, column_types_spaced, column_types_text, csv_head_row,
    empty_plan, spec_to_lowercase, value_object,
};
use crate::plan_model;
use crate::text::{nat_to_string, pop_char, push_str};
use crate::tokenizer::{TokenKind, opt_str_view};

verus! {

pub struct PlansNode {
    pub plans: Vec<PlanNode>,
}

impl View for PlansNode {
    type V = Plans;

    open spec fn view(&self) -> Plans {
        Plans { plans: self.plans@.map_values(|p: PlanNode| p@) }
    }
}

impl PlansNode {
    pub fn new() -> (n: Self)
        ensures
            n@.plans == Seq::<Plan>::empty(),
    {
        PlansNode { plans: Vec::new() }
    }
}

pub struct PlanNode {
    pub desc_table: Option<Box<DescTableNode>>,
    pub use_db: Option<Box<UseDatabaseNode>>,
    pub sort: Option<Box<SortNode>>,
    pub aggregate: Option<Box<AggregateNode>>,
    pub project: Option<Box<ProjectNode>>,
    pub database_create: Option<Box<DatabaseCreateNode>>,
    pub dir_list: Option<Box<DirListNode>>,
    pub dir_delete_all: Option<Box<DirDeleteAllNode>>,
    pub csv_file_create: Option<Box<CsvFileCreateNode>>,
    pub csv_file_append: Option<Box<CsvFileAppendNode>>,
    pub csv_file_delete: Option<Box<CsvFileDeleteNode>>,
    pub csv_file_rewrite: Option<Box<CsvFileRewriteNode>>,
    pub csv_file_rename: Option<Box<CsvFileRenameNode>>,
}

impl View for PlanNode {
    type V = Plan;

    open spec fn view(&self) -> Plan {
        Plan {
            desc_table: ov(self.desc_table),
            use_db: ov(self.use_db),
            sort: ov(self.sort),
            aggregate: ov(self.aggregate),
            project: ov(self.project),
            database_create: ov(self.database_create),
            dir_list: ov(self.dir_list),
            dir_delete_all: ov(self.dir_delete_all),
            csv_file_create: ov(self.csv_file_create),
            csv_file_append: ov(self.csv_file_append),
            csv_file_delete: ov(self.csv_file_delete),
            csv_file_rewrite: ov(self.csv_file_rewrite),
            csv_file_rename: ov(self.csv_file_rename),
        }
    }
}

impl PlanNode {
    pub fn new() -> (n: Self)
        ensures
            n@ == empty_plan(),
    {
        PlanNode {
            desc_table: None,
            use_db: None,
            sort: None,
            aggregate: None,
            project: None,
            database_create: None,
            dir_list: None,
            dir_delete_all: None,
            csv_file_create: None,
            csv_file_append: None,
            csv_file_delete: None,
            csv_file_rewrite: None,
            csv_file_rename: None,
        }
    }
}

pub struct CsvFileRewriteNode {
    pub table_name: Option<String>,
    pub row_delete: Option<Box<RowDeleteNode>>,
    pub row_update: Option<Box<RowUpdateNode>>,
    pub column_add: Option<Box<ColumnAddNode>>,
    pub column_drop: Option<Box<ColumnDropNode>>,
    pub column_rename: Option<Box<ColumnRenameNode>>,
    pub column_alter_type: Option<Box<ColumnAlterTypeNode>>,
}

impl View for CsvFileRewriteNode {
    type V = CsvFileRewrite;

    open spec fn view(&self) -> CsvFileRewrite {
        CsvFileRewrite {
            table_name: opt_str_view(self.table_name),
            row_delete: ov(self.row_delete),
            row_update: ov(self.row_update),
            column_add: ov(self.column_add),
            column_drop: ov(self.column_drop),
            column_rename: ov(self.column_rename),
            column_alter_type: ov(self.column_alter_type),
        }
    }
}

impl CsvFileRewriteNode {
    pub fn new() -> (n: Self)
        ensures
            n@ == plan_model::empty_rewrite(),
    {
        CsvFileRewriteNode {
            table_name: None,
            row_delete: None,
            row_update: None,
            column_add: None,
            column_drop: None,
            column_rename: None,
            column_alter_type: None,
        }
    }
}

pub struct SortNode {
    pub expr: Option<Box<ExprNode>>,
    pub project: Option<Box<ProjectNode>>,
    pub is_asc: bool,
    pub all: bool,
}

impl View for SortNode {
    type V = Sort;

    open spec fn view(&self) -> Sort {
        Sort { expr: ov(self.expr), project: ov(self.project), is_asc: self.is_asc, all: self.all }
    }
}

impl SortNode {
    pub fn new() -> (n: Self)
        ensures
            n@ == (Sort { expr: None, project: None, is_asc: true, all: false }),
    {
        SortNode { expr: None, project: None, is_asc: true, all: false }
    }
}

pub struct CsvFileRenameNode {
    pub table_name: Option<String>,
    pub to_ident: Option<String>,
}

impl View for CsvFileRenameNode {
    type V = CsvFileRename;

    open spec fn view(&self) -> CsvFileRename {
        CsvFileRename { table_name: opt_str_view(self.table_name), to_ident: opt_str_view(self.to_ident) }
    }
}

impl CsvFileRenameNode {
    pub fn new() -> (n: Self)
        ensures
            n@ == (CsvFileRename { table_name: None, to_ident: None }),
    {
        CsvFileRenameNode { table_name: None, to_ident: None }
    }
}

pub struct ColumnAlterTypeNode {
    pub project: Option<Box<ProjectNode>>,
    pub ident: Option<String>,
    pub column_types: Vec<ColumnTypeNode>,
}

impl View for ColumnAlterTypeNode {
    type V = ColumnAlterType;

    open spec fn view(&self) -> ColumnAlterType {
        ColumnAlterType {
            project: ov(self.project),
            ident: opt_str_view(self.ident),
            column_types: ctv(self.column_types@),
        }
    }
}

impl ColumnAlterTypeNode {
    pub fn new() -> (n: Self)
        ensures
            n@.project is None,
            n@.ident is None,
            n@.column_types == Seq::<grammar::ColumnType>::empty(),
    {
        ColumnAlterTypeNode { project: None, ident: None, column_types: Vec::new() }
    }
}

pub struct ColumnRenameNode {
    pub project: Option<Box<ProjectNode>>,
    pub from_ident: Option<String>,
    pub to_ident: Option<String>,
}

impl View for ColumnRenameNode {
    type V = ColumnRename;

    open spec fn view(&self) -> ColumnRename {
        ColumnRename {
            project: ov(self.project),
            from_ident: opt_str_view(self.from_ident),
            to_ident: opt_str_view(self.to_ident),
        }
    }
}

impl ColumnRenameNode {
    pub fn new() -> (n: Self)
        ensures
            n@ == (ColumnRename { project: None, from_ident: None, to_ident: None }),
    {
        ColumnRenameNode { project: None, from_ident: None, to_ident: None }
    }
}

pub struct ColumnDropNode {
    pub ident: Option<String>,
    pub project: Option<Box<ProjectNode>>,
}

impl View for ColumnDropNode {
    type V = ColumnDrop;

    open spec fn view(&self) -> ColumnDrop {
        ColumnDrop { ident: opt_str_view(self.ident), project: ov(self.project) }
    }
}

impl ColumnDropNode {
    pub fn new() -> (n: Self)
        ensures
            n@ == (ColumnDrop { ident: None, project: None }),
    {
        ColumnDropNode { ident: None, project: None }
    }
}

pub struct ColumnAddNode {
    pub ident: Option<String>,
    pub column_types_string: Option<String>,
    pub column_definition_string: Option<String>,
    pub project: Option<Box<ProjectNode>>,
}

impl View for ColumnAddNode {
    type V = ColumnAdd;

    open spec fn view(&self) -> ColumnAdd {
        ColumnAdd {
            ident: opt_str_view(self.ident),
            column_types_string: opt_str_view(self.column_types_string),
            column_definition_string: opt_str_view(self.column_definition_string),
            project: ov(self.project),
        }
    }
}

impl ColumnAddNode {
    pub fn new() -> (n: Self)
        ensures
            n@ == (ColumnAdd {
                ident: None,
                column_types_string: None,
                column_definition_string: None,
                project: None,
            }),
    {
        ColumnAddNode { ident: None, column_types_string: None, column_definition_string: None, project: None }
    }
}

pub struct DescTableNode {
    pub table_name: Option<String>,
}

impl View for DescTableNode {
    type V = DescTable;

    open spec fn view(&self) -> DescTable {
        DescTable { table_name: opt_str_view(self.table_name) }
    }
}

impl DescTableNode {
    pub fn new() -> (n: Self)
        ensures
            n@ == (DescTable { table_name: None }),
    {
        DescTableNode { table_name: None }
    }
}

pub struct RowDeleteNode {
    pub all: bool,
    pub project: Option<Box<ProjectNode>>,
}

impl View for RowDeleteNode {
    type V = RowDelete;

    open spec fn view(&self) -> RowDelete {
        RowDelete { all: self.all, project: ov(self.project) }
    }
}

impl RowDeleteNode {
    pub fn new() -> (n: Self)
        ensures
            n@ == (RowDelete { all: false, project: None }),
    {
        RowDeleteNode { all: false, project: None }
    }
}

pub struct RowUpdateNode {
    pub project: Option<Box<ProjectNode>>,
    pub expr_list: Option<Box<ExprListNode>>,
    pub all: bool,
}

impl View for RowUpdateNode {
    type V = RowUpdate;

    open spec fn view(&self) -> RowUpdate {
        RowUpdate { project: ov(self.project), expr_list: ov(self.expr_list), all: self.all }
    }
}

impl RowUpdateNode {
    pub fn new() -> (n: Self)
        ensures
            n@ == (RowUpdate { project: None, expr_list: None, all: false }),
    {
        RowUpdateNode { project: None, expr_list: None, all: false }
    }
}

pub struct DirDeleteAllNode {
    pub db_name: Option<String>,
    pub if_exists: bool,
}

impl View for DirDeleteAllNode {
    type V = DirDeleteAll;

    open spec fn view(&self) -> DirDeleteAll {
        DirDeleteAll { db_name: opt_str_view(self.db_name), if_exists: self.if_exists }
    }
}

impl DirDeleteAllNode {
    pub fn new() -> (n: Self)
        ensures
            n@ == (DirDeleteAll { db_name: None, if_exists: false }),
    {
        DirDeleteAllNode { db_name: None, if_exists: false }
    }
}

pub struct CsvFileDeleteNode {
    pub table_name: Option<String>,
    pub if_exists: bool,
}

impl View for CsvFileDeleteNode {
    type V = CsvFileDelete;

    open spec fn view(&self) -> CsvFileDelete {
        CsvFileDelete { table_name: opt_str_view(self.table_name), if_exists: self.if_exists }
    }
}

impl CsvFileDeleteNode {
    pub fn new() -> (n: Self)
        ensures
            n@ == (CsvFileDelete { table_name: None, if_exists: false }),
    {
        CsvFileDeleteNode { table_name: None, if_exists: false }
    }
}

pub struct DirListNode {
    pub csv_file_grep: Option<Box<CsvFileGrepNode>>,
}

impl View for DirListNode {
    type V = DirList;

    open spec fn view(&self) -> DirList {
        DirList { csv_file_grep: ov(self.csv_file_grep) }
    }
}

impl DirListNode {
    pub fn new() -> (n: Self)
        ensures
            n@ == (DirList { csv_file_grep: None }),
    {
        DirListNode { csv_file_grep: None }
    }
}

pub struct CsvFileGrepNode {
    dummy: i32,
}

impl View for CsvFileGrepNode {
    type V = ();

    open spec fn view(&self) -> () {
        ()
    }
}

impl CsvFileGrepNode {
    /// The node's one field, which a new node holds as 0.
    pub closed spec fn field(&self) -> i32 {
        self.dummy
    }

    pub fn new() -> (n: Self)
        ensures
            n.field() == 0,
    {
        CsvFileGrepNode { dummy: 0 }
    }
}

pub struct UseDatabaseNode {
    pub db_name: String,
}

impl View for UseDatabaseNode {
    type V = UseDatabase;

    open spec fn view(&self) -> UseDatabase {
        UseDatabase { db_name: self.db_name@ }
    }
}

impl UseDatabaseNode {
    pub fn new() -> (n: Self)
        ensures
            n@.db_name == Seq::<char>::empty(),
    {
        UseDatabaseNode { db_name: String::new() }
    }
}

pub struct CsvFileAppendNode {
    pub table_name: String,
    pub expr_list: Option<Box<ExprListNode>>,
    pub paren_idents: Option<Box<ParenIdentsNode>>,
    pub paren_values_list: Vec<Box<ParenValuesNode>>,
}

impl View for CsvFileAppendNode {
    type V = CsvFileAppend;

    open spec fn view(&self) -> CsvFileAppend {
        CsvFileAppend {
            table_name: self.table_name@,
            expr_list: ov(self.expr_list),
            paren_idents: ov(self.paren_idents),
            paren_values_list: sv(self.paren_values_list@),
        }
    }
}

impl CsvFileAppendNode {
    pub fn new() -> (n: Self)
        ensures
            n@.table_name == Seq::<char>::empty(),
            n@.expr_list is None,
            n@.paren_idents is None,
            n@.paren_values_list == Seq::<grammar::ParenValues>::empty(),
    {
        CsvFileAppendNode {
            table_name: String::new(),
            expr_list: None,
            paren_idents: None,
            paren_values_list: Vec::new(),
        }
    }
}

pub struct AggregateNode {
    pub filter: Option<Box<FilterNode>>,
    pub limit: Option<Box<LimitNode>>,
    pub all: bool,
    pub expr_list: Option<Box<ExprListNode>>,
}

impl View for AggregateNode {
    type V = Aggregate;

    open spec fn view(&self) -> Aggregate {
        Aggregate { filter: ov(self.filter), limit: ov(self.limit), all: self.all, expr_list: ov(self.expr_list) }
    }
}

impl AggregateNode {
    pub fn new() -> (n: Self)
        ensures
            n@ == (Aggregate { filter: None, limit: None, all: false, expr_list: None }),
    {
        AggregateNode { filter: None, limit: None, all: false, expr_list: None }
    }
}

pub struct ProjectNode {
    pub method: TokenKind,
    pub filter: Option<Box<FilterNode>>,
    pub limit: Option<Box<LimitNode>>,
    pub all: bool,
    pub expr_list: Option<Box<ExprListNode>>,
}

impl View for ProjectNode {
    type V = Project;

    open spec fn view(&self) -> Project {
        Project {
            method: self.method,
            filter: ov(self.filter),
            limit: ov(self.limit),
            all: self.all,
            expr_list: ov(self.expr_list),
        }
    }
}

impl ProjectNode {
    pub fn new() -> (n: Self)
        ensures
            n@ == plan_model::empty_project(),
    {
        ProjectNode { method: TokenKind::Nil, filter: None, limit: None, all: false, expr_list: None }
    }
}

pub struct FilterNode {
    pub where_clause: Option<Box<WhereClauseNode>>,
    pub csv_file_scan: Option<Box<CsvFileScanNode>>,
}

impl View for FilterNode {
    type V = Filter;

    open spec fn view(&self) -> Filter {
        Filter { where_clause: ov(self.where_clause), csv_file_scan: ov(self.csv_file_scan) }
    }
}

impl FilterNode {
    pub fn new() -> (n: Self)
        ensures
            n@ == (Filter { where_clause: None, csv_file_scan: None }),
    {
        FilterNode { where_clause: None, csv_file_scan: None }
    }
}

pub struct CsvFileScanNode {
    pub table_name: String,
    pub all: bool,
}

impl View for CsvFileScanNode {
    type V = CsvFileScan;

    open spec fn view(&self) -> CsvFileScan {
        CsvFileScan { table_name: self.table_name@, all: self.all }
    }
}

impl CsvFileScanNode {
    pub fn new() -> (n: Self)
        ensures
            n@ == (CsvFileScan { table_name: Seq::empty(), all: false }),
    {
        CsvFileScanNode { table_name: String::new(), all: false }
    }
}

pub struct DatabaseCreateNode {
    pub db_name: String,
}

impl View for DatabaseCreateNode {
    type V = DatabaseCreate;

    open spec fn view(&self) -> DatabaseCreate {
        DatabaseCreate { db_name: self.db_name@ }
    }
}

impl DatabaseCreateNode {
    pub fn new() -> (n: Self)
        ensures
            n@ == (DatabaseCreate { db_name: Seq::empty() }),
    {
        DatabaseCreateNode { db_name: String::new() }
    }
}

pub struct CsvFileCreateNode {
    pub table_name: String,
    pub csv_head_row: String,
}

impl View for CsvFileCreateNode {
    type V = CsvFileCreate;

    open spec fn view(&self) -> CsvFileCreate {
        CsvFileCreate { table_name: self.table_name@, csv_head_row: self.csv_head_row@ }
    }
}

impl CsvFileCreateNode {
    pub fn new() -> (n: Self)
        ensures
            n@ == (CsvFileCreate { table_name: Seq::empty(), csv_head_row: Seq::empty() }),
    {
        CsvFileCreateNode { table_name: String::new(), csv_head_row: String::new() }
    }
}

/// What a planning step promises: on success the plan is `s`'s, on failure
/// the error is `s`'s and the plan is left as it was.
pub open spec fn plan_agrees(r: Result<(), Error>, s: Result<Plan, ErrorKind>, before: Plan, after: Plan) -> bool {
    match s {
        Ok(p) => r is Ok && after == p,
        Err(k) => r is Err && r->Err_0@ == k && after == before,
    }
}

/// Calls std's `str::to_lowercase`, a function of the text alone.
#[verifier::external_body]
pub(crate) fn str_to_lowercase(s: &str) -> (r: String)
    ensures
        r@ == spec_to_lowercase(s@),
{
    s.to_lowercase()
}


pub open spec fn text_agrees(r: Result<String, Error>, s: Result<Seq<char>, ErrorKind>) -> bool {
    match s {
        Ok(t) => r is Ok && r->Ok_0@ == t,
        Err(k) => r is Err && r->Err_0@ == k,
    }
}

pub open spec fn bool_agrees(r: Result<bool, Error>, s: Result<bool, ErrorKind>) -> bool {
    match s {
        Ok(b) => r is Ok && r->Ok_0 == b,
        Err(k) => r is Err && r->Err_0@ == k,
    }
}

/// Once a prefix of the column types fails, the whole list fails with the
/// same error.
proof fn lemma_types_spaced_prefix(cts: Seq<grammar::ColumnType>, k: int)
    requires
        0 <= k <= cts.len(),
        column_types_spaced(cts.take(k)) is Err,
    ensures
        column_types_spaced(cts) == column_types_spaced(cts.take(k)),
    decreases cts.len() - k,
{
    if k == cts.len() {
        assert(cts.take(k) =~= cts);
    } else {
        assert(cts.take(k + 1).drop_last() =~= cts.take(k));
        lemma_types_spaced_prefix(cts, k + 1);
    }
}

proof fn lemma_defs_spaced_prefix(cds: Seq<grammar::ColumnDefinition>, k: int)
    requires
        0 <= k <= cds.len(),
        column_defs_spaced(cds.take(k)) is Err,
    ensures
        column_defs_spaced(cds) == column_defs_spaced(cds.take(k)),
    decreases cds.len() - k,
{
    if k == cds.len() {
        assert(cds.take(k) =~= cds);
    } else {
        assert(cds.take(k + 1).drop_last() =~= cds.take(k));
        lemma_defs_spaced_prefix(cds, k + 1);
    }
}

fn unwrap_ident_object(node: &Box<parser::IdentNode>) -> (r: Result<Object, Error>)
    ensures
        r is Ok,
        r->Ok_0@.kind == ObjectKind::Ident,
        r->Ok_0@.ident == node@,
{
    Ok(Object::from_ident(node.value.as_str()))
}

/// The name in an identifier node, as a string.
fn ident_string(node: &Box<parser::IdentNode>) -> (r: Result<String, Error>)
    ensures
        r is Ok,
        r->Ok_0@ == node@,
{
    let o = unwrap_ident_object(node)?;
    Ok(o.to_string())
}

fn unwrap_value(node: &parser::ValueNode) -> (r: Result<Object, Error>)
    ensures
        match value_object(node@) {
            Ok(o) => r is Ok && r->Ok_0@ == o,
            Err(k) => r is Err && r->Err_0@ == k,
        },
{
    if let Some(i64_value) = &node.i64_value {
        return Ok(Object::from_int(i64_value.value as i128));
    } else if let Some(f64_value) = &node.f64_value {
        return Ok(Object::from_float_text(f64_value.text.clone()));
    } else if let Some(bool_value) = &node.bool_value {
        return Ok(Object::from_bool(bool_value.value));
    } else if let Some(string) = &node.string {
        return Ok(Object::from_string(string.value.clone()));
    } else {
        return Err(make_error(ErrorKind::Runtime, "invalid state: unwrap value"));
    }
}

/// The header text of one column type.
pub fn gen_csv_head_col_type_by_column_type(column_type: &ColumnTypeNode) -> (r: Result<String, Error>)
    ensures
        text_agrees(r, column_type_text(column_type@)),
{
    match column_type {
        ColumnTypeNode::PrimaryKey => Ok("PRIMARY_KEY".to_string()),
        ColumnTypeNode::AutoIncrement => Ok("AUTO_INCREMENT".to_string()),
        ColumnTypeNode::I64 => Ok("INT".to_string()),
        ColumnTypeNode::F64 => Ok("FLOAT".to_string()),
        ColumnTypeNode::Char(nelems) => {
            let mut s = "CHAR[".to_string();
            let n = nat_to_string(*nelems as u128);
            push_str(&mut s, n.as_str());
            push_str(&mut s, "]");
            Ok(s)
        },
        ColumnTypeNode::Bool => Ok("BOOL".to_string()),
        ColumnTypeNode::Default(value) => {
            let obj = unwrap_value(&**value)?;
            let sobj;
            if obj.kind == ObjectKind::String {
                let mut q = "\"".to_string();
                push_str(&mut q, obj.to_string().as_str());
                push_str(&mut q, "\"");
                sobj = q;
            } else {
                sobj = obj.to_string();
            }
            let mut s = "DEFAULT ".to_string();
            push_str(&mut s, sobj.as_str());
            Ok(s)
        },
    }
}

fn gen_column_types_string(column_types: &Vec<ColumnTypeNode>) -> (r: Result<String, Error>)
    ensures
        text_agrees(r, column_types_text(ctv(column_types@))),
{
    let ghost cts = ctv(column_types@);
    let mut scolumn_type = String::new();
    let mut i: usize = 0;
    while i < column_types.len()
        invariant
            i <= column_types@.len(),
            cts == ctv(column_types@),
            column_types_spaced(cts.take(i as int)) == Ok::<Seq<char>, ErrorKind>(scolumn_type@),
        decreases column_types@.len() - i,
    {
        proof {
            assert(cts.take(i + 1).drop_last() =~= cts.take(i as int));
            assert(cts.take(i + 1).last() == column_types@[i as int]@);
        }
        let stype = match gen_csv_head_col_type_by_column_type(&column_types[i]) {
            Ok(t) => t,
            Err(e) => {
                proof {
                    lemma_types_spaced_prefix(cts, i + 1);
                }
                return Err(e);
            },
        };
        push_str(&mut scolumn_type, stype.as_str());
        push_str(&mut scolumn_type, " ");
        proof {
            assert(scolumn_type@ =~= column_types_spaced(cts.take(i + 1))->Ok_0);
        }
        i += 1;
    }
    proof {
        assert(cts.take(i as int) =~= cts);
    }
    pop_char(&mut scolumn_type);
    Ok(scolumn_type)
}

/// The header of one column of a new table: `name: TYPE ...`.
pub fn gen_csv_head_col_by_column_def(column_def: &Box<parser::ColumnDefinitionNode>) -> (r: Result<String, Error>)
    ensures
        text_agrees(r, column_def_text(column_def@)),
{
    let mut s = String::new();
    let ghost id_view: Seq<char>;
    if let Some(ident) = &column_def.ident {
        let id = ident_string(ident)?;
        push_str(&mut s, id.as_str());
        proof {
            id_view = ident@;
        }
    } else {
        return Err(make_error(ErrorKind::Runtime, "missing ident"));
    }
    proof {
        assert(s@ =~= id_view);
        assert(column_def@.ident == Some(id_view));
    }
    push_str(&mut s, ": ");
    let ghost head = s@;
    let ghost cts = ctv(column_def.column_types@);
    let mut i: usize = 0;
    while i < column_def.column_types.len()
        invariant
            i <= column_def.column_types@.len(),
            cts == ctv(column_def.column_types@),
            column_types_spaced(cts.take(i as int)) is Ok,
            s@ == head + column_types_spaced(cts.take(i as int))->Ok_0,
        decreases column_def.column_types@.len() - i,
    {
        proof {
            assert(cts.take(i + 1).drop_last() =~= cts.take(i as int));
            assert(cts.take(i + 1).last() == column_def.column_types@[i as int]@);
        }
        let t = match gen_csv_head_col_type_by_column_type(&column_def.column_types[i]) {
            Ok(t) => t,
            Err(e) => {
                proof {
                    lemma_types_spaced_prefix(cts, i + 1);
                }
                return Err(e);
            },
        };
        push_str(&mut s, t.as_str());
        push_str(&mut s, " ");
        proof {
            assert(s@ =~= head + column_types_spaced(cts.take(i + 1))->Ok_0);
        }
        i += 1;
    }
    proof {
        assert(cts.take(i as int) =~= cts);
        assert(head + column_types_spaced(cts)->Ok_0 =~= id_view + ": "@ + column_types_spaced(cts)->Ok_0);
        reveal_strlit(": ");
        assert(s@.len() > 0);
    }
    pop_char(&mut s);
    Ok(s)
}

/// The head row of a new table's CSV file.
pub fn gen_csv_head_row_by_column_defs(column_defs: &Vec<Box<parser::ColumnDefinitionNode>>) -> (r: Result<String, Error>)
    ensures
        text_agrees(r, csv_head_row(sv(column_defs@))),
{
    let ghost cds = sv(column_defs@);
    let mut s = String::new();
    let mut i: usize = 0;
    while i < column_defs.len()
        invariant
            i <= column_defs@.len(),
            cds == sv(column_defs@),
            column_defs_spaced(cds.take(i as int)) == Ok::<Seq<char>, ErrorKind>(s@),
        decreases column_defs@.len() - i,
    {
        proof {
            assert(cds.take(i + 1).drop_last() =~= cds.take(i as int));
            assert(cds.take(i + 1).last() == column_defs@[i as int]@);
        }
        let col = match gen_csv_head_col_by_column_def(&column_defs[i]) {
            Ok(c) => c,
            Err(e) => {
                proof {
                    lemma_defs_spaced_prefix(cds, i + 1);
                }
                return Err(e);
            },
        };
        push_str(&mut s, col.as_str());
        push_str(&mut s, ",");
        proof {
            assert(s@ =~= column_defs_spaced(cds.take(i + 1))->Ok_0);
        }
        i += 1;
    }
    proof {
        assert(cds.take(i as int) =~= cds);
    }
    pop_char(&mut s);
    push_str(&mut s, "\n");
    Ok(s)
}


pub fn plan_desc_stmt(node: &Box<parser::DescStmtNode>, plan: &mut PlanNode) -> (r: Result<(), Error>)
    ensures
        plan_agrees(r, plan_model::plan_desc(node@, old(plan)@), old(plan)@, final(plan)@),
{
    let mut desc_table = DescTableNode::new();
    if let Some(table_name) = &node.table_name {
        let table_name = ident_string(table_name)?;
        desc_table.table_name = Some(table_name);
        plan.desc_table = Some(Box::new(desc_table));
        Ok(())
    } else {
        Err(make_error(ErrorKind::Runtime, "invalid state: desc stmt"))
    }
}

pub fn plan_alter_stmt(node: &Box<parser::AlterStmtNode>, plan: &mut PlanNode) -> (r: Result<(), Error>)
    ensures
        plan_agrees(r, plan_model::plan_alter(node@, old(plan)@), old(plan)@, final(plan)@),
{
    if let Some(alter_table) = &node.alter_table {
        plan_alter_table(alter_table, plan)?;
        Ok(())
    } else {
        Err(make_error(ErrorKind::Runtime, "invalid state: alter stmt"))
    }
}

/// A full scan of the named table, for the column changes of `ALTER TABLE`.
fn full_scan_project(method: TokenKind, table_name: &String) -> (p: ProjectNode)
    ensures
        p@ == plan_model::rewrite_project(method, table_name@),
{
    let mut project = ProjectNode::new();
    let mut filter = FilterNode::new();
    let mut csv_file_scan = CsvFileScanNode::new();
    project.method = method;
    project.all = true;
    csv_file_scan.table_name = table_name.clone();
    csv_file_scan.all = true;
    filter.csv_file_scan = Some(Box::new(csv_file_scan));
    project.filter = Some(Box::new(filter));
    project
}

pub fn plan_alter_table(node: &Box<parser::AlterTableNode>, plan: &mut PlanNode) -> (r: Result<(), Error>)
    ensures
        plan_agrees(r, plan_model::plan_alter_table(node@, old(plan)@), old(plan)@, final(plan)@),
{
    if let Some(alter_add_column) = &node.alter_add_column {
        let mut n = CsvFileRewriteNode::new();
        let mut column_add = ColumnAddNode::new();
        let table_name;
        if let Some(t) = &node.table_name {
            table_name = ident_string(t)?;
            n.table_name = Some(table_name.clone());
        } else {
            return Err(make_error(ErrorKind::Runtime, "missing table name in plan alter table"));
        }
        let ident;
        if let Some(i) = &alter_add_column.ident {
            ident = ident_string(i)?;
            column_add.ident = Some(ident.clone());
        } else {
            return Err(make_error(ErrorKind::Runtime, "missing column ident in plan alter table"));
        }
        let column_types_string = gen_column_types_string(&alter_add_column.column_types)?;
        let mut new_type = String::new();
        push_str(&mut new_type, ident.as_str());
        push_str(&mut new_type, ": ");
        push_str(&mut new_type, column_types_string.as_str());
        column_add.column_types_string = Some(column_types_string);
        column_add.column_definition_string = Some(new_type);
        column_add.project = Some(Box::new(full_scan_project(TokenKind::Alter, &table_name)));
        n.column_add = Some(Box::new(column_add));
        plan.csv_file_rewrite = Some(Box::new(n));
        proof {
            assert(new_type@ =~= ident@ + ": "@ + column_types_string@);
        }
    } else if let Some(alter_drop_column) = &node.alter_drop_column {
        let mut n = CsvFileRewriteNode::new();
        let mut column_drop = ColumnDropNode::new();
        let table_name;
        if let Some(t) = &node.table_name {
            table_name = ident_string(t)?;
            n.table_name = Some(table_name.clone());
        } else {
            return Err(make_error(ErrorKind::Runtime, "missing table name in plan alter table"));
        }
        if let Some(i) = &alter_drop_column.ident {
            column_drop.ident = Some(ident_string(i)?);
        }
        column_drop.project = Some(Box::new(full_scan_project(TokenKind::Nil, &table_name)));
        n.column_drop = Some(Box::new(column_drop));
        plan.csv_file_rewrite = Some(Box::new(n));
    } else if let Some(alter_rename_column) = &node.alter_rename_column {
        let mut n = CsvFileRewriteNode::new();
        let mut column_rename = ColumnRenameNode::new();
        let table_name;
        if let Some(t) = &node.table_name {
            table_name = ident_string(t)?;
            n.table_name = Some(table_name.clone());
        } else {
            return Err(make_error(ErrorKind::Runtime, "missing table name in plan alter table"));
        }
        if let Some(i) = &alter_rename_column.from_ident {
            column_rename.from_ident = Some(ident_string(i)?);
        }
        if let Some(i) = &alter_rename_column.to_ident {
            column_rename.to_ident = Some(ident_string(i)?);
        }
        column_rename.project = Some(Box::new(full_scan_project(TokenKind::Nil, &table_name)));
        n.column_rename = Some(Box::new(column_rename));
        plan.csv_file_rewrite = Some(Box::new(n));
    } else if let Some(alter_rename_table) = &node.alter_rename_table {
        let mut csv_file_rename = CsvFileRenameNode::new();
        if let Some(t) = &node.table_name {
            csv_file_rename.table_name = Some(ident_string(t)?);
        } else {
            return Err(make_error(ErrorKind::Runtime, "missing table name in plan alter table"));
        }
        if let Some(i) = &alter_rename_table.to_ident {
            csv_file_rename.to_ident = Some(ident_string(i)?);
        }
        plan.csv_file_rename = Some(Box::new(csv_file_rename));
    } else if let Some(alter_column_type) = &node.alter_column_type {
        let mut rewrite = CsvFileRewriteNode::new();
        let mut column_alter_type = ColumnAlterTypeNode::new();
        let table_name;
        if let Some(t) = &node.table_name {
            table_name = ident_string(t)?;
            rewrite.table_name = Some(table_name.clone());
        } else {
            return Err(make_error(ErrorKind::Runtime, "missing table name in plan alter table"));
        }
        if let Some(i) = &alter_column_type.ident {
            column_alter_type.ident = Some(ident_string(i)?);
        }
        column_alter_type.column_types = copy_column_types(&alter_column_type.column_types);
        column_alter_type.project = Some(Box::new(full_scan_project(TokenKind::Nil, &table_name)));
        rewrite.column_alter_type = Some(Box::new(column_alter_type));
        plan.csv_file_rewrite = Some(Box::new(rewrite));
    } else {
        return Err(make_error(ErrorKind::Runtime, "invalid state: plan alter table"));
    }
    Ok(())
}

pub fn plan_drop_stmt(node: &Box<parser::DropStmtNode>, plan: &mut PlanNode) -> (r: Result<(), Error>)
    ensures
        plan_agrees(r, plan_model::plan_drop(node@, old(plan)@), old(plan)@, final(plan)@),
{
    if let Some(t) = &node.table_name {
        let mut csv_file_delete = CsvFileDeleteNode::new();
        csv_file_delete.table_name = Some(ident_string(t)?);
        csv_file_delete.if_exists = node.if_exists;
        plan.csv_file_delete = Some(Box::new(csv_file_delete));
    } else if let Some(d) = &node.db_name {
        let mut dir_delete_all = DirDeleteAllNode::new();
        dir_delete_all.db_name = Some(ident_string(d)?);
        dir_delete_all.if_exists = node.if_exists;
        plan.dir_delete_all = Some(Box::new(dir_delete_all));
    } else {
        return Err(make_error(ErrorKind::Runtime, "invalid state: drop stmt"));
    }
    Ok(())
}

pub fn plan_show_stmt(node: &Box<parser::ShowStmtNode>, plan: &mut PlanNode) -> (r: Result<(), Error>)
    ensures
        r is Ok,
        final(plan)@ == plan_model::plan_show(**node, old(plan)@),
{
    let mut dir_list = DirListNode::new();
    if node.tables {
        dir_list.csv_file_grep = Some(Box::new(CsvFileGrepNode::new()));
    }
    plan.dir_list = Some(Box::new(dir_list));
    Ok(())
}

pub fn plan_use_stmt(node: &Box<parser::UseStmtNode>, plan: &mut PlanNode) -> (r: Result<(), Error>)
    ensures
        plan_agrees(r, plan_model::plan_use(node@, old(plan)@), old(plan)@, final(plan)@),
{
    let mut use_db = UseDatabaseNode::new();
    if let Some(db_name) = &node.db_name {
        use_db.db_name = ident_string(db_name)?;
    } else {
        return Err(make_error(ErrorKind::Runtime, "missing database name in use stmt"));
    }
    plan.use_db = Some(Box::new(use_db));
    Ok(())
}

pub fn plan_create_stmt(node: &Box<parser::CreateStmtNode>, plan: &mut PlanNode) -> (r: Result<(), Error>)
    ensures
        plan_agrees(r, plan_model::plan_create(node@, old(plan)@), old(plan)@, final(plan)@),
{
    if let Some(create_database) = &node.create_database {
        plan_create_database(create_database, plan)
    } else if let Some(create_table) = &node.create_table {
        plan_create_table(create_table, plan)
    } else {
        Err(make_error(ErrorKind::Runtime, "invalid state in create stmt"))
    }
}

pub fn plan_create_database(node: &Box<parser::CreateDatabaseNode>, plan: &mut PlanNode) -> (r: Result<(), Error>)
    ensures
        r is Ok,
        final(plan)@ == plan_model::plan_create_database(node@, old(plan)@),
{
    let mut db_create = DatabaseCreateNode::new();
    if let Some(ident) = &node.ident {
        db_create.db_name = ident_string(ident)?;
    }
    plan.database_create = Some(Box::new(db_create));
    Ok(())
}

pub fn plan_create_table(node: &Box<parser::CreateTableNode>, plan: &mut PlanNode) -> (r: Result<(), Error>)
    ensures
        plan_agrees(r, plan_model::plan_create_table(node@, old(plan)@), old(plan)@, final(plan)@),
{
    let mut csv_file_create = CsvFileCreateNode::new();
    if let Some(ident) = &node.ident {
        csv_file_create.table_name = ident_string(ident)?;
    }
    csv_file_create.csv_head_row = gen_csv_head_row_by_column_defs(&node.column_definitions)?;
    plan.csv_file_create = Some(Box::new(csv_file_create));
    Ok(())
}

pub fn plan_add_stmt(node: &Box<parser::AddStmtNode>, plan: &mut PlanNode) -> (r: Result<(), Error>)
    ensures
        r is Ok,
        final(plan)@ == plan_model::plan_add(node@, old(plan)@),
{
    let mut append = CsvFileAppendNode::new();
    if let Some(expr_list) = &node.expr_list {
        append.expr_list = Some(Box::new((**expr_list).deep_copy()));
    }
    if let Some(table) = &node.table {
        append.table_name = ident_string(table)?;
    }
    if node.expr_list.is_none() {
        if let Some(paren_idents) = &node.paren_idents {
            append.paren_idents = Some(Box::new((**paren_idents).deep_copy()));
        }
        append.paren_values_list = copy_boxes(&node.paren_values_list);
    }
    plan.csv_file_append = Some(Box::new(append));
    Ok(())
}

pub fn plan_del_stmt(node: &Box<parser::DelStmtNode>, plan: &mut PlanNode) -> (r: Result<(), Error>)
    ensures
        r is Ok,
        final(plan)@ == plan_model::plan_del(node@, old(plan)@),
{
    let mut rewrite = CsvFileRewriteNode::new();
    let mut row_delete = RowDeleteNode::new();
    let mut project = ProjectNode::new();
    let mut filter = FilterNode::new();
    let mut csv_file_scan = CsvFileScanNode::new();
    project.method = TokenKind::Del;
    project.all = true;
    row_delete.all = node.all;
    if let Some(table) = &node.table {
        let ident = ident_string(table)?;
        csv_file_scan.table_name = ident.clone();
        csv_file_scan.all = true;
        filter.csv_file_scan = Some(Box::new(csv_file_scan));
        rewrite.table_name = Some(ident);
    }
    if let Some(where_clause) = &node.where_clause {
        filter.where_clause = Some(Box::new((**where_clause).deep_copy()));
    }
    if let Some(limit) = &node.limit {
        project.limit = Some(Box::new((**limit).deep_copy()));
    }
    project.filter = Some(Box::new(filter));
    row_delete.project = Some(Box::new(project));
    rewrite.row_delete = Some(Box::new(row_delete));
    plan.csv_file_rewrite = Some(Box::new(rewrite));
    Ok(())
}

pub fn plan_set_stmt(node: &Box<parser::SetStmtNode>, plan: &mut PlanNode) -> (r: Result<(), Error>)
    ensures
        plan_agrees(r, plan_model::plan_set(node@, old(plan)@), old(plan)@, final(plan)@),
{
    let mut rewrite = CsvFileRewriteNode::new();
    let mut row_update = RowUpdateNode::new();
    let mut project = ProjectNode::new();
    let mut filter = FilterNode::new();
    let mut csv_file_scan = CsvFileScanNode::new();
    project.method = TokenKind::SetKw;
    project.all = true;
    if let Some(expr_list) = &node.expr_list {
        row_update.expr_list = Some(Box::new((**expr_list).deep_copy()));
    } else {
        return Err(make_error(ErrorKind::Runtime, "missing expr list in set stmt"));
    }
    if let Some(table) = &node.table {
        let table_name = ident_string(table)?;
        csv_file_scan.table_name = table_name.clone();
        csv_file_scan.all = true;
        rewrite.table_name = Some(table_name);
    } else {
        return Err(make_error(ErrorKind::Runtime, "missing table name in set stmt"));
    }
    if let Some(where_clause) = &node.where_clause {
        filter.where_clause = Some(Box::new((**where_clause).deep_copy()));
    }
    if let Some(limit) = &node.limit {
        project.limit = Some(Box::new((**limit).deep_copy()));
    }
    filter.csv_file_scan = Some(Box::new(csv_file_scan));
    project.filter = Some(Box::new(filter));
    row_update.all = node.all;
    row_update.project = Some(Box::new(project));
    rewrite.row_update = Some(Box::new(row_update));
    plan.csv_file_rewrite = Some(Box::new(rewrite));
    Ok(())
}

fn needs_aggregate_func_expr(node: &Box<parser::FuncExprNode>) -> (r: Result<bool, Error>)
    ensures
        r is Ok,
        r->Ok_0 == plan_model::func_needs_aggregate(node@),
{
    proof {
        reveal_with_fuel(parser::v_func, 1);
        reveal_with_fuel(parser::v_ors, 1);
        reveal_with_fuel(parser::v_or, 1);
    }
    if let Some(ident) = &node.ident {
        let name = ident_string(ident)?;
        let func_name = str_to_lowercase(name.as_str());
        proof {
            reveal_strlit("count");
        }
        let is_count = func_name.as_str().unicode_len() == 5 && str_eq(func_name.as_str(), "count");
        return Ok(is_count);
    }
    Ok(false)
}

/// Whether two texts are the same.
fn str_eq(a: &str, b: &str) -> (r: bool)
    ensures
        r == (a@ == b@),
{
    let n = a.unicode_len();
    if n != b.unicode_len() {
        return false;
    }
    let mut i: usize = 0;
    while i < n
        invariant
            n == a@.len(),
            n == b@.len(),
            i <= n,
            forall|k: int| 0 <= k < i ==> a@[k] == b@[k],
        decreases n - i,
    {
        if a.get_char(i) != b.get_char(i) {
            return false;
        }
        i += 1;
    }
    proof {
        assert(a@ =~= b@);
    }
    true
}

fn needs_aggregate_ass_expr(node: &Box<parser::AssExprNode>) -> (r: Result<bool, Error>)
    ensures
        bool_agrees(r, plan_model::ass_needs_aggregate(node@)),
{
    proof {
        reveal_with_fuel(parser::v_ass, 1);
        reveal_with_fuel(parser::v_func, 1);
    }
    if let Some(func_expr) = &node.left_func_expr {
        return Ok(needs_aggregate_func_expr(func_expr)?);
    }
    if let Some(func_expr) = &node.right_func_expr {
        return Ok(needs_aggregate_func_expr(func_expr)?);
    }
    Err(make_error(ErrorKind::Runtime, "invalid state: needs aggregate ass expr"))
}

fn needs_aggregate_expr(node: &Box<parser::ExprNode>) -> (r: Result<bool, Error>)
    ensures
        bool_agrees(r, plan_model::expr_needs_aggregate(node@)),
{
    proof {
        reveal_with_fuel(parser::v_expr, 1);
        reveal_with_fuel(parser::v_ass, 1);
    }
    if let Some(ass_expr) = &node.ass_expr {
        return Ok(needs_aggregate_ass_expr(ass_expr)?);
    }
    Err(make_error(ErrorKind::Runtime, "invalid state: needs aggregate expr"))
}

fn needs_aggregate_expr_list(node: &Box<parser::ExprListNode>) -> (r: Result<bool, Error>)
    ensures
        bool_agrees(r, plan_model::exprs_need_aggregate(node@.exprs, 0)),
{
    let ghost es = node@.exprs;
    let mut i: usize = 0;
    while i < node.exprs.len()
        invariant
            i <= node.exprs@.len(),
            es == node@.exprs,
            es.len() == node.exprs@.len(),
            plan_model::exprs_need_aggregate(es, 0) == plan_model::exprs_need_aggregate(es, i as int),
        decreases node.exprs@.len() - i,
    {
        proof {
            assert(es[i as int] == node.exprs@[i as int]@);
        }
        if needs_aggregate_expr(&node.exprs[i])? {
            return Ok(true);
        }
        i += 1;
    }
    Ok(false)
}

fn needs_aggregate(node: &Box<parser::GetStmtNode>) -> (r: Result<bool, Error>)
    ensures
        bool_agrees(r, plan_model::get_needs_aggregate(node@)),
{
    if let Some(expr_list) = &node.expr_list {
        return Ok(needs_aggregate_expr_list(expr_list)?);
    }
    Err(make_error(ErrorKind::Runtime, "invalid state: needs aggregate"))
}

pub fn plan_get_stmt(node: &Box<parser::GetStmtNode>, plan: &mut PlanNode) -> (r: Result<(), Error>)
    ensures
        plan_agrees(r, plan_model::plan_get(node@, old(plan)@), old(plan)@, final(plan)@),
{
    let mut filter = FilterNode::new();
    let mut csv_file_scan = CsvFileScanNode::new();
    let mut sort = SortNode::new();
    if needs_aggregate(node)? {
        let mut aggregate = AggregateNode::new();
        aggregate.all = node.all;
        if let Some(expr_list) = &node.expr_list {
            aggregate.expr_list = Some(Box::new((**expr_list).deep_copy()));
        }
        if let Some(table) = &node.table {
            csv_file_scan.table_name = ident_string(table)?;
            csv_file_scan.all = node.all;
        }
        if let Some(where_clause) = &node.where_clause {
            filter.where_clause = Some(Box::new((**where_clause).deep_copy()));
        }
        if let Some(limit) = &node.limit {
            aggregate.limit = Some(Box::new((**limit).deep_copy()));
        }
        filter.csv_file_scan = Some(Box::new(csv_file_scan));
        aggregate.filter = Some(Box::new(filter));
        aggregate.all = node.all;
        plan.aggregate = Some(Box::new(aggregate));
    } else {
        let mut project = ProjectNode::new();
        project.method = TokenKind::Get;
        if let Some(expr_list) = &node.expr_list {
            project.expr_list = Some(Box::new((**expr_list).deep_copy()));
        }
        if let Some(table) = &node.table {
            csv_file_scan.table_name = ident_string(table)?;
            csv_file_scan.all = node.all;
        }
        if let Some(where_clause) = &node.where_clause {
            filter.where_clause = Some(Box::new((**where_clause).deep_copy()));
        }
        if let Some(limit) = &node.limit {
            project.limit = Some(Box::new((**limit).deep_copy()));
        }
        if let Some(order_by) = &node.order_by {
            if let Some(expr) = &order_by.expr {
                filter.csv_file_scan = Some(Box::new(csv_file_scan));
                project.filter = Some(Box::new(filter));
                project.all = true;
                sort.expr = Some(Box::new((**expr).deep_copy()));
                sort.project = Some(Box::new(project));
                sort.is_asc = order_by.is_asc;
                sort.all = node.all;
                plan.sort = Some(Box::new(sort));
            }
        } else {
            filter.csv_file_scan = Some(Box::new(csv_file_scan));
            project.filter = Some(Box::new(filter));
            project.all = node.all;
            plan.project = Some(Box::new(project));
        }
    }
    Ok(())
}

pub fn plan_stmt(node: &Box<parser::StmtNode>, plan: &mut PlanNode) -> (r: Result<(), Error>)
    ensures
        plan_agrees(r, plan_model::plan_stmt(node@, old(plan)@), old(plan)@, final(plan)@),
{
    if let Some(show_stmt) = &node.show_stmt {
        plan_show_stmt(show_stmt, plan)?
    } else if let Some(desc_stmt) = &node.desc_stmt {
        plan_desc_stmt(desc_stmt, plan)?
    } else if let Some(alter_stmt) = &node.alter_stmt {
        plan_alter_stmt(alter_stmt, plan)?
    } else if let Some(drop_stmt) = &node.drop_stmt {
        plan_drop_stmt(drop_stmt, plan)?
    } else if let Some(use_stmt) = &node.use_stmt {
        plan_use_stmt(use_stmt, plan)?
    } else if let Some(create_stmt) = &node.create_stmt {
        plan_create_stmt(create_stmt, plan)?
    } else if let Some(get_stmt) = &node.get_stmt {
        plan_get_stmt(get_stmt, plan)?;
    } else if let Some(set_stmt) = &node.set_stmt {
        plan_set_stmt(set_stmt, plan)?;
    } else if let Some(add_stmt) = &node.add_stmt {
        plan_add_stmt(add_stmt, plan)?;
    } else if let Some(del_stmt) = &node.del_stmt {
        plan_del_stmt(del_stmt, plan)?;
    }
    Ok(())
}

/// Plans each statement of the query in turn, appending one plan for each
/// to `plans`; stops at the first statement that cannot be planned.
pub fn plan_query(node: &parser::QueryNode, plans: &mut PlansNode) -> (r: Result<(), Error>)
    ensures
        match plan_model::plan_stmts(node@.stmts, node@.stmts.len() as int) {
            Ok(ps) => r is Ok && final(plans)@.plans == old(plans)@.plans + ps,
            Err(k) => r is Err && r->Err_0@ == k,
        },
{
    let ghost stmts = node@.stmts;
    let ghost start = plans@.plans;
    let mut i: usize = 0;
    while i < node.stmts.len()
        invariant
            i <= node.stmts@.len(),
            stmts == node@.stmts,
            stmts.len() == node.stmts@.len(),
            plan_model::plan_stmts(stmts, i as int) is Ok,
            plans@.plans == start + plan_model::plan_stmts(stmts, i as int)->Ok_0,
        decreases node.stmts@.len() - i,
    {
        let mut plan = PlanNode::new();
        let r = plan_stmt(&node.stmts[i], &mut plan);
        proof {
            assert(stmts[i as int] == node.stmts@[i as int]@);
        }
        match r {
            Ok(()) => {},
            Err(e) => {
                proof {
                    lemma_plan_stmts_err(stmts, i as int + 1);
                }
                return Err(e);
            },
        }
        let ghost before = plans.plans@;
        let ghost p = plan@;
        plans.plans.push(plan);
        proof {
            assert(plans.plans@ == before.push(plan));
            assert(plans@.plans =~= before.map_values(|q: PlanNode| q@).push(p));
            assert(plan_model::plan_stmts(stmts, i + 1) == Ok::<Seq<plan_model::Plan>, ErrorKind>(
                plan_model::plan_stmts(stmts, i as int)->Ok_0.push(p)));
            assert(plans@.plans =~= start + plan_model::plan_stmts(stmts, i + 1)->Ok_0);
        }
        i += 1;
    }
    Ok(())
}

/// Once a statement cannot be planned, no longer prefix can be either.
proof fn lemma_plan_stmts_err(stmts: Seq<grammar::Stmt>, k: int)
    requires
        0 <= k <= stmts.len(),
        plan_model::plan_stmts(stmts, k) is Err,
    ensures
        plan_model::plan_stmts(stmts, stmts.len() as int) == plan_model::plan_stmts(stmts, k),
    decreases stmts.len() - k,
{
    if k < stmts.len() {
        lemma_plan_stmts_err(stmts, k + 1);
    }
}

/// The plans of a query: one plan for each statement, or the first error.
pub fn planning(node: &parser::QueryNode) -> (r: Result<PlansNode, Error>)
    ensures
        match plan_model::plan_query(node@) {
            Ok(ps) => r is Ok && r->Ok_0@ == ps,
            Err(k) => r is Err && r->Err_0@ == k,
        },
{
    let mut plans = PlansNode::new();
    plan_query(node, &mut plans)?;
    proof {
        assert(plans@.plans =~= plan_model::plan_stmts(node@.stmts, node@.stmts.len() as int)->Ok_0);
    }
    Ok(plans)
}

} // verus!
