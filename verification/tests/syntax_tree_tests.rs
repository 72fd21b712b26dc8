use saba::error::ErrorKind;
use saba::parser::{parse, AddSubExprItemNode, AddSubOpNode, ColumnTypeNode, CompareExprItemNode, CompareOpNode, QueryNode};
use saba::tokenizer::{TokenStream, tokenize};
use saba::utils::parse_query;

fn tree(s: &str) -> QueryNode {
    match parse_query(s.to_string()) {
        Ok(q) => q,
        Err(e) => panic!("{}", e.to_message()),
    }
}

fn parse_error(s: &str) -> ErrorKind {
    match parse_query(s.to_string()) {
        Ok(_) => panic!("parsed: {}", s),
        Err(e) => e.kind(),
    }
}

#[test]
fn statements_are_split_at_semicolons() {
    let q = tree("USE a; USE b; SHOW TABLES");
    assert_eq!(q.stmts.len(), 3);
    assert_eq!(q.stmts[0].use_stmt.as_ref().unwrap().db_name.as_ref().unwrap().value, "a");
    assert_eq!(q.stmts[1].use_stmt.as_ref().unwrap().db_name.as_ref().unwrap().value, "b");
    assert!(q.stmts[2].show_stmt.as_ref().unwrap().tables);
}

#[test]
fn empty_query_has_no_statements() {
    let q = tree("   ");
    assert_eq!(q.stmts.len(), 0);
}

#[test]
fn missing_semicolon_is_a_parse_error() {
    assert_eq!(parse_error("USE a USE b"), ErrorKind::Parse);
}

#[test]
fn unknown_statement_is_a_parse_error() {
    assert_eq!(parse_error("hello world"), ErrorKind::Parse);
}

#[test]
fn reading_past_the_end_is_a_runtime_error() {
    assert_eq!(parse_error("SHOW"), ErrorKind::Runtime);
    assert_eq!(parse_error("GET id OF"), ErrorKind::Parse);
    assert_eq!(parse_error("GET"), ErrorKind::Runtime);
}

#[test]
fn show_needs_tables_or_databases() {
    assert_eq!(parse_error("SHOW mydb"), ErrorKind::Parse);
    assert!(tree("SHOW DATABASES").stmts[0].show_stmt.as_ref().unwrap().databases);
}

#[test]
fn drop_reads_if_exists() {
    let q = tree("DROP TABLE IF EXISTS t; DROP DATABASE d");
    let d0 = q.stmts[0].drop_stmt.as_ref().unwrap();
    assert!(d0.if_exists);
    assert_eq!(d0.table_name.as_ref().unwrap().value, "t");
    let d1 = q.stmts[1].drop_stmt.as_ref().unwrap();
    assert!(!d1.if_exists);
    assert_eq!(d1.db_name.as_ref().unwrap().value, "d");
    assert_eq!(parse_error("DROP TABLE IF t"), ErrorKind::Parse);
}

#[test]
fn create_table_reads_column_types() {
    let q = tree("CREATE TABLE t (id: I64 PRIMARY_KEY, name: CHAR[8] DEFAULT \"x\")");
    let ct = q.stmts[0].create_stmt.as_ref().unwrap().create_table.as_ref().unwrap();
    assert_eq!(ct.ident.as_ref().unwrap().value, "t");
    assert_eq!(ct.column_definitions.len(), 2);
    let c0 = &ct.column_definitions[0];
    assert!(matches!(c0.column_types[0], ColumnTypeNode::I64));
    assert!(matches!(c0.column_types[1], ColumnTypeNode::PrimaryKey));
    let c1 = &ct.column_definitions[1];
    assert!(matches!(c1.column_types[0], ColumnTypeNode::Char(8)));
    match &c1.column_types[1] {
        ColumnTypeNode::Default(v) => assert_eq!(v.string.as_ref().unwrap().value, "x"),
        _ => panic!("expected a default"),
    }
}

#[test]
fn create_table_errors() {
    assert_eq!(parse_error("CREATE TABLE t id: I64)"), ErrorKind::Parse);
    assert_eq!(parse_error("CREATE TABLE (id: I64)"), ErrorKind::Parse);
    assert_eq!(parse_error("CREATE TABLE t (id: I64"), ErrorKind::Runtime);
    assert_eq!(parse_error("CREATE TABLE t (id: CHAR 8)"), ErrorKind::Parse);
    assert_eq!(parse_error("CREATE TABLE t (id: I64 DEFAULT)"), ErrorKind::Parse);
}

#[test]
fn alter_table_add_and_drop_column() {
    let q = tree("ALTER TABLE t ADD COLUMN age I64 DEFAULT 3; ALTER TABLE t DROP COLUMN age");
    let a = q.stmts[0].alter_stmt.as_ref().unwrap().alter_table.as_ref().unwrap();
    let add = a.alter_add_column.as_ref().unwrap();
    assert_eq!(add.ident.as_ref().unwrap().value, "age");
    assert_eq!(add.column_types.len(), 2);
    let b = q.stmts[1].alter_stmt.as_ref().unwrap().alter_table.as_ref().unwrap();
    assert_eq!(b.alter_drop_column.as_ref().unwrap().ident.as_ref().unwrap().value, "age");
    assert_eq!(parse_error("ALTER TABLE t ADD COLUMN age"), ErrorKind::Parse);
}

#[test]
fn expressions_keep_operator_order() {
    let q = tree("GET a + b * 2 OF t WHERE a < 3 OR b != 4");
    let g = q.stmts[0].get_stmt.as_ref().unwrap();
    let e = &g.expr_list.as_ref().unwrap().exprs[0];
    let ass = e.ass_expr.as_ref().unwrap();
    assert!(ass.right_func_expr.is_none());
    let or = ass.left_func_expr.as_ref().unwrap().or_expr.as_ref().unwrap();
    let cmp = &or.nodes[0].nodes[0];
    assert_eq!(cmp.nodes.len(), 1);
    match &cmp.nodes[0] {
        CompareExprItemNode::Left(add) => {
            assert_eq!(add.nodes.len(), 3);
            assert!(matches!(add.nodes[1], AddSubExprItemNode::Op(AddSubOpNode::Add)));
            match &add.nodes[2] {
                AddSubExprItemNode::Right(md) => assert_eq!(md.nodes.len(), 3),
                _ => panic!("expected the right operand"),
            }
        },
        _ => panic!("expected the left operand"),
    }
    let w = g.where_clause.as_ref().unwrap().expr.as_ref().unwrap();
    let wor = w.ass_expr.as_ref().unwrap().left_func_expr.as_ref().unwrap().or_expr.as_ref().unwrap();
    assert_eq!(wor.nodes.len(), 2);
    assert!(matches!(wor.nodes[0].nodes[0].nodes[1], CompareExprItemNode::Op(CompareOpNode::Lt)));
    assert!(matches!(wor.nodes[1].nodes[0].nodes[1], CompareExprItemNode::Op(CompareOpNode::NotEq)));
}

#[test]
fn parenthesized_operand_and_limit() {
    let q = tree("GET (a + 1) * 2 OF t LIMIT 10");
    let g = q.stmts[0].get_stmt.as_ref().unwrap();
    assert!(g.limit.as_ref().unwrap().expr.is_some());
    assert_eq!(parse_error("GET (a + 1 OF t"), ErrorKind::Parse);
    assert_eq!(parse_error("GET a OF t LIMIT"), ErrorKind::Parse);
}

#[test]
fn assignment_needs_a_right_side() {
    assert_eq!(parse_error("SET a = OF t"), ErrorKind::Parse);
}

#[test]
fn del_all_and_where() {
    let q = tree("DEL ALL OF t WHERE id == 1 LIMIT 2");
    let d = q.stmts[0].del_stmt.as_ref().unwrap();
    assert!(d.all);
    assert_eq!(d.table.as_ref().unwrap().value, "t");
    assert!(d.where_clause.is_some());
    assert!(d.limit.is_some());
    assert_eq!(parse_error("DEL t"), ErrorKind::Parse);
}

#[test]
fn desc_without_name_is_no_statement() {
    assert_eq!(parse_error("DESC;"), ErrorKind::Parse);
    let q = tree("DESC t");
    assert_eq!(q.stmts[0].desc_stmt.as_ref().unwrap().table_name.as_ref().unwrap().value, "t");
}

#[test]
fn parse_starts_where_the_stream_stands() {
    let tokens = tokenize("USE a; USE b".to_string()).unwrap();
    let mut strm = TokenStream::new(tokens);
    strm.index = 3;
    let q = parse(&mut strm).unwrap();
    assert_eq!(q.stmts.len(), 1);
    assert_eq!(q.stmts[0].use_stmt.as_ref().unwrap().db_name.as_ref().unwrap().value, "b");
}
