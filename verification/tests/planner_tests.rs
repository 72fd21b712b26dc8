use saba::error::ErrorKind;
use saba::planner::PlansNode;
use saba::tokenizer::TokenKind;
use saba::utils::prepare_query;

fn plans(s: &str) -> PlansNode {
    match prepare_query(s.to_string()) {
        Ok(p) => p,
        Err(e) => panic!("{}", e.to_message()),
    }
}

fn plan_error(s: &str) -> ErrorKind {
    match prepare_query(s.to_string()) {
        Ok(_) => panic!("planned: {}", s),
        Err(e) => e.kind(),
    }
}

#[test]
fn one_plan_for_each_statement() {
    let p = plans("CREATE DATABASE d; USE d; SHOW TABLES; SHOW DATABASES");
    assert_eq!(p.plans.len(), 4);
    assert_eq!(p.plans[0].database_create.as_ref().unwrap().db_name, "d");
    assert_eq!(p.plans[1].use_db.as_ref().unwrap().db_name, "d");
    assert!(p.plans[2].dir_list.as_ref().unwrap().csv_file_grep.is_some());
    assert!(p.plans[3].dir_list.as_ref().unwrap().csv_file_grep.is_none());
}

#[test]
fn create_table_plans_the_header_row() {
    let p = plans("
CREATE TABLE mytab (
	id: I64 PRIMARY_KEY AUTO_INCREMENT,
	weight: F64,
	name: CHAR[128],
);
");
    let c = p.plans[0].csv_file_create.as_ref().unwrap();
    assert_eq!(c.table_name, "mytab");
    assert_eq!(c.csv_head_row, "id: INT PRIMARY_KEY AUTO_INCREMENT,weight: FLOAT,name: CHAR[128]\n");
}

#[test]
fn create_table_default_values_in_header_row() {
    let p = plans("CREATE TABLE t (a: I64 DEFAULT 7, b: CHAR[4] DEFAULT \"x\", c: BOOL DEFAULT true, d: F64 DEFAULT 1.25)");
    let c = p.plans[0].csv_file_create.as_ref().unwrap();
    assert_eq!(c.csv_head_row, "a: INT DEFAULT 7,b: CHAR[4] DEFAULT \"x\",c: BOOL DEFAULT true,d: FLOAT DEFAULT 1.25\n");
}

#[test]
fn drop_plans() {
    let p = plans("DROP TABLE IF EXISTS t; DROP DATABASE d");
    let t = p.plans[0].csv_file_delete.as_ref().unwrap();
    assert_eq!(t.table_name.as_deref(), Some("t"));
    assert!(t.if_exists);
    let d = p.plans[1].dir_delete_all.as_ref().unwrap();
    assert_eq!(d.db_name.as_deref(), Some("d"));
    assert!(!d.if_exists);
}

#[test]
fn drop_without_name_fails_at_planning() {
    assert_eq!(plan_error("DROP TABLE IF EXISTS"), ErrorKind::Runtime);
}

#[test]
fn desc_plan() {
    let p = plans("DESC t");
    assert_eq!(p.plans[0].desc_table.as_ref().unwrap().table_name.as_deref(), Some("t"));
}

#[test]
fn get_plan_scans_filters_and_projects() {
    let p = plans("GET ALL id OF t WHERE id == 1");
    let pr = p.plans[0].project.as_ref().unwrap();
    assert_eq!(pr.method, TokenKind::Get);
    assert!(pr.all);
    let f = pr.filter.as_ref().unwrap();
    assert!(f.where_clause.is_some());
    let scan = f.csv_file_scan.as_ref().unwrap();
    assert_eq!(scan.table_name, "t");
}

#[test]
fn add_plan_appends() {
    let p = plans("ADD id = 1, name = \"x\" OF t");
    let a = p.plans[0].csv_file_append.as_ref().unwrap();
    assert_eq!(a.table_name, "t");
    assert_eq!(a.expr_list.as_ref().unwrap().exprs.len(), 2);
}

#[test]
fn set_and_del_plans_rewrite() {
    let p = plans("SET a = 1 OF t WHERE id == 2; DEL OF t");
    let r0 = p.plans[0].csv_file_rewrite.as_ref().unwrap();
    assert_eq!(r0.table_name.as_deref(), Some("t"));
    assert!(r0.row_update.is_some());
    let r1 = p.plans[1].csv_file_rewrite.as_ref().unwrap();
    assert!(r1.row_delete.is_some());
}

#[test]
fn alter_plans() {
    let p = plans("ALTER TABLE t ADD COLUMN age I64 DEFAULT 3; ALTER TABLE t DROP COLUMN age");
    let r0 = p.plans[0].csv_file_rewrite.as_ref().unwrap();
    assert_eq!(r0.table_name.as_deref(), Some("t"));
    let add = r0.column_add.as_ref().unwrap();
    assert_eq!(add.column_definition_string.as_deref(), Some("age: INT DEFAULT 3"));
    let r1 = p.plans[1].csv_file_rewrite.as_ref().unwrap();
    assert!(r1.column_drop.is_some());
}

#[test]
fn parse_errors_come_before_planning() {
    assert_eq!(plan_error("CREATE TABLE mytab (id: PRIMARY_KEY)"), ErrorKind::Parse);
    assert_eq!(plan_error("USE"), ErrorKind::Parse);
}

#[test]
fn int_and_float_are_column_types() {
    let p = plans("CREATE TABLE test_table (id: INT, weight: FLOAT, name: CHAR[128])");
    let c = p.plans[0].csv_file_create.as_ref().unwrap();
    assert_eq!(c.csv_head_row, "id: INT,weight: FLOAT,name: CHAR[128]\n");
    let p = plans("CREATE TABLE t (id: INT PRIMARY_KEY AUTO_INCREMENT, name: CHAR[4])");
    let c = p.plans[0].csv_file_create.as_ref().unwrap();
    assert_eq!(c.csv_head_row, "id: INT PRIMARY_KEY AUTO_INCREMENT,name: CHAR[4]\n");
}
