use saba::columns::{
    exec_column_add, exec_column_alter_type, exec_column_drop, exec_column_rename, exec_csv_file_rewrite, rewrite_headers,
    scanned_rows,
};
use saba::error::{Error, ErrorKind};
use saba::host::Answers;
use saba::headers::parse_csv_headers_as_types;
use saba::parser::ColumnTypeNode;
use saba::planner::{ColumnAlterTypeNode, ColumnRenameNode, CsvFileScanNode, FilterNode, PlanNode, ProjectNode};
use saba::tokenizer::TokenKind;
use saba::rows::{alter_headers_column_type, drop_headers_column, rename_headers_column};
use saba::table::Table;
use saba::utils::prepare_query;


fn row(v: &[&str]) -> Vec<String> {
    v.iter().map(|s| s.to_string()).collect()
}

fn table(n: usize) -> Table {
    let all = vec![
        row(&["1", "3.14", "hige"]),
        row(&["2", "3.14", "hoge"]),
        row(&["3", "3.14", "moge"]),
        row(&["4", "3.14", "huge"]),
        row(&["5", "3.14", "oge"]),
    ];
    Table { headers: row(&["id: INT", "weight: FLOAT", "name: CHAR[128]"]), records: all[..n].to_vec() }
}

fn plan(q: &str) -> PlanNode {
    prepare_query(q.to_string()).unwrap().plans.remove(0)
}

/// A scan of the whole table, as the planner makes for column statements.
fn full_scan() -> Option<Box<ProjectNode>> {
    let mut scan = CsvFileScanNode::new();
    scan.table_name = "test_table".to_string();
    scan.all = true;
    let mut filter = FilterNode::new();
    filter.csv_file_scan = Some(Box::new(scan));
    let mut project = ProjectNode::new();
    project.method = TokenKind::Nil;
    project.all = true;
    project.filter = Some(Box::new(filter));
    Some(Box::new(project))
}

fn file_text(headers: &Vec<String>, rows: &Vec<Vec<String>>) -> String {
    let mut s = headers.join(",") + "\n";
    for r in rows.iter() {
        s += &(r.join(",") + "\n");
    }
    s
}

/// The text of the table file after a drop statement: the new header row,
/// then the rows that the statement writes back.
fn dropped(t: &Table, q: &str) -> Result<String, Error> {
    let p = plan(q);
    let node = p.csv_file_rewrite.unwrap();
    let drop = node.column_drop.as_ref().unwrap();
    let types = parse_csv_headers_as_types(&t.headers)?;
    let headers = drop_headers_column(&types, &t.headers, drop.ident.as_ref().unwrap())?;
    let rows = exec_column_drop(&Answers::new(), t, drop, &types).unwrap()?;
    Ok(file_text(&headers, &rows))
}

/// The text of the table file after `ALTER TABLE test_table ADD COLUMN
/// column`, planned from the query and run as a rewrite.
fn added(t: &Table, column: &str) -> Result<String, Error> {
    let p = plan(&format!("ALTER TABLE test_table ADD COLUMN {}", column));
    let out = exec_csv_file_rewrite(&Answers::new(), t, p.csv_file_rewrite.as_ref().unwrap()).unwrap()?;
    Ok(file_text(&out.headers, &out.records))
}

/// The text of the table file after the column `from` is renamed `to`.
fn renamed(t: &Table, from: &str, to: &str) -> Result<String, Error> {
    let mut node = ColumnRenameNode::new();
    node.project = full_scan();
    node.from_ident = Some(from.to_string());
    node.to_ident = Some(to.to_string());
    let types = parse_csv_headers_as_types(&t.headers)?;
    let headers = rename_headers_column(&types, from, to)?;
    let rows = exec_column_rename(&Answers::new(), t, &node).unwrap()?;
    Ok(file_text(&headers, &rows))
}

/// The text of the table file after the column `ident` is given the types
/// `column_types`.
fn retyped(t: &Table, ident: &str, column_types: Vec<ColumnTypeNode>) -> Result<String, Error> {
    let mut node = ColumnAlterTypeNode::new();
    node.project = full_scan();
    node.ident = Some(ident.to_string());
    node.column_types = column_types;
    let types = parse_csv_headers_as_types(&t.headers)?;
    let headers = alter_headers_column_type(&types, ident, &node.column_types)?;
    let new_types = parse_csv_headers_as_types(&headers)?;
    let rows = exec_column_alter_type(&Answers::new(), t, &new_types, &node).unwrap()?;
    Ok(file_text(&headers, &rows))
}

#[test]
fn test_alter_column_type_0a() {
    assert!(retyped(&table(5), "id", vec![ColumnTypeNode::F64, ColumnTypeNode::AutoIncrement]).is_err());
}

#[test]
fn test_alter_column_type_0() {
    let s = retyped(&table(5), "id", vec![ColumnTypeNode::I64, ColumnTypeNode::AutoIncrement, ColumnTypeNode::PrimaryKey]).unwrap();
    assert_eq!(
        s,
        "id: INT PRIMARY_KEY AUTO_INCREMENT,weight: FLOAT,name: CHAR[128]\n1,3.14,hige\n2,3.14,hoge\n3,3.14,moge\n4,3.14,huge\n5,3.14,oge\n"
    );
}

#[test]
fn test_alter_column_type_1() {
    let s = retyped(&table(2), "name", vec![ColumnTypeNode::Char(10)]).unwrap();
    assert_eq!(s, "id: INT,weight: FLOAT,name: CHAR[10]\n1,3.14,hige\n2,3.14,hoge\n");
}

#[test]
fn test_alter_column_type_2() {
    assert!(retyped(&table(2), "name", vec![ColumnTypeNode::Char(2)]).is_err());
}

#[test]
fn test_alter_column_type_2a() {
    assert!(retyped(&table(2), "weight", vec![ColumnTypeNode::I64]).is_err());
}

#[test]
fn test_alter_column_type_3() {
    let s = retyped(&table(2), "id", vec![ColumnTypeNode::F64]).unwrap();
    assert_eq!(s, "id: FLOAT,weight: FLOAT,name: CHAR[128]\n1,3.14,hige\n2,3.14,hoge\n");
}

#[test]
fn test_alter_add_column_0() {
    let s = added(&table(5), "uge INT").unwrap();
    assert_eq!(
        s,
        "id: INT,weight: FLOAT,name: CHAR[128],uge: INT\n1,3.14,hige,0\n2,3.14,hoge,0\n3,3.14,moge,0\n4,3.14,huge,0\n5,3.14,oge,0\n"
    );
}

#[test]
fn test_alter_add_column_1() {
    let s = added(&table(5), "uge INT DEFAULT 100").unwrap();
    assert_eq!(
        s,
        "id: INT,weight: FLOAT,name: CHAR[128],uge: INT DEFAULT 100\n1,3.14,hige,100\n2,3.14,hoge,100\n3,3.14,moge,100\n4,3.14,huge,100\n5,3.14,oge,100\n"
    );
}

#[test]
fn test_alter_drop_column_0() {
    let s = dropped(&table(5), "ALTER TABLE test_table DROP COLUMN id").unwrap();
    assert_eq!(s, "weight: FLOAT,name: CHAR[128]\n3.14,hige\n3.14,hoge\n3.14,moge\n3.14,huge\n3.14,oge\n");
}

#[test]
fn test_alter_drop_column_1() {
    let s = dropped(&table(5), "ALTER TABLE test_table DROP COLUMN weight").unwrap();
    assert_eq!(s, "id: INT,name: CHAR[128]\n1,hige\n2,hoge\n3,moge\n4,huge\n5,oge\n");
}

#[test]
fn test_alter_drop_column_2() {
    let s = dropped(&table(5), "ALTER TABLE test_table DROP COLUMN name").unwrap();
    assert_eq!(s, "id: INT,weight: FLOAT\n1,3.14\n2,3.14\n3,3.14\n4,3.14\n5,3.14\n");
}

#[test]
fn test_alter_drop_column_3() {
    let e = dropped(&table(5), "ALTER TABLE test_table DROP COLUMN nothing").unwrap_err();
    assert_eq!(e.kind(), ErrorKind::Exec);
}

#[test]
fn test_alter_rename_column_0() {
    let s = renamed(&table(5), "id", "user_id").unwrap();
    assert_eq!(s, "user_id: INT,weight: FLOAT,name: CHAR[128]\n1,3.14,hige\n2,3.14,hoge\n3,3.14,moge\n4,3.14,huge\n5,3.14,oge\n");
}

#[test]
fn alter_statements_on_an_empty_table_write_no_rows() {
    let s = retyped(&table(0), "weight", vec![ColumnTypeNode::I64]).unwrap();
    assert_eq!(s, "id: INT,weight: INT,name: CHAR[128]\n");
    let s = added(&table(0), "uge INT").unwrap();
    assert_eq!(s, "id: INT,weight: FLOAT,name: CHAR[128],uge: INT\n");
}

#[test]
fn a_row_too_short_for_the_altered_column_is_an_error() {
    let t = Table { headers: row(&["id: INT", "name: CHAR[8]"]), records: vec![row(&["1", "a"]), row(&["2"])] };
    let mut node = ColumnAlterTypeNode::new();
    node.project = full_scan();
    node.ident = Some("name".to_string());
    let types = parse_csv_headers_as_types(&row(&["id: INT", "name: CHAR[4]"])).unwrap();
    let e = exec_column_alter_type(&Answers::new(), &t, &types, &node).unwrap().unwrap_err();
    assert_eq!(e.kind(), ErrorKind::Runtime);
}

#[test]
fn a_full_scan_visits_every_row_in_order() {
    let t = table(3);
    let e = scanned_rows(&Answers::new(), &t, &ProjectNode::new()).unwrap().unwrap_err();
    assert_eq!(e.kind(), ErrorKind::Exec);
    let rows = scanned_rows(&Answers::new(), &t, full_scan().as_ref().unwrap()).unwrap().unwrap();
    assert_eq!(rows, t.records);
    let mut node = ColumnRenameNode::new();
    assert!(exec_column_rename(&Answers::new(), &t, &node).unwrap().unwrap().is_empty());
    node.project = full_scan();
    assert_eq!(exec_column_rename(&Answers::new(), &t, &node).unwrap().unwrap(), t.records);
}

#[test]
fn i64_is_another_name_for_int() {
    let s = added(&table(2), "uge I64").unwrap();
    assert_eq!(s, "id: INT,weight: FLOAT,name: CHAR[128],uge: INT\n1,3.14,hige,0\n2,3.14,hoge,0\n");
    let s = added(&table(1), "w2 f64").unwrap();
    assert_eq!(s, "id: INT,weight: FLOAT,name: CHAR[128],w2: FLOAT\n1,3.14,hige,0.0\n");
}

#[test]
fn a_rewrite_gives_the_new_header_row_and_its_rows() {
    let t = table(5);
    let p = plan("ALTER TABLE test_table DROP COLUMN weight");
    let out = exec_csv_file_rewrite(&Answers::new(), &t, p.csv_file_rewrite.as_ref().unwrap()).unwrap().unwrap();
    assert_eq!(file_text(&out.headers, &out.records), "id: INT,name: CHAR[128]\n1,hige\n2,hoge\n3,moge\n4,huge\n5,oge\n");
    let p = plan("DEL ALL OF test_table LIMIT 3");
    let out = exec_csv_file_rewrite(&Answers::new(), &t, p.csv_file_rewrite.as_ref().unwrap()).unwrap().unwrap();
    assert_eq!(file_text(&out.headers, &out.records), "id: INT,weight: FLOAT,name: CHAR[128]\n4,3.14,huge\n5,3.14,oge\n");
    let p = plan("ALTER TABLE test_table DROP COLUMN nothing");
    let e = exec_csv_file_rewrite(&Answers::new(), &t, p.csv_file_rewrite.as_ref().unwrap()).unwrap().unwrap_err();
    assert_eq!(e.kind(), ErrorKind::Exec);
}

#[test]
fn rewriting_the_header_row() {
    let t = table(0);
    let types = parse_csv_headers_as_types(&t.headers).unwrap();
    let p = plan("ALTER TABLE test_table ADD COLUMN uge INT DEFAULT 3");
    let h = rewrite_headers(&types, &t.headers, p.csv_file_rewrite.as_ref().unwrap()).unwrap();
    assert_eq!(h.join(","), "id: INT,weight: FLOAT,name: CHAR[128],uge: INT DEFAULT 3");
    let p = plan("DEL ALL OF test_table");
    let h = rewrite_headers(&types, &t.headers, p.csv_file_rewrite.as_ref().unwrap()).unwrap();
    assert_eq!(h, t.headers);
}

#[test]
fn a_rewrite_is_run_where_its_header_rows_read() {
    let bad = Table { headers: row(&["id: INT DEFAULT 9999999999999999999999999999999999999999999"]), records: vec![] };
    let p = plan("ALTER TABLE test_table DROP COLUMN id");
    assert!(saba::columns::try_exec_csv_file_rewrite(&Answers::new(), &bad, p.csv_file_rewrite.as_ref().unwrap()).is_none());
    let t = table(2);
    let p = plan("ALTER TABLE test_table ADD COLUMN uge INT DEFAULT 7");
    let out = saba::columns::try_exec_csv_file_rewrite(&Answers::new(), &t, p.csv_file_rewrite.as_ref().unwrap()).unwrap().unwrap().unwrap();
    assert_eq!(file_text(&out.headers, &out.records), "id: INT,weight: FLOAT,name: CHAR[128],uge: INT DEFAULT 7\n1,3.14,hige,7\n2,3.14,hoge,7\n");
    let add = p.csv_file_rewrite.as_ref().unwrap().column_add.as_ref().unwrap();
    let mut headers = t.headers.clone();
    headers.push("uge: INT DEFAULT 7".to_string());
    let rows = saba::columns::try_exec_column_add(&Answers::new(), &t, add, &headers).unwrap().unwrap().unwrap();
    assert_eq!(rows[1], row(&["2", "3.14", "hoge", "7"]));
}
