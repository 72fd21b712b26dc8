use saba::append::{append_rows, auto_id_positions, set_auto_increment_ids};
use saba::error::{Error, ErrorKind};
use saba::exprs::Vars;
use saba::host::Answers;
use saba::headers::parse_csv_headers_as_types;
use saba::parser::{F64ValueNode, I64ValueNode, IdentNode, ParenIdentsNode, ParenValuesNode, StringNode, ValueNode};
use saba::planner::{CsvFileAppendNode, PlanNode};
use saba::rows::check_invalid_append_record;
use saba::utils::prepare_query;


fn row(v: &[&str]) -> Vec<String> {
    v.iter().map(|s| s.to_string()).collect()
}

fn plan(q: &str) -> PlanNode {
    prepare_query(q.to_string()).unwrap().plans.remove(0)
}

const TEST_TABLE: [&str; 3] = ["id: INT", "weight: FLOAT", "name: CHAR[128]"];

/// A literal of an add statement's brackets.
enum Lit {
    I(i64),
    F(&'static str),
    S(&'static str),
}

fn value(l: &Lit) -> Box<ValueNode> {
    let mut v = ValueNode { i64_value: None, f64_value: None, bool_value: None, string: None };
    match l {
        Lit::I(n) => v.i64_value = Some(Box::new(I64ValueNode { value: *n })),
        Lit::F(t) => v.f64_value = Some(Box::new(F64ValueNode { text: t.to_string() })),
        Lit::S(t) => v.string = Some(Box::new(StringNode { value: t.to_string() })),
    }
    Box::new(v)
}

/// `ADD OF test_table [(names)] VALUES (..), ..`, which the planner turns
/// into a node with the names and lists in brackets.
fn add_values(names: Option<&[&str]>, lists: &[&[Lit]]) -> CsvFileAppendNode {
    let mut n = CsvFileAppendNode::new();
    n.table_name = "test_table".to_string();
    n.paren_idents = names.map(|ns| {
        Box::new(ParenIdentsNode { idents: ns.iter().map(|x| Box::new(IdentNode { value: x.to_string() })).collect() })
    });
    n.paren_values_list = lists.iter().map(|l| Box::new(ParenValuesNode { values: l.iter().map(value).collect() })).collect();
    n
}

/// An add statement as the planner makes it of a query.
fn add_query(q: &str) -> CsvFileAppendNode {
    *plan(q).csv_file_append.unwrap()
}

/// The table file after the add statements `adds`, run one after another
/// on a table with the header row `headers`; the ids of a column are
/// numbered from 1 up.
fn after_adds(headers: &[&str], adds: Vec<CsvFileAppendNode>) -> Result<String, Error> {
    let headers = row(headers);
    let types = parse_csv_headers_as_types(&headers)?;
    let mut next: u64 = 1;
    let mut text = headers.join(",") + "\n";
    for node in adds.iter() {
        let mut vars = Vars::new();
        let (rows, stop) = append_rows(&Answers::new(), &mut vars, &headers, node).unwrap()?;
        for mut r in rows {
            let (positions, bad) = auto_id_positions(&types);
            let mut ids = vec![];
            for _ in positions.iter() {
                ids.push(next);
                next += 1;
            }
            if let Some(e) = bad {
                return Err(e);
            }
            set_auto_increment_ids(&mut r, &positions, &ids);
            check_invalid_append_record(&r, &headers)?;
            text += &(r.join(",") + "\n");
        }
        if let Some(e) = stop {
            return Err(e);
        }
    }
    Ok(text)
}

#[test]
fn test_add_stmt_0d() {
    let s = after_adds(&TEST_TABLE, vec![add_values(Some(&["id", "name", "weight"]), &[&[Lit::I(1), Lit::S("aaa"), Lit::F("1.23")], &[Lit::I(2), Lit::S("bbb"), Lit::F("2.23")]])]).unwrap();
    assert_eq!(s, "id: INT,weight: FLOAT,name: CHAR[128]\n1,1.23,aaa\n2,2.23,bbb\n");
}

#[test]
fn test_add_stmt_0c() {
    let s = after_adds(&TEST_TABLE, vec![add_values(None, &[&[Lit::I(1), Lit::F("1.23"), Lit::S("aaa")], &[Lit::I(2), Lit::F("2.23"), Lit::S("bbb")]])]).unwrap();
    assert_eq!(s, "id: INT,weight: FLOAT,name: CHAR[128]\n1,1.23,aaa\n2,2.23,bbb\n");
}

#[test]
fn test_add_stmt_0b() {
    let s = after_adds(
        &TEST_TABLE,
        vec![add_values(None, &[&[Lit::I(1), Lit::F("1.23"), Lit::S("aaa")]]), add_values(None, &[&[Lit::I(1), Lit::F("2.23"), Lit::S("bbb")]])],
    )
    .unwrap();
    assert_eq!(s, "id: INT,weight: FLOAT,name: CHAR[128]\n1,1.23,aaa\n1,2.23,bbb\n");
}

#[test]
fn test_add_stmt_0a() {
    let s = after_adds(&TEST_TABLE, vec![add_values(None, &[]), add_values(None, &[])]).unwrap();
    assert_eq!(s, "id: INT,weight: FLOAT,name: CHAR[128]\n0,0.0,\n0,0.0,\n");
}

#[test]
fn test_add_stmt_0() {
    let s = after_adds(
        &TEST_TABLE,
        vec![
            add_query("ADD id = 1, weight = 3.14, name = \"hige\" OF test_table"),
            add_query("ADD id = 2, weight = 3.14, name = \"hoge\" OF test_table"),
        ],
    )
    .unwrap();
    assert_eq!(s, "id: INT,weight: FLOAT,name: CHAR[128]\n1,3.14,hige\n2,3.14,hoge\n");
}

#[test]
fn test_add_stmt_1() {
    let s = after_adds(
        &TEST_TABLE,
        vec![add_query("ADD id = 1 OF test_table"), add_query("ADD weight = 3.14, name = \"hoge\" OF test_table")],
    )
    .unwrap();
    assert_eq!(s, "id: INT,weight: FLOAT,name: CHAR[128]\n1,0.0,\n0,3.14,hoge\n");
}

#[test]
fn test_add_stmt_default_value() {
    let headers = ["id: INT", "weight: FLOAT DEFAULT 1.23", "name: CHAR[128] DEFAULT \"def\""];
    let s = after_adds(&headers, vec![add_query("ADD id = 1 OF test_table"), add_query("ADD id = 2 OF test_table")]).unwrap();
    assert_eq!(s, "id: INT,weight: FLOAT DEFAULT 1.23,name: CHAR[128] DEFAULT \"def\"\n1,1.23,def\n2,1.23,def\n");
}

#[test]
fn test_add_stmt_check_char_size() {
    let headers = ["id: INT", "name: CHAR[4]"];
    let s = after_adds(&headers, vec![add_query("ADD id = 1, name = \"hige\" OF test_table")]).unwrap();
    assert_eq!(s, "id: INT,name: CHAR[4]\n1,hige\n");
    assert!(after_adds(&headers, vec![add_query("ADD id = 2, name = \"hogehoge\" OF test_table")]).is_err());
}

#[test]
fn test_add_stmt_auto_increment_id() {
    let headers = ["id: INT AUTO_INCREMENT", "name: CHAR[4]"];
    let s = after_adds(&headers, vec![add_query("ADD name = \"hige\" OF test_table")]).unwrap();
    assert_eq!(s, "id: INT AUTO_INCREMENT,name: CHAR[4]\n1,hige\n");
    let s = after_adds(
        &headers,
        vec![add_query("ADD name = \"hige\" OF test_table"), add_query("ADD name = \"hoge\" OF test_table")],
    )
    .unwrap();
    assert_eq!(s, "id: INT AUTO_INCREMENT,name: CHAR[4]\n1,hige\n2,hoge\n");
}

#[test]
fn a_list_longer_than_the_row_stops_after_the_rows_before_it() {
    let node = add_values(None, &[&[Lit::I(1), Lit::F("1.23"), Lit::S("aaa")], &[Lit::I(2), Lit::F("2.23"), Lit::S("bbb"), Lit::I(9)]]);
    let (rows, stop) = append_rows(&Answers::new(), &mut Vars::new(), &row(&TEST_TABLE), &node).unwrap().unwrap();
    assert_eq!(rows, vec![row(&["1", "1.23", "aaa"])]);
    assert_eq!(stop.unwrap().kind(), ErrorKind::Exec);
}

#[test]
fn names_that_are_no_columns_or_lists_of_another_length_are_errors() {
    let headers = row(&TEST_TABLE);
    let node = add_values(Some(&["id", "nothing"]), &[&[Lit::I(1), Lit::I(2)]]);
    let e = append_rows(&Answers::new(), &mut Vars::new(), &headers, &node).unwrap().unwrap_err();
    assert_eq!(e.kind(), ErrorKind::Exec);
    let node = add_values(Some(&["id", "name"]), &[&[Lit::I(1), Lit::S("a")], &[Lit::I(2)]]);
    let e = append_rows(&Answers::new(), &mut Vars::new(), &headers, &node).unwrap().unwrap_err();
    assert_eq!(e.kind(), ErrorKind::Exec);
    let node = add_query("ADD nothing = 1 OF test_table");
    let e = append_rows(&Answers::new(), &mut Vars::new(), &headers, &node).unwrap().unwrap_err();
    assert_eq!(e.kind(), ErrorKind::Exec);
}

#[test]
fn generated_ids_go_to_their_columns() {
    let types = parse_csv_headers_as_types(&row(&["n: CHAR[4]", "id: INT AUTO_INCREMENT", "k: INT AUTO_INCREMENT"])).unwrap();
    let (positions, bad) = auto_id_positions(&types);
    assert_eq!(positions, vec![1, 2]);
    assert!(bad.is_none());
    let mut r = row(&["a", "0", "0"]);
    set_auto_increment_ids(&mut r, &positions, &vec![7, 12]);
    assert_eq!(r, row(&["a", "7", "12"]));
    let types = parse_csv_headers_as_types(&row(&["id: INT AUTO_INCREMENT", "w: FLOAT AUTO_INCREMENT", "k: INT AUTO_INCREMENT"])).unwrap();
    let (positions, bad) = auto_id_positions(&types);
    assert_eq!(positions, vec![0]);
    assert_eq!(bad.unwrap().kind(), ErrorKind::Exec);
}

#[test]
fn named_values_land_in_their_columns_and_the_rest_keep_defaults() {
    let node = add_values(Some(&["name", "id"]), &[&[Lit::S("x"), Lit::I(3)]]);
    let (rows, stop) = append_rows(&Answers::new(), &mut Vars::new(), &row(&TEST_TABLE), &node).unwrap().unwrap();
    assert!(stop.is_none());
    assert_eq!(rows, vec![row(&["3", "0.0", "x"])]);
}

#[test]
fn rows_are_added_where_the_defaults_read() {
    let bad = row(&["a: INT DEFAULT 9999999999999999999999999999999999999999999"]);
    let node = add_query("ADD a = 1 OF test_table");
    assert!(saba::append::try_append_rows(&Answers::new(), &mut Vars::new(), &bad, &node).is_none());
    let node = add_query("ADD id = 4 OF test_table");
    let (rows, stop) = saba::append::try_append_rows(&Answers::new(), &mut Vars::new(), &row(&TEST_TABLE), &node).unwrap().unwrap().unwrap();
    assert_eq!(rows, vec![row(&["4", "0.0", ""])]);
    assert!(stop.is_none());
}
