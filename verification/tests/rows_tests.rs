use saba::error::ErrorKind;
use saba::headers::parse_csv_headers_as_types;
use saba::objects::{Object, ObjectKind};
use saba::parser::{ColumnTypeNode, I64ValueNode, IdentNode, ParenIdentsNode, ParenValuesNode, StringNode, ValueNode};
use saba::rows::{
    alter_field_column_type, alter_headers_column_type, append_positions, check_db_name, chosen_rows, check_invalid_append_record,
    collect_by_indices, drop_headers_column, drop_record_column, exec_paren_idents, exec_paren_values, exec_value, fill_row_at, fill_row_in_order, get_indices,
    rename_headers_column, replace_columns_by_objs, rewrite_append_record_by_vars, takes_auto_id,
    try_check_invalid_append_record,
};

fn row(v: &[&str]) -> Vec<String> {
    v.iter().map(|s| s.to_string()).collect()
}

fn int_value(n: i64) -> ValueNode {
    ValueNode { i64_value: Some(Box::new(I64ValueNode { value: n })), f64_value: None, bool_value: None, string: None }
}

#[test]
fn database_names_may_not_climb() {
    assert!(check_db_name("mydb").is_ok());
    assert!(check_db_name("a.b").is_ok());
    assert_eq!(check_db_name("../etc").unwrap_err().kind(), ErrorKind::Exec);
    assert_eq!(check_db_name("x..y").unwrap_err().kind(), ErrorKind::Exec);
}

#[test]
fn literal_values_become_objects() {
    let o = exec_value(&int_value(7)).unwrap();
    assert_eq!(o.kind, ObjectKind::Int);
    assert_eq!(o.int_value, 7);
    let s = ValueNode {
        i64_value: None,
        f64_value: None,
        bool_value: None,
        string: Some(Box::new(StringNode { value: "hi".to_string() })),
    };
    assert_eq!(exec_value(&s).unwrap().string, "hi");
    let empty = ValueNode { i64_value: None, f64_value: None, bool_value: None, string: None };
    assert_eq!(exec_value(&empty).unwrap_err().kind(), ErrorKind::Exec);
}

#[test]
fn dropping_a_field() {
    let r = row(&["a", "b", "c"]);
    assert_eq!(drop_record_column(&r, 1).unwrap(), row(&["a", "c"]));
    assert_eq!(drop_record_column(&r, 0).unwrap(), row(&["b", "c"]));
    assert_eq!(drop_record_column(&r, 5).unwrap(), r);
}

#[test]
fn collecting_fields_by_index() {
    let r = row(&["a", "b", "c"]);
    assert_eq!(collect_by_indices(&r, &vec![2, 0]).unwrap(), row(&["c", "a"]));
    assert_eq!(collect_by_indices(&r, &vec![]).unwrap(), row(&[]));
    assert_eq!(collect_by_indices(&r, &vec![0, 4]).unwrap_err().kind(), ErrorKind::Exec);
}

#[test]
fn selected_column_positions() {
    let ids = row(&["id", "name", "weight"]);
    let star = vec![Object::from_star()];
    assert_eq!(get_indices(&ids, &star).unwrap(), vec![0, 1, 2]);
    let objs = vec![Object::from_ident("weight"), Object::from_ident("nope"), Object::from_ident("id")];
    assert_eq!(get_indices(&ids, &objs).unwrap(), vec![2, 0]);
}

#[test]
fn checking_a_new_row() {
    let h = row(&["id: INT", "name: CHAR[3]", "ok: BOOL"]);
    assert!(check_invalid_append_record(&row(&["1", "abc", "true"]), &h).is_ok());
    assert_eq!(check_invalid_append_record(&row(&["1", "abcd", "true"]), &h).unwrap_err().kind(), ErrorKind::Exec);
    assert_eq!(check_invalid_append_record(&row(&["x", "a", "true"]), &h).unwrap_err().kind(), ErrorKind::Exec);
    assert_eq!(check_invalid_append_record(&row(&["1", "a"]), &h).unwrap_err().kind(), ErrorKind::Exec);
    assert_eq!(check_invalid_append_record(&row(&["1"]), &row(&["nocolon"])).unwrap_err().kind(), ErrorKind::Exec);
    assert!(try_check_invalid_append_record(&row(&["1"]), &row(&["id: INT"])).unwrap().is_ok());
    let unreadable = row(&["a: INT DEFAULT 9999999999999999999999999999999999999999999"]);
    assert!(try_check_invalid_append_record(&row(&["1"]), &unreadable).is_none());
}

#[test]
fn auto_increment_columns() {
    let t = parse_csv_headers_as_types(&row(&["id: INT AUTO_INCREMENT", "w: FLOAT AUTO_INCREMENT", "n: INT"])).unwrap();
    assert_eq!(takes_auto_id(&t[0]).unwrap(), true);
    assert_eq!(takes_auto_id(&t[1]).unwrap_err().kind(), ErrorKind::Exec);
    assert_eq!(takes_auto_id(&t[2]).unwrap(), false);
}

#[test]
fn placing_named_values() {
    let hids = row(&["id", "weight", "name"]);
    let names = row(&["name", "id"]);
    let values = vec![row(&["\"a\"", "1"]), row(&["\"b\"", "2"])];
    let ps = append_positions(&hids, &names, &values).unwrap();
    assert_eq!(ps, vec![2, 0]);
    let mut r = row(&["0", "0.0", ""]);
    fill_row_at(&mut r, &ps, &values[1]);
    assert_eq!(r, row(&["2", "0.0", "\"b\""]));
    let short = vec![row(&["x"])];
    assert_eq!(append_positions(&hids, &names, &short).unwrap_err().kind(), ErrorKind::Exec);
    assert_eq!(append_positions(&hids, &row(&["nope"]), &vec![row(&["1"])]).unwrap_err().kind(), ErrorKind::Exec);
}

#[test]
fn placing_values_in_order() {
    let mut r = row(&["0", "0.0", ""]);
    fill_row_in_order(&mut r, &row(&["5", "1.5"])).unwrap();
    assert_eq!(r, row(&["5", "1.5", ""]));
    let mut s = row(&["0"]);
    assert_eq!(fill_row_in_order(&mut s, &row(&["1", "2"])).unwrap_err().kind(), ErrorKind::Exec);
    assert_eq!(s, row(&["0"]));
}

#[test]
fn updating_a_row() {
    let ids = row(&["id", "name"]);
    let cols = row(&["1", "taro"]);
    let ups = vec![("name".to_string(), "hanako".to_string()), ("nope".to_string(), "x".to_string())];
    assert_eq!(replace_columns_by_objs(&ids, &cols, &ups).unwrap(), row(&["1", "hanako"]));
}

#[test]
fn assigning_values_of_a_new_row() {
    let h = row(&["id: INT", "name: CHAR[10]"]);
    let mut r = row(&["0", ""]);
    let ups = vec![("name".to_string(), Some("jiro".to_string()))];
    rewrite_append_record_by_vars(&h, &mut r, &ups).unwrap();
    assert_eq!(r, row(&["0", "jiro"]));
    let missing = vec![("name".to_string(), None)];
    assert_eq!(rewrite_append_record_by_vars(&h, &mut r, &missing).unwrap_err().kind(), ErrorKind::Exec);
    let unknown = vec![("age".to_string(), Some("3".to_string()))];
    assert_eq!(rewrite_append_record_by_vars(&h, &mut r, &unknown).unwrap_err().kind(), ErrorKind::Exec);
}

#[test]
fn renaming_and_dropping_header_columns() {
    let h = row(&["id: INT PRIMARY_KEY", "name: CHAR[10]"]);
    let t = parse_csv_headers_as_types(&h).unwrap();
    assert_eq!(rename_headers_column(&t, "name", "title").unwrap(), row(&["id: INT PRIMARY_KEY", "title: CHAR[10]"]));
    assert_eq!(rename_headers_column(&t, "zzz", "title").unwrap(), h);
    assert_eq!(drop_headers_column(&t, &h, "id").unwrap(), row(&["name: CHAR[10]"]));
    assert_eq!(drop_headers_column(&t, &h, "zzz").unwrap(), h);
}

#[test]
fn retyping_a_column() {
    let h = row(&["id: INT", "name: CHAR[10]"]);
    let t = parse_csv_headers_as_types(&h).unwrap();
    assert_eq!(alter_field_column_type(&t, "id", &row(&["0042", "x"])).unwrap(), row(&["42", "x"]));
    assert_eq!(alter_field_column_type(&t, "id", &row(&["x", "x"])).unwrap_err().kind(), ErrorKind::Parse);
    assert_eq!(alter_field_column_type(&t, "zzz", &row(&["1", "x"])).unwrap_err().kind(), ErrorKind::Exec);
    let types = vec![ColumnTypeNode::I64, ColumnTypeNode::Default(Box::new(int_value(3)))];
    assert_eq!(
        alter_headers_column_type(&t, "name", &types).unwrap(),
        row(&["id: INT", "name: INT DEFAULT 3"])
    );
    let bad = vec![ColumnTypeNode::Default(Box::new(ValueNode {
        i64_value: None,
        f64_value: None,
        bool_value: None,
        string: None,
    }))];
    assert_eq!(alter_headers_column_type(&t, "name", &bad).unwrap_err().kind(), ErrorKind::Exec);
    assert_eq!(alter_headers_column_type(&t, "zzz", &bad).unwrap(), h);
}

#[test]
fn rows_that_a_statement_takes() {
    let m = vec![false, true, true, false, true];
    assert_eq!(chosen_rows(&m, true, None), m);
    assert_eq!(chosen_rows(&m, false, None), vec![false, true, false, false, false]);
    assert_eq!(chosen_rows(&m, true, Some(2)), vec![false, true, true, false, false]);
    assert_eq!(chosen_rows(&m, true, Some(0)), vec![false; 5]);
    assert_eq!(chosen_rows(&m, true, Some(-3)), vec![false; 5]);
    assert_eq!(chosen_rows(&m, false, Some(9)), vec![false, true, false, false, false]);
    assert_eq!(chosen_rows(&vec![], false, None), Vec::<bool>::new());
}

#[test]
fn values_and_names_in_brackets() {
    let vals = ParenValuesNode { values: vec![Box::new(int_value(1)), Box::new(int_value(2))] };
    let objs = exec_paren_values(&vals).unwrap();
    assert_eq!(objs.len(), 2);
    assert_eq!(objs[1].int_value, 2);
    let empty = ValueNode { i64_value: None, f64_value: None, bool_value: None, string: None };
    let bad = ParenValuesNode { values: vec![Box::new(int_value(1)), Box::new(empty)] };
    assert_eq!(exec_paren_values(&bad).unwrap_err().kind(), ErrorKind::Exec);
    let names = ParenIdentsNode { idents: vec![Box::new(IdentNode { value: "id".to_string() })] };
    let objs = exec_paren_idents(&names).unwrap();
    assert_eq!(objs[0].kind, ObjectKind::Ident);
    assert_eq!(objs[0].to_string(), "id");
}

#[test]
fn dropping_a_column_keeps_header_and_rows_aligned() {
    let h = row(&["id: INT", "name: CHAR[10]", "ok: BOOL"]);
    let t = parse_csv_headers_as_types(&h).unwrap();
    let r = row(&["1", "taro", "true"]);
    assert_eq!(drop_headers_column(&t, &h, "name").unwrap(), drop_record_column(&h, 1).unwrap());
    assert_eq!(drop_record_column(&r, 1).unwrap(), row(&["1", "true"]));
}

#[test]
fn a_row_of_defaults_passes_the_check() {
    let h = row(&["id: INT AUTO_INCREMENT", "w: FLOAT", "name: CHAR[4]", "ok: BOOL"]);
    let d = saba::headers::gen_default_record(&h).unwrap();
    assert_eq!(d, row(&["0", "0.0", "", "false"]));
    assert!(check_invalid_append_record(&d, &h).is_ok());
}
