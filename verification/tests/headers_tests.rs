use saba::error::ErrorKind;
use saba::headers::{
    char_size_from_group, csv_headers_to_idents, default_from_groups, find_header_position, gen_default_record, parse_csv_headers_as_types, parse_header_idents,
    try_parse_csv_headers_as_types, vec_string_to_hashed_value_string,
};
use saba::objects::ObjectKind;

fn row(v: &[&str]) -> Vec<String> {
    v.iter().map(|s| s.to_string()).collect()
}

#[test]
fn column_names_of_a_header_row() {
    let h = row(&[" id : INT", "bad", "w: FLOAT"]);
    assert_eq!(csv_headers_to_idents(&h), row(&["id", "w"]));
    assert_eq!(parse_header_idents(&h).unwrap(), row(&["id", "w"]));
    assert_eq!(find_header_position(&h, "w").unwrap(), Some(1));
    assert_eq!(find_header_position(&h, "bad").unwrap(), None);
}

#[test]
fn column_types_of_a_header_row() {
    let h = row(&["id: INT PRIMARY_KEY AUTO_INCREMENT", "weight: FLOAT DEFAULT 1.23", "name: CHAR[128] DEFAULT \"Def\"", "ok: BOOL DEFAULT true"]);
    let t = parse_csv_headers_as_types(&h).unwrap();
    assert_eq!(t.len(), 4);
    assert_eq!(t[0].ident, "id");
    assert!(t[0].is_int && t[0].is_primary_key && t[0].is_auto_increment && !t[0].is_default);
    assert!(t[1].is_float && t[1].is_default);
    let d1 = t[1].default_value.as_ref().unwrap();
    assert_eq!(d1.kind, ObjectKind::Float);
    assert_eq!(d1.float_text, "1.23");
    assert!(t[2].is_char);
    assert_eq!(t[2].char_size, 128);
    assert_eq!(t[2].default_value.as_ref().unwrap().string, "def");
    assert!(t[3].default_value.as_ref().unwrap().bool_value);
    assert_eq!(t[0].to_string(), "id: INT PRIMARY_KEY AUTO_INCREMENT");
}

#[test]
fn header_errors() {
    assert_eq!(parse_csv_headers_as_types(&row(&["x: CHAR"])).unwrap_err().kind(), ErrorKind::Exec);
    assert_eq!(parse_csv_headers_as_types(&row(&["nocolon"])).unwrap_err().kind(), ErrorKind::Exec);
    assert_eq!(parse_csv_headers_as_types(&row(&["a: INT DEFAULT"])).unwrap_err().kind(), ErrorKind::Exec);
    assert!(try_parse_csv_headers_as_types(&row(&["a: INT DEFAULT 9999999999999999999999999999999999999999999"])).is_none());
    assert!(try_parse_csv_headers_as_types(&row(&["a: INT"])).unwrap().is_ok());
}

#[test]
fn default_record() {
    let h = row(&["id: INT", "weight: FLOAT DEFAULT 1.23", "name: CHAR[128] DEFAULT \"def\"", "b: BOOL"]);
    assert_eq!(gen_default_record(&h).unwrap(), row(&["0", "1.23", "def", "false"]));
    let bare = row(&["x: TEXT"]);
    assert_eq!(gen_default_record(&bare).unwrap_err().kind(), ErrorKind::Runtime);
}

#[test]
fn joined_rows() {
    assert_eq!(vec_string_to_hashed_value_string(&row(&["a", "b", "c"])), "a,b,c");
    assert_eq!(vec_string_to_hashed_value_string(&row(&["a"])), "a");
    assert_eq!(vec_string_to_hashed_value_string(&row(&[])), "");
}

#[test]
fn column_names_lose_unicode_white_space_at_both_ends() {
    let h = row(&["\u{00A0}id\u{3000}: INT", "\tw\u{2009}: FLOAT", "x\u{200B}: INT"]);
    assert_eq!(csv_headers_to_idents(&h), row(&["id", "w", "x\u{200B}"]));
}

fn g(s: &str) -> Option<String> {
    Some(s.to_string())
}

#[test]
fn char_sizes_from_captured_digits() {
    assert_eq!(char_size_from_group(g("128")).unwrap(), 128);
    assert_eq!(char_size_from_group(g("007")).unwrap(), 7);
    assert_eq!(char_size_from_group(g("99999999999999999999999")).unwrap_err().kind(), ErrorKind::Exec);
    assert_eq!(char_size_from_group(None).unwrap_err().kind(), ErrorKind::Exec);
}

#[test]
fn defaults_from_captured_groups() {
    let v = default_from_groups(g("-42"), None, None, None).unwrap().unwrap();
    assert_eq!(v.kind, ObjectKind::Int);
    assert_eq!(v.int_value, -42);
    let v = default_from_groups(None, g("1.50"), g("x"), None).unwrap().unwrap();
    assert_eq!(v.kind, ObjectKind::Float);
    assert_eq!(v.float_text, "1.50");
    let v = default_from_groups(None, None, g("Def"), g("true")).unwrap().unwrap();
    assert_eq!(v.kind, ObjectKind::String);
    assert_eq!(v.string, "Def");
    let v = default_from_groups(None, None, None, g("false")).unwrap().unwrap();
    assert_eq!(v.kind, ObjectKind::Bool);
    assert!(!v.bool_value);
    assert_eq!(default_from_groups(None, None, None, None).unwrap().unwrap_err().kind(), ErrorKind::Exec);
    assert!(default_from_groups(g("999999999999999999999999999999999999999999"), None, None, None).is_none());
    assert!(default_from_groups(None, None, None, g("maybe")).is_none());
}
