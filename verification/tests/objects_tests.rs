use saba::error::ErrorKind;
use saba::objects::{HeaderType, Object, ObjectKind};

fn int_col() -> HeaderType {
    let mut h = HeaderType::new();
    h.ident = "id".to_string();
    h.is_int = true;
    h
}

#[test]
fn object_texts() {
    assert_eq!(Object::from_int(-42).to_string(), "-42");
    assert_eq!(Object::from_bool(true).to_string(), "true");
    assert_eq!(Object::from_nil().to_string(), "nil");
    assert_eq!(Object::from_star().to_string(), "*");
    assert_eq!(Object::from_ident("col").to_string(), "col");
    assert_eq!(Object::from_string("s".to_string()).to_string(), "s");
    assert_eq!(Object::from_string("s".to_string()).to_column_string(), "\"s\"");
    assert_eq!(Object::from_float_text("2.50".to_string()).to_string(), "2.50");
}

#[test]
fn header_type_text() {
    let mut h = int_col();
    h.is_primary_key = true;
    h.is_auto_increment = true;
    assert_eq!(h.to_string(), "id: INT PRIMARY_KEY AUTO_INCREMENT");
    let mut c = HeaderType::new();
    c.ident = "name".to_string();
    c.is_char = true;
    c.char_size = 128;
    c.is_default = true;
    c.default_value = Some(Object::from_string("def".to_string()));
    assert_eq!(c.to_string(), "name: CHAR[128] DEFAULT \"def\"");
    let mut d = HeaderType::new();
    d.ident = "w".to_string();
    d.is_float = true;
    d.is_default = true;
    assert_eq!(d.to_string(), "w: FLOAT DEFAULT");
}

#[test]
fn header_default_values() {
    assert_eq!(int_col().to_default_value_string().unwrap(), "0");
    let mut f = HeaderType::new();
    f.is_float = true;
    assert_eq!(f.to_default_value_string().unwrap(), "0.0");
    let mut b = HeaderType::new();
    b.is_bool = true;
    assert_eq!(b.to_default_value_string().unwrap(), "false");
    let mut c = HeaderType::new();
    c.is_char = true;
    assert_eq!(c.to_default_value_string().unwrap(), "");
    let mut d = int_col();
    d.is_default = true;
    assert_eq!(d.to_default_value_string().unwrap_err().kind(), ErrorKind::Runtime);
    d.default_value = Some(Object::from_int(5));
    assert_eq!(d.to_default_value_string().unwrap(), "5");
    assert_eq!(HeaderType::new().to_default_value_string().unwrap_err().kind(), ErrorKind::Runtime);
}

#[test]
fn parse_int_cells() {
    let h = int_col();
    let o = h.parse_str("-12").unwrap();
    assert_eq!(o.kind, ObjectKind::Int);
    assert_eq!(o.int_value, -12);
    assert_eq!(h.parse_str("+7").unwrap().int_value, 7);
    assert_eq!(h.parse_str("-170141183460469231731687303715884105728").unwrap().int_value, i128::MIN);
    assert_eq!(h.parse_str("170141183460469231731687303715884105727").unwrap().int_value, i128::MAX);
    assert_eq!(h.parse_str("170141183460469231731687303715884105728").unwrap_err().kind(), ErrorKind::Parse);
    assert_eq!(h.parse_str("12a").unwrap_err().kind(), ErrorKind::Parse);
    assert_eq!(h.parse_str("").unwrap_err().kind(), ErrorKind::Parse);
    assert_eq!(h.parse_str("-").unwrap_err().kind(), ErrorKind::Parse);
}

#[test]
fn parse_float_cells() {
    let mut h = HeaderType::new();
    h.is_float = true;
    for ok in ["1.5", "-2", "+.5", "3.", "1e10", "2.5E-3", "inf", "-Infinity", "NaN"] {
        let o = h.parse_str(ok).unwrap();
        assert_eq!(o.kind, ObjectKind::Float);
        assert_eq!(o.float_text, ok);
        assert!(ok.parse::<f64>().is_ok());
    }
    for bad in ["", ".", "e5", "1.2.3", "1e", "1e+", "abc", " 1"] {
        assert_eq!(h.parse_str(bad).unwrap_err().kind(), ErrorKind::Parse);
        assert!(bad.parse::<f64>().is_err());
    }
    h.is_auto_increment = true;
    assert_eq!(h.parse_str("1.5").unwrap_err().kind(), ErrorKind::Parse);
}

#[test]
fn parse_bool_cells() {
    let mut h = HeaderType::new();
    h.is_bool = true;
    assert!(h.parse_str("true").unwrap().bool_value);
    assert!(!h.parse_str("false").unwrap().bool_value);
    assert_eq!(h.parse_str("True").unwrap_err().kind(), ErrorKind::Parse);
}

#[test]
fn parse_char_cells() {
    let mut h = HeaderType::new();
    h.is_char = true;
    h.char_size = 4;
    assert_eq!(h.parse_str("hige").unwrap().string, "hige");
    assert_eq!(h.parse_str("hogehoge").unwrap_err().kind(), ErrorKind::Parse);
    assert_eq!(h.parse_str("\u{3042}\u{3044}").unwrap_err().kind(), ErrorKind::Parse);
    h.is_auto_increment = true;
    assert_eq!(h.parse_str("a").unwrap_err().kind(), ErrorKind::Parse);
}

#[test]
fn parse_without_type_fails() {
    assert_eq!(HeaderType::new().parse_str("1").unwrap_err().kind(), ErrorKind::Parse);
}
