use saba::parser::parse;
use saba::tokenizer::{Token, TokenStream, tokenize};

fn do_parse(s: &str) -> bool {
    let tokens: Vec<Token> = match tokenize(s.to_string()) {
        Ok(v) => v,
        Err(e) => {
            println!("{}", e.to_message());
            return false;
        }
    };
    let mut strm = TokenStream::new(tokens);
    match parse(&mut strm) {
        Ok(_) => {},
        Err(e) => {
            println!("{}", e.to_message());
            return false;
        }
    };

    true
}

#[test]
fn test_use_stmt() {
    assert!(do_parse("USE mydb;") == true);
}

#[test]
fn test_create_database_stmt() {
    assert!(do_parse("CREATE DATABASE mydb;") == true);
}

#[test]
fn parser_test_create_table_stmt_0() {
    assert!(do_parse("CREATE TABLE mytab (id: I64);") == true);
}

#[test]
fn test_create_table_stmt_0a() {
    assert!(do_parse("
create table mytab (id: i64 auto_increment)
") == true);
}

#[test]
fn parser_test_create_table_stmt_1() {
    assert!(do_parse("
CREATE TABLE mytab (
	id: I64 PRIMARY_KEY AUTO_INCREMENT,
	weight: F64,
	name: CHAR[128],
);
") == true);
}

#[test]
fn test_get_stmt_0() {
    assert!(do_parse("GET id OF mytab WHERE age == 123") == true);
}

#[test]
fn parser_test_get_stmt_1() {
    assert!(do_parse("GET id OF mytab WHERE age == 123;") == true);
}

#[test]
fn test_get_stmt_2() {
    assert!(do_parse("GET id OF mytab WHERE age == 123 AND id == 323;") == true);
}

#[test]
fn test_get_stmt_3() {
    assert!(do_parse("GET id, name OF mytab WHERE age == 123;") == true);
}

#[test]
fn test_get_stmt_4() {
    assert!(do_parse("GET ALL id OF mytab WHERE age == 123;") == true);
}

#[test]
fn parser_test_set_stmt_0() {
    assert!(do_parse("SET age = 20 OF mytab WHERE id == 123;") == true);
}

#[test]
fn parser_test_set_stmt_1() {
    assert!(do_parse("SET age = 20, name = \"hige\" OF mytab WHERE id == 123;") == true);
}

#[test]
fn parser_test_add_stmt_0() {
    assert!(do_parse("ADD id = 1 OF mytab;") == true);
}

#[test]
fn parser_test_add_stmt_1() {
    assert!(do_parse("ADD id = 1, age = 20 OF mytab;") == true);
}

#[test]
fn test_add_sub_expr() {
    assert!(do_parse("ADD id = 1 + 2 - 1, age = 20 OF mytab;") == true);
}

#[test]
fn test_mul_div_expr() {
    assert!(do_parse("ADD id = 2 * 2 / 2, age = 20 OF mytab;") == true);
}

#[test]
fn parser_test_del_stmt_0() {
    assert!(do_parse("DEL OF mytab WHERE id == 1;") == true);
}

#[test]
fn parser_test_del_stmt_1() {
    assert!(do_parse("DEL ALL OF mytab;") == true);
}

#[test]
fn test_first_column_type() {
    assert!(do_parse("CREATE TABLE mytab (id: PRIMARY_KEY)") == false);
}
