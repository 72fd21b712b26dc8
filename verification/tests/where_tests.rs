use saba::error::Error;
use saba::eval::{FloatOp, RecordScope};
use saba::exprs::{Vars, exec_where_clause};
use saba::host::{Answers, Question};
use saba::headers::parse_header_idents;
use saba::objects::{Object, ObjectKind};
use saba::parser::QueryNode;
use saba::rows::chosen_rows;
use saba::utils::parse_query;


fn number(o: &Object) -> f64 {
    match o.kind {
        ObjectKind::Int => o.int_value as f64,
        _ => o.float_text.parse::<f64>().unwrap(),
    }
}

/// Runs `f` with the answers given so far, answering with `host` each
/// question at which it stops, until it finishes.
fn answered_by<T>(
    host: fn(&Question) -> Result<Object, String>,
    mut f: impl FnMut(&Answers) -> Option<Result<T, Error>>,
) -> Option<Result<T, Error>> {
    let mut answers = Answers::new();
    loop {
        match f(&answers) {
            Some(Err(Error::Unanswered(_, q))) => {
                let a = host(&q);
                answers.add(q, a);
            },
            other => return other,
        }
    }
}

/// Carries out floating-point operations with `f64`; no functions.
fn f64_host(q: &Question) -> Result<Object, String> {
    let (lhs, op, rhs) = match q {
        Question::Float(l, op, r) => (l, op, r),
        Question::Call(..) => return Err("no functions here".to_string()),
    };
    let (a, b) = (number(lhs), number(rhs));
    Ok(match op {
        FloatOp::Lt => Object::from_bool(a < b),
        FloatOp::LtEq => Object::from_bool(a <= b),
        FloatOp::Gt => Object::from_bool(a > b),
        FloatOp::GtEq => Object::from_bool(a >= b),
        FloatOp::Eq => Object::from_bool(a == b),
        FloatOp::NotEq => Object::from_bool(a != b),
        FloatOp::Add => Object::from_float_text(format!("{}", a + b)),
        FloatOp::Sub => Object::from_float_text(format!("{}", a - b)),
        FloatOp::Mul => Object::from_float_text(format!("{}", a * b)),
        FloatOp::Div => Object::from_float_text(format!("{}", a / b)),
        FloatOp::Mod => Object::from_float_text(format!("{}", a % b)),
    })
}

fn row(v: &[&str]) -> Vec<String> {
    v.iter().map(|s| s.to_string()).collect()
}

/// The rows of the table `id: INT,weight: FLOAT,name: CHAR[128]` holding
/// `1,3.14,hige` and `2,3.14,hoge` that the get statement takes, one line
/// each.
fn got(query: &str) -> String {
    let headers = row(&["id: INT", "weight: FLOAT", "name: CHAR[128]"]);
    let idents = parse_header_idents(&headers).unwrap();
    let records = vec![row(&["1", "3.14", "hige"]), row(&["2", "3.14", "hoge"])];
    let node: QueryNode = parse_query(query.to_string()).unwrap();
    let mut stmts = node.stmts;
    let get = stmts.remove(0).get_stmt.unwrap();
    let clause = get.where_clause.as_ref().unwrap();
    let mut vars = Vars::new();
    let mut matches = vec![];
    for rec in records.iter() {
        let o = answered_by(f64_host, |a| {
            let sc = RecordScope::of_record(headers.clone(), idents.clone(), rec.clone(), a);
            exec_where_clause(&sc, &mut vars, clause)
        })
        .unwrap()
        .unwrap();
        matches.push(o.bool_value);
    }
    let chosen = chosen_rows(&matches, get.all, None);
    let mut s = String::new();
    for (rec, c) in records.iter().zip(chosen.iter()) {
        if *c {
            s.push_str(&rec.join(","));
            s.push('\n');
        }
    }
    s
}

#[test]
fn test_get_stmt_or_and_0() {
    let s = got("GET ALL id, name OF test_table WHERE id == 1 OR weight == 3.14 AND name == \"hige\"");
    assert!(s == "1,3.14,hige\n");
}

#[test]
fn test_get_stmt_or_and_1() {
    let s = got("GET ALL id, name OF test_table WHERE id == 1 OR weight == 100.0 AND name == \"hige\"");
    assert!(s == "1,3.14,hige\n");
}

#[test]
fn test_get_stmt_or_and_2() {
    let s = got("GET ALL id, name OF test_table WHERE id == 0 OR weight == 100.0 AND name == \"hige\"");
    assert!(s == "");
}

#[test]
fn test_get_stmt_or_and_3() {
    let s = got("GET ALL id, name OF test_table WHERE id == 0 OR weight == 3.14 AND name == \"hige\"");
    assert!(s == "1,3.14,hige\n");
}

#[test]
fn test_get_stmt_or_and_4() {
    let s = got("GET ALL id, name OF test_table WHERE (id == 0 OR weight == 3.14) AND name == \"hige\"");
    assert!(s == "1,3.14,hige\n");
}

#[test]
fn test_get_stmt_or_and_4a() {
    let s = got("GET ALL id, name OF test_table WHERE (id == 1 OR weight == 60) AND name == \"hige\"");
    assert!(s == "1,3.14,hige\n");
}

#[test]
fn test_get_stmt_or_and_5() {
    let s = got("GET ALL id, name OF test_table WHERE (id == 0 OR weight == 3.14) AND name == \"moge\"");
    assert!(s == "");
}
