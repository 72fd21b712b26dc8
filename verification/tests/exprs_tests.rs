use saba::error::{Error, ErrorKind};
use saba::eval::RecordScope;
use saba::host::{Answers, Question};
use saba::exprs::{
    Vars, exec_bool_value, exec_expr, exec_expr_list, exec_f64_value, exec_i64_value, exec_ident, exec_limit,
    exec_string, exec_where_clause, gen_limit_value,
};
use saba::objects::{Object, ObjectKind};
use saba::parser::{
    AssExprNode, BoolValueNode, ExprNode, F64ValueNode, FuncExprNode, GetStmtNode, I64ValueNode, IdentNode, LimitNode,
    QueryNode, StringNode,
};
use saba::utils::parse_query;

/// Runs `f` with the answers given so far, answering with `host` each
/// question at which it stops, until it finishes.
fn answered_by<T>(
    host: fn(&Question) -> Result<Object, String>,
    mut f: impl FnMut(&Answers) -> Option<Result<T, Error>>,
) -> Option<Result<T, Error>> {
    let mut answers = Answers::new();
    loop {
        match f(&answers) {
            Some(Err(Error::Unanswered(_, q))) => {
                let a = host(&q);
                answers.add(q, a);
            },
            other => return other,
        }
    }
}

/// A host that answers each operation on fractions with the string
/// "float", and every function with 42.
fn fixed(q: &Question) -> Result<Object, String> {
    match q {
        Question::Float(..) => Ok(Object::from_string("float".to_string())),
        Question::Call(..) => Ok(Object::from_int(42)),
    }
}

fn row(v: &[&str]) -> Vec<String> {
    v.iter().map(|s| s.to_string()).collect()
}

fn get_stmt(q: &str) -> Box<GetStmtNode> {
    let node: QueryNode = parse_query(q.to_string()).unwrap();
    let mut stmts = node.stmts;
    stmts.remove(0).get_stmt.unwrap()
}

fn scope(answers: &Answers) -> RecordScope<'_> {
    RecordScope::of_record(
        row(&["id: INT", "name: CHAR[10]", "ok: BOOL"]),
        row(&["id", "name", "ok"]),
        row(&["2", "taro", "true"]),
        answers,
    )
}

fn where_of(q: &str, vars: &mut Vars) -> Option<Result<Object, Error>> {
    let g = get_stmt(q);
    answered_by(fixed, |a| exec_where_clause(&scope(a), vars, g.where_clause.as_ref().unwrap()))
}

#[test]
fn where_clauses_on_a_record() {
    let mut vars = Vars::new();
    let o = where_of("GET * OF t WHERE id == 2", &mut vars).unwrap().unwrap();
    assert_eq!(o.kind, ObjectKind::Bool);
    assert!(o.bool_value);
    let o = where_of("GET * OF t WHERE id + 3 * 2 == 8 AND name == \"taro\"", &mut vars).unwrap().unwrap();
    assert!(o.bool_value);
    let o = where_of("GET * OF t WHERE id > 5 OR id < 0", &mut vars).unwrap().unwrap();
    assert!(!o.bool_value);
    let o = where_of("GET * OF t WHERE (id - 1) * 10 % 7 == 3", &mut vars).unwrap().unwrap();
    assert!(o.bool_value);
}

#[test]
fn evaluation_errors_and_overflow() {
    let mut vars = Vars::new();
    let e = where_of("GET * OF t WHERE nope == 2", &mut vars).unwrap().unwrap_err();
    assert_eq!(e.kind(), ErrorKind::Exec);
    assert!(where_of("GET * OF t WHERE 9223372036854775807 * 9223372036854775807 * 4 == 0", &mut vars).is_none());
}

#[test]
fn floats_and_functions_go_to_the_host() {
    let mut vars = Vars::new();
    let o = where_of("GET * OF t WHERE id < 2.5", &mut vars).unwrap().unwrap();
    assert_eq!(o.string, "float");
    let g = get_stmt("GET * OF t");
    let star = g.expr_list.unwrap().exprs.remove(0).ass_expr.unwrap().left_func_expr.unwrap().or_expr.unwrap();
    let call = FuncExprNode { ident: Some(Box::new(IdentNode { value: "count".to_string() })), or_exprs: vec![star], or_expr: None };
    let e = ExprNode { ass_expr: Some(Box::new(AssExprNode { left_func_expr: Some(Box::new(call)), right_func_expr: None })) };
    let o = answered_by(fixed, |a| exec_expr(&scope(a), &mut vars, &e)).unwrap().unwrap();
    assert_eq!(o.int_value, 42);
}

#[test]
fn assignments_bind_names() {
    let mut vars = Vars::new();
    let g = get_stmt("GET a = 1 + 2, b = \"x\", a = 7 OF t");
    let list = answered_by(fixed, |a| exec_expr_list(&scope(a), &mut vars, g.expr_list.as_ref().unwrap())).unwrap().unwrap();
    assert_eq!(list.len(), 3);
    assert_eq!(list[0].kind, ObjectKind::Ident);
    assert_eq!(list[0].ident, "a");
    assert_eq!(vars.get("a").unwrap().int_value, 7);
    assert_eq!(vars.get("b").unwrap().string, "x");
    assert!(vars.get("c").is_none());
    let mut v2 = Vars::new();
    v2.set("k".to_string(), Object::from_bool(true));
    assert!(v2.get("k").unwrap().bool_value);
}

#[test]
fn limits_are_whole_numbers() {
    let mut vars = Vars::new();
    let g = get_stmt("GET * OF t LIMIT 2 + 3");
    let l = answered_by(fixed, |a| gen_limit_value(a, &mut vars, g.limit.as_ref().unwrap())).unwrap().unwrap();
    assert_eq!(l, Some(5));
    let g = get_stmt("GET * OF t LIMIT \"x\"");
    let e = answered_by(fixed, |a| gen_limit_value(a, &mut vars, g.limit.as_ref().unwrap())).unwrap().unwrap_err();
    assert_eq!(e.kind(), ErrorKind::Exec);
}

#[test]
fn evaluating_a_plain_expression() {
    let mut vars = Vars::new();
    let g = get_stmt("GET 6 / 4 OF t");
    let e = &g.expr_list.as_ref().unwrap().exprs[0];
    let o = answered_by(fixed, |a| exec_expr(&scope(a), &mut vars, e)).unwrap().unwrap();
    assert_eq!(o.int_value, 1);
}

#[test]
fn a_limit_gives_the_value_of_its_expression() {
    let mut vars = Vars::new();
    let g = get_stmt("GET * OF t LIMIT 4 * 2");
    let o = answered_by(fixed, |a| exec_limit(a, &mut vars, g.limit.as_ref().unwrap())).unwrap().unwrap();
    assert_eq!(o.kind, ObjectKind::Int);
    assert_eq!(o.int_value, 8);
    let e = answered_by(fixed, |a| exec_limit(a, &mut vars, &LimitNode::new())).unwrap().unwrap_err();
    assert_eq!(e.kind(), ErrorKind::Exec);
}

#[test]
fn literals_become_values() {
    let mut n = I64ValueNode::new();
    n.value = -7;
    let o = exec_i64_value(&n).unwrap();
    assert_eq!((o.kind, o.int_value), (ObjectKind::Int, -7));
    let o = exec_f64_value(&F64ValueNode { text: "2.5".to_string() }).unwrap();
    assert_eq!((o.kind, o.float_text.as_str()), (ObjectKind::Float, "2.5"));
    let mut b = BoolValueNode::new();
    b.value = true;
    let o = exec_bool_value(&b).unwrap();
    assert_eq!((o.kind, o.bool_value), (ObjectKind::Bool, true));
    let mut st = StringNode::new();
    st.value = "hoge".to_string();
    let o = exec_string(&st).unwrap();
    assert_eq!((o.kind, o.string.as_str()), (ObjectKind::String, "hoge"));
    let o = exec_ident(&IdentNode { value: "id".to_string() }).unwrap();
    assert_eq!((o.kind, o.ident.as_str()), (ObjectKind::Ident, "id"));
}
