use saba::error::{Error, ErrorKind};
use saba::eval::FloatOp;
use saba::exprs::Vars;
use saba::host::{Answers, Question};
use saba::objects::{Object, ObjectKind};
use saba::planner::PlanNode;
use saba::table::{Table, exec_aggregate, exec_project, exec_row_delete, exec_row_update, exec_sort, matched_rows, var_values_exec, call_count, column_numbers};
use saba::headers::parse_csv_headers_as_types;
use saba::parser::{AssExprNode, ExprListNode, ExprNode, FuncExprNode, IdentNode, OrExprNode, OrderByNode, QueryNode};
use saba::planner::{AggregateNode, planning};
use saba::utils::{parse_query, prepare_query};


fn number(o: &Object) -> f64 {
    match o.kind {
        ObjectKind::Int => o.int_value as f64,
        _ => o.float_text.parse::<f64>().unwrap(),
    }
}

/// Runs `f` with the answers given so far, answering with `host` each
/// question at which it stops, until it finishes.
fn answered_by<T>(
    host: fn(&Question) -> Result<Object, String>,
    mut f: impl FnMut(&Answers) -> Option<Result<T, Error>>,
) -> Option<Result<T, Error>> {
    let mut answers = Answers::new();
    loop {
        match f(&answers) {
            Some(Err(Error::Unanswered(_, q))) => {
                let a = host(&q);
                answers.add(q, a);
            },
            other => return other,
        }
    }
}

/// Carries out floating-point comparisons with `f64`; no functions.
fn floats(q: &Question) -> Result<Object, String> {
    match q {
        Question::Float(lhs, op, rhs) => {
            let (a, b) = (number(lhs), number(rhs));
            match op {
                FloatOp::Lt => Ok(Object::from_bool(a < b)),
                FloatOp::Eq => Ok(Object::from_bool(a == b)),
                FloatOp::NotEq => Ok(Object::from_bool(a != b)),
                _ => Err("not needed here".to_string()),
            }
        },
        Question::Call(..) => Err("no functions here".to_string()),
    }
}

fn row(v: &[&str]) -> Vec<String> {
    v.iter().map(|s| s.to_string()).collect()
}

fn five_rows() -> Table {
    Table {
        headers: row(&["id: INT", "weight: FLOAT", "name: CHAR[128]"]),
        records: vec![
            row(&["1", "3.14", "hige"]),
            row(&["2", "3.14", "hoge"]),
            row(&["3", "3.14", "moge"]),
            row(&["4", "3.14", "huge"]),
            row(&["5", "3.14", "oge"]),
        ],
    }
}

fn plan(q: &str) -> PlanNode {
    prepare_query(q.to_string()).unwrap().plans.remove(0)
}

fn lines(rows: &Vec<Vec<String>>) -> String {
    rows.iter().map(|r| r.join(",") + "\n").collect()
}

#[test]
fn get_prints_the_selected_fields() {
    let t = five_rows();
    let p = plan("GET ALL id, name OF test_table WHERE id < 3");
    let rows = answered_by(floats, |a| exec_project(a, &t, p.project.as_ref().unwrap())).unwrap().unwrap();
    assert_eq!(lines(&rows), "1,hige\n2,hoge\n");
    let p = plan("GET * OF test_table WHERE weight == 3.14");
    let rows = answered_by(floats, |a| exec_project(a, &t, p.project.as_ref().unwrap())).unwrap().unwrap();
    assert_eq!(lines(&rows), "1,3.14,hige\n");
    let p = plan("GET ALL * OF test_table LIMIT 2");
    let rows = answered_by(floats, |a| exec_project(a, &t, p.project.as_ref().unwrap())).unwrap().unwrap();
    assert_eq!(lines(&rows), "1,3.14,hige\n2,3.14,hoge\n");
}

#[test]
fn delete_leaves_the_rows_it_does_not_take() {
    let t = five_rows();
    let p = plan("DEL ALL OF test_table LIMIT 2");
    let rd = p.csv_file_rewrite.as_ref().unwrap().row_delete.as_ref().unwrap();
    let rows = answered_by(floats, |a| exec_row_delete(a, &t, rd)).unwrap().unwrap();
    assert_eq!(lines(&rows), "3,3.14,moge\n4,3.14,huge\n5,3.14,oge\n");
    let p = plan("DEL OF test_table WHERE id == 4");
    let rd = p.csv_file_rewrite.as_ref().unwrap().row_delete.as_ref().unwrap();
    let rows = answered_by(floats, |a| exec_row_delete(a, &t, rd)).unwrap().unwrap();
    assert_eq!(rows.len(), 4);
    assert!(!lines(&rows).contains("huge"));
    let p = plan("DEL ALL OF test_table");
    let rd = p.csv_file_rewrite.as_ref().unwrap().row_delete.as_ref().unwrap();
    assert!(answered_by(floats, |a| exec_row_delete(a, &t, rd)).unwrap().unwrap().is_empty());
}

#[test]
fn set_updates_the_rows_it_takes() {
    let t = five_rows();
    let p = plan("SET ALL id = 10 OF test_table WHERE weight == 3.14");
    let ru = p.csv_file_rewrite.as_ref().unwrap().row_update.as_ref().unwrap();
    let rows = answered_by(floats, |a| exec_row_update(a, &t, ru)).unwrap().unwrap();
    assert!(rows.iter().all(|r| r[0] == "10"));
    let p = plan("SET name = \"x\" OF test_table WHERE id == 3");
    let ru = p.csv_file_rewrite.as_ref().unwrap().row_update.as_ref().unwrap();
    let rows = answered_by(floats, |a| exec_row_update(a, &t, ru)).unwrap().unwrap();
    assert_eq!(rows[2], row(&["3", "3.14", "x"]));
    assert_eq!(rows[3], row(&["4", "3.14", "huge"]));
}

#[test]
fn where_clauses_match_rows() {
    let t = five_rows();
    let p = plan("GET ALL * OF test_table WHERE id > 3 OR name == \"hige\"");
    let clause = &p.project.as_ref().unwrap().filter.as_ref().unwrap().where_clause;
    let idents = row(&["id", "weight", "name"]);
    let m = answered_by(floats, |a| matched_rows(a, &mut Vars::new(), &t, &idents, clause)).unwrap().unwrap();
    assert_eq!(m, vec![true, false, false, true, true]);
    let short = Table { headers: t.headers.clone(), records: vec![row(&["1"])] };
    let e = answered_by(floats, |a| matched_rows(a, &mut Vars::new(), &short, &idents, clause)).unwrap().unwrap_err();
    assert_eq!(e.kind(), ErrorKind::Runtime);
}

/// The plan of a get statement `q` sorted by column `key`.
fn sorted_plan(q: &str, key: &str, is_asc: bool) -> PlanNode {
    let mut node: QueryNode = parse_query(q.to_string()).unwrap();
    let key_query: QueryNode = parse_query(format!("GET {} OF t", key)).unwrap();
    let mut key_stmts = key_query.stmts;
    let expr = key_stmts.remove(0).get_stmt.unwrap().expr_list.unwrap().exprs.remove(0);
    node.stmts[0].get_stmt.as_mut().unwrap().order_by = Some(Box::new(OrderByNode { expr: Some(expr), is_asc }));
    planning(&node).unwrap().plans.remove(0)
}

#[test]
fn order_by_sorts_the_matching_rows() {
    let t = five_rows();
    let p = sorted_plan("GET ALL * OF test_table WHERE id > 1", "name", true);
    let rows = answered_by(floats, |a| exec_sort(a, &t, p.sort.as_ref().unwrap())).unwrap().unwrap();
    assert_eq!(lines(&rows), "2,3.14,hoge\n4,3.14,huge\n3,3.14,moge\n5,3.14,oge\n");
    let p = sorted_plan("GET ALL * OF test_table LIMIT 2", "name", false);
    let rows = answered_by(floats, |a| exec_sort(a, &t, p.sort.as_ref().unwrap())).unwrap().unwrap();
    assert_eq!(lines(&rows), "5,3.14,oge\n3,3.14,moge\n");
    let p = sorted_plan("GET * OF test_table", "id", true);
    let rows = answered_by(floats, |a| exec_sort(a, &t, p.sort.as_ref().unwrap())).unwrap().unwrap();
    assert_eq!(lines(&rows), "1,3.14,hige\n");
    let p = sorted_plan("GET ALL * OF test_table", "nope", true);
    let e = answered_by(floats, |a| exec_sort(a, &t, p.sort.as_ref().unwrap())).unwrap().unwrap_err();
    assert_eq!(e.kind(), ErrorKind::Exec);
}

/// A host whose every function counts the rows it was handed.
fn counter(q: &Question) -> Result<Object, String> {
    match q {
        Question::Call(_, _, _, rows) => Ok(Object::from_int(rows.len() as i128)),
        Question::Float(..) => Err("no floats here".to_string()),
    }
}

#[test]
fn functions_run_over_the_taken_rows() {
    let t = five_rows();
    let mut p = plan("GET ALL * OF test_table WHERE id > 2");
    let filter = p.project.as_mut().unwrap().filter.take();
    let star = plan_star_or_expr();
    let call = FuncExprNode { ident: Some(Box::new(IdentNode { value: "count".to_string() })), or_exprs: vec![star], or_expr: None };
    let e = ExprNode { ass_expr: Some(Box::new(AssExprNode { left_func_expr: Some(Box::new(call)), right_func_expr: None })) };
    let node = AggregateNode { filter, limit: None, all: true, expr_list: Some(Box::new(ExprListNode { exprs: vec![Box::new(e)] })) };
    let rows = answered_by(counter, |a| exec_aggregate(a, &t, &node)).unwrap().unwrap();
    assert_eq!(rows, vec![row(&["3"])]);
}

fn plan_star_or_expr() -> Box<OrExprNode> {
    let q: QueryNode = parse_query("GET * OF t".to_string()).unwrap();
    let mut stmts = q.stmts;
    stmts.remove(0).get_stmt.unwrap().expr_list.unwrap().exprs.remove(0).ass_expr.unwrap().left_func_expr.unwrap().or_expr.unwrap()
}

#[test]
fn named_values_take_the_last_value_assigned() {
    let mut vars = Vars::new();
    vars.set("id".to_string(), Object::from_int(1));
    vars.set("id".to_string(), Object::from_int(5));
    let keys = vec![Object::from_ident("id"), Object::from_ident("name")];
    let values = var_values_exec(&keys, &vars);
    assert_eq!(values, vec![("id".to_string(), Some("5".to_string())), ("name".to_string(), None)]);
}

#[test]
fn count_gives_the_number_of_rows_taken() {
    let t = five_rows();
    let idents = vec!["id".to_string(), "weight".to_string(), "name".to_string()];
    let n = call_count(&idents, &t.records, &vec![Object::from_star()]).unwrap();
    assert_eq!((n.kind, n.int_value), (ObjectKind::Int, 5));
    let n = call_count(&idents, &t.records[..2].to_vec(), &vec![Object::from_ident("name")]).unwrap();
    assert_eq!(n.int_value, 2);
    let e = call_count(&idents, &t.records, &vec![Object::from_ident("nothing")]).unwrap_err();
    assert_eq!(e.kind(), ErrorKind::Exec);
    let e = call_count(&idents, &t.records, &vec![]).unwrap_err();
    assert_eq!(e.kind(), ErrorKind::Exec);
    let short = vec![row(&["1", "3.14", "a"]), row(&["2"])];
    let e = call_count(&idents, &short, &vec![Object::from_ident("name")]).unwrap_err();
    assert_eq!(e.kind(), ErrorKind::Exec);
}

#[test]
fn functions_read_the_numbers_of_a_column() {
    let t = five_rows();
    let idents = vec!["id".to_string(), "weight".to_string(), "name".to_string()];
    let types = parse_csv_headers_as_types(&t.headers).unwrap();
    let nums = column_numbers(&types, &idents, &t.records, &vec![Object::from_ident("id")]).unwrap();
    let ints: Vec<i128> = nums.iter().map(|o| o.int_value).collect();
    assert_eq!(ints, vec![1, 2, 3, 4, 5]);
    let nums = column_numbers(&types, &idents, &t.records, &vec![Object::from_ident("weight")]).unwrap();
    assert_eq!(nums[0].kind, ObjectKind::Float);
    assert_eq!(nums[0].float_text, "3.14");
    let e = column_numbers(&types, &idents, &t.records, &vec![Object::from_ident("name")]).unwrap_err();
    assert_eq!(e.kind(), ErrorKind::Exec);
    let e = column_numbers(&types, &idents, &t.records, &vec![Object::from_star()]).unwrap_err();
    assert_eq!(e.kind(), ErrorKind::Exec);
    let bad = vec![row(&["x", "3.14", "a"])];
    let e = column_numbers(&types, &idents, &bad, &vec![Object::from_ident("id")]).unwrap_err();
    assert_eq!(e.kind(), ErrorKind::Parse);
}

/// A host that answers no function call.
fn no_calls(q: &Question) -> Result<Object, String> {
    match q {
        Question::Float(..) => floats(q),
        Question::Call(..) => Err("no calls here".to_string()),
    }
}

/// The expression `text` of a get statement's list.
fn or_expr_of(text: &str) -> Box<OrExprNode> {
    let q: QueryNode = parse_query(format!("GET {} OF t", text)).unwrap();
    let mut stmts = q.stmts;
    stmts.remove(0).get_stmt.unwrap().expr_list.unwrap().exprs.remove(0).ass_expr.unwrap().left_func_expr.unwrap().or_expr.unwrap()
}

/// `GET [ALL] f(arg) OF test_table [WHERE ..] [LIMIT n]`, whose function
/// call the planner makes into an aggregate; the parser reads no calls, so
/// the call is built here, around the scan that `rest` plans.
fn aggregate_of(t: &Table, all: bool, f: &str, arg: &str, rest: &str) -> Result<Vec<Vec<String>>, Error> {
    let mut p = plan(&format!("GET ALL * OF test_table {}", rest));
    let project = p.project.as_mut().unwrap();
    let filter = project.filter.take();
    let limit = project.limit.take();
    let call = FuncExprNode { ident: Some(Box::new(IdentNode { value: f.to_string() })), or_exprs: vec![or_expr_of(arg)], or_expr: None };
    let e = ExprNode { ass_expr: Some(Box::new(AssExprNode { left_func_expr: Some(Box::new(call)), right_func_expr: None })) };
    let node = AggregateNode { filter, limit, all, expr_list: Some(Box::new(ExprListNode { exprs: vec![Box::new(e)] })) };
    answered_by(no_calls, |a| exec_aggregate(a, t, &node)).unwrap()
}

/// The same statement as `aggregate_of`, run once with the answers `answers`.
fn aggregate_with(answers: &Answers, t: &Table, f: &str, arg: &str, rest: &str) -> Result<Vec<Vec<String>>, Error> {
    let mut p = plan(&format!("GET ALL * OF test_table {}", rest));
    let project = p.project.as_mut().unwrap();
    let filter = project.filter.take();
    let limit = project.limit.take();
    let call = FuncExprNode { ident: Some(Box::new(IdentNode { value: f.to_string() })), or_exprs: vec![or_expr_of(arg)], or_expr: None };
    let e = ExprNode { ass_expr: Some(Box::new(AssExprNode { left_func_expr: Some(Box::new(call)), right_func_expr: None })) };
    let node = AggregateNode { filter, limit, all: true, expr_list: Some(Box::new(ExprListNode { exprs: vec![Box::new(e)] })) };
    exec_aggregate(answers, t, &node).unwrap()
}

#[test]
fn test_count_func_0() {
    let t = five_rows();
    assert_eq!(aggregate_of(&t, true, "COUNT", "id", "").unwrap(), vec![row(&["5"])]);
    assert_eq!(aggregate_of(&t, false, "COUNT", "id", "").unwrap(), vec![row(&["1"])]);
    assert_eq!(aggregate_of(&t, true, "COUNT", "*", "").unwrap(), vec![row(&["5"])]);
}

#[test]
fn count_counts_the_rows_the_where_clause_takes() {
    let t = five_rows();
    assert_eq!(aggregate_of(&t, true, "count", "*", "WHERE id < 3").unwrap(), vec![row(&["2"])]);
    assert_eq!(aggregate_of(&t, true, "Count", "name", "LIMIT 4").unwrap(), vec![row(&["4"])]);
    assert_eq!(aggregate_of(&t, true, "COUNT", "nothing", "").unwrap_err().kind(), ErrorKind::Exec);
    assert_eq!(aggregate_of(&t, true, "SUM", "id", "").unwrap_err().kind(), ErrorKind::Exec);
}

fn two_rows() -> Table {
    Table {
        headers: row(&["id: INT", "weight: FLOAT", "name: CHAR[128]"]),
        records: vec![row(&["1", "3.14", "hige"]), row(&["2", "3.14", "hoge"])],
    }
}

#[test]
fn test_set_stmt_1() {
    let t = two_rows();
    let p = plan("SET id=10, name=\"HOGE\" OF test_table WHERE weight == 3.14");
    let ru = p.csv_file_rewrite.as_ref().unwrap().row_update.as_ref().unwrap();
    let rows = answered_by(floats, |a| exec_row_update(a, &t, ru)).unwrap().unwrap();
    assert_eq!(lines(&rows), "10,3.14,HOGE\n2,3.14,hoge\n");
}

/// A host that takes every fraction comparison to be false.
fn never_equal(q: &Question) -> Result<Object, String> {
    match q {
        Question::Float(..) => Ok(Object::from_bool(false)),
        Question::Call(..) => Err("no functions here".to_string()),
    }
}

#[test]
fn rows_a_host_does_not_match_stay_as_they_are() {
    let t = five_rows();
    let p = plan("SET ALL name = \"X\" OF test_table WHERE weight == 3.14");
    let ru = p.csv_file_rewrite.as_ref().unwrap().row_update.as_ref().unwrap();
    assert_eq!(answered_by(never_equal, |a| exec_row_update(a, &t, ru)).unwrap().unwrap(), t.records);
    let p = plan("DEL ALL OF test_table WHERE weight == 3.14");
    let rd = p.csv_file_rewrite.as_ref().unwrap().row_delete.as_ref().unwrap();
    assert_eq!(answered_by(never_equal, |a| exec_row_delete(a, &t, rd)).unwrap().unwrap(), t.records);
}

#[test]
fn a_statement_stops_at_a_question_without_an_answer() {
    let t = two_rows();
    let p = plan("DEL ALL OF test_table WHERE weight == 3.14");
    let rd = p.csv_file_rewrite.as_ref().unwrap().row_delete.as_ref().unwrap();
    let e = exec_row_delete(&Answers::new(), &t, rd).unwrap().unwrap_err();
    assert_eq!(e.kind(), ErrorKind::Unanswered);
    let q = match e {
        Error::Unanswered(_, q) => q,
        _ => panic!("expected a question"),
    };
    match &q {
        Question::Float(l, op, r) => {
            assert_eq!((l.kind, l.float_text.as_str()), (ObjectKind::Float, "3.14"));
            assert_eq!(*op, FloatOp::Eq);
            assert_eq!((r.kind, r.float_text.as_str()), (ObjectKind::Float, "3.14"));
        },
        _ => panic!("expected an operation on fractions"),
    }
    let mut yes = Answers::new();
    yes.add(Question::Float(Object::from_float_text("3.14".to_string()), FloatOp::Eq, Object::from_float_text("3.14".to_string())), Ok(Object::from_bool(true)));
    assert!(exec_row_delete(&yes, &t, rd).unwrap().unwrap().is_empty());
    let mut no = Answers::new();
    no.add(q, Ok(Object::from_bool(false)));
    assert_eq!(exec_row_delete(&no, &t, rd).unwrap().unwrap(), t.records);
    let mut failed = Answers::new();
    failed.add(Question::Float(Object::from_float_text("3.14".to_string()), FloatOp::Eq, Object::from_float_text("3.14".to_string())), Err("broken".to_string()));
    assert_eq!(exec_row_delete(&failed, &t, rd).unwrap().unwrap_err().kind(), ErrorKind::Exec);
}

#[test]
fn functions_other_than_count_are_questions_over_the_taken_rows() {
    let t = five_rows();
    let e = aggregate_with(&Answers::new(), &t, "SUM", "id", "WHERE id > 3").unwrap_err();
    match e {
        Error::Unanswered(_, Question::Call(name, args, idents, rows)) => {
            assert_eq!(name, "SUM");
            assert_eq!(args[0].ident, "id");
            assert_eq!(idents, vec!["id".to_string(), "weight".to_string(), "name".to_string()]);
            assert_eq!(rows, t.records[3..].to_vec());
        },
        _ => panic!("expected a call"),
    }
}

#[test]
fn the_first_answer_to_a_question_stands() {
    let t = two_rows();
    let p = plan("DEL ALL OF test_table WHERE weight == 3.14");
    let rd = p.csv_file_rewrite.as_ref().unwrap().row_delete.as_ref().unwrap();
    let q = || Question::Float(Object::from_float_text("3.14".to_string()), FloatOp::Eq, Object::from_float_text("3.14".to_string()));
    let mut a = Answers::new();
    a.add(q(), Ok(Object::from_bool(false)));
    a.add(q(), Ok(Object::from_bool(true)));
    a.add(Question::Float(Object::from_int(1), FloatOp::Lt, Object::from_int(2)), Ok(Object::from_bool(true)));
    assert_eq!(exec_row_delete(&a, &t, rd).unwrap().unwrap(), t.records);
}
