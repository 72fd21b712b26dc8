use saba::error::ErrorKind;
use saba::eval::{
    and_objects, compare_objects, mul_div_objects, or_objects, parse_column_by_head, refer_ident, try_add_sub_objects,
    try_mul_div_objects, Evaluated, FloatOp, RecordScope,
};
use saba::host::Answers;
use saba::objects::{Object, ObjectKind};
use saba::parser::{AddSubOpNode, CompareOpNode, MulDivOpNode};

fn scope() -> RecordScope<'static> {
    RecordScope::of_record(
        vec!["id: INT".to_string(), "weight: FLOAT".to_string(), "name: CHAR[8]".to_string(), "ok: BOOL".to_string()],
        vec!["id".to_string(), "weight".to_string(), "name".to_string(), "ok".to_string()],
        vec!["7".to_string(), "3.14".to_string(), "hige".to_string(), "true".to_string()],
        Box::leak(Box::new(Answers::new())),
    )
}

fn done(e: Evaluated) -> Object {
    match e {
        Evaluated::Done(o) => o,
        Evaluated::InFloat(..) => panic!("expected a value"),
    }
}

fn whole(n: i128) -> Object {
    Object::from_int(n)
}

#[test]
fn cells_are_read_by_their_header() {
    assert_eq!(parse_column_by_head("id: INT", "-3").unwrap().int_value, -3);
    assert_eq!(parse_column_by_head("w: Float", "2.5").unwrap().float_text, "2.5");
    assert!(parse_column_by_head("b: BOOL", "true").unwrap().bool_value);
    assert_eq!(parse_column_by_head("n: CHAR[4]", "abc").unwrap().string, "abc");
    assert_eq!(parse_column_by_head("id: INT", "x").unwrap_err().kind(), ErrorKind::Exec);
    assert_eq!(parse_column_by_head("b: BOOL", "yes").unwrap_err().kind(), ErrorKind::Exec);
}

#[test]
fn names_are_looked_up_in_the_record() {
    let sc = scope();
    assert_eq!(refer_ident(&sc, &Object::from_ident("id")).unwrap().int_value, 7);
    assert_eq!(refer_ident(&sc, &Object::from_ident("name")).unwrap().string, "hige");
    assert_eq!(refer_ident(&sc, &Object::from_ident("nope")).unwrap_err().kind(), ErrorKind::Exec);
}

#[test]
fn whole_number_comparisons() {
    let sc = scope();
    assert!(done(compare_objects(&sc, &whole(1), &CompareOpNode::Lt, &whole(2)).unwrap()).bool_value);
    assert!(!done(compare_objects(&sc, &whole(2), &CompareOpNode::Lt, &whole(2)).unwrap()).bool_value);
    assert!(done(compare_objects(&sc, &whole(2), &CompareOpNode::LtEq, &whole(2)).unwrap()).bool_value);
    assert!(done(compare_objects(&sc, &Object::from_ident("id"), &CompareOpNode::Eq, &whole(7)).unwrap()).bool_value);
    assert!(done(compare_objects(&sc, &whole(8), &CompareOpNode::Gt, &Object::from_ident("id")).unwrap()).bool_value);
}

#[test]
fn string_and_bool_equality() {
    let sc = scope();
    let hige = Object::from_string("hige".to_string());
    assert!(done(compare_objects(&sc, &Object::from_ident("name"), &CompareOpNode::Eq, &hige).unwrap()).bool_value);
    assert!(done(compare_objects(&sc, &hige, &CompareOpNode::NotEq, &Object::from_string("x".to_string())).unwrap()).bool_value);
    assert!(done(compare_objects(&sc, &Object::from_bool(true), &CompareOpNode::Eq, &Object::from_ident("ok")).unwrap()).bool_value);
    assert_eq!(compare_objects(&sc, &hige, &CompareOpNode::Lt, &hige).unwrap_err().kind(), ErrorKind::Exec);
    assert_eq!(compare_objects(&sc, &whole(1), &CompareOpNode::Eq, &hige).unwrap_err().kind(), ErrorKind::Exec);
}

#[test]
fn comparisons_with_fractions_are_left_to_floating_point() {
    let sc = scope();
    match compare_objects(&sc, &Object::from_ident("weight"), &CompareOpNode::Gt, &whole(3)).unwrap() {
        Evaluated::InFloat(l, op, r) => {
            assert_eq!(l.float_text, "3.14");
            assert_eq!(op, FloatOp::Gt);
            assert_eq!(r.int_value, 3);
        },
        Evaluated::Done(_) => panic!("expected a floating-point operation"),
    }
}

#[test]
fn arithmetic() {
    let sc = scope();
    let add = try_add_sub_objects(&sc, &Object::from_ident("id"), &AddSubOpNode::Add, &whole(1)).unwrap().unwrap();
    assert_eq!(done(add).int_value, 8);
    let sub = try_add_sub_objects(&sc, &whole(1), &AddSubOpNode::Sub, &whole(3)).unwrap().unwrap();
    assert_eq!(done(sub).int_value, -2);
    let cat = try_add_sub_objects(&sc, &Object::from_string("a".to_string()), &AddSubOpNode::Add, &Object::from_string("b".to_string()))
        .unwrap()
        .unwrap();
    assert_eq!(done(cat).string, "ab");
    assert!(try_add_sub_objects(&sc, &Object::from_string("a".to_string()), &AddSubOpNode::Sub, &Object::from_string("b".to_string()))
        .unwrap()
        .is_err());
    assert!(try_add_sub_objects(&sc, &whole(i128::MAX), &AddSubOpNode::Add, &whole(1)).is_none());
}

#[test]
fn division_rounds_toward_zero() {
    let sc = scope();
    assert_eq!(done(mul_div_objects(&sc, &whole(-7), &MulDivOpNode::Div, &whole(2)).unwrap()).int_value, -3);
    assert_eq!(done(mul_div_objects(&sc, &whole(-7), &MulDivOpNode::Mod, &whole(2)).unwrap()).int_value, -1);
    assert_eq!(done(mul_div_objects(&sc, &whole(7), &MulDivOpNode::Mod, &whole(-2)).unwrap()).int_value, 1);
    assert_eq!(done(mul_div_objects(&sc, &whole(6), &MulDivOpNode::Mul, &whole(7)).unwrap()).int_value, 42);
    assert_eq!(mul_div_objects(&sc, &whole(1), &MulDivOpNode::Div, &whole(0)).unwrap_err().kind(), ErrorKind::Exec);
    assert!(try_mul_div_objects(&sc, &whole(i128::MIN), &MulDivOpNode::Div, &whole(-1)).is_none());
    assert!(try_mul_div_objects(&sc, &whole(i128::MIN), &MulDivOpNode::Mod, &whole(-1)).is_none());
    assert!(try_mul_div_objects(&sc, &whole(i128::MAX), &MulDivOpNode::Mul, &whole(2)).is_none());
    assert_eq!(done(try_mul_div_objects(&sc, &whole(i128::MIN), &MulDivOpNode::Div, &whole(1)).unwrap().unwrap()).int_value, i128::MIN);
}

#[test]
fn logical_connectives() {
    let sc = scope();
    let t = Object::from_bool(true);
    let f = Object::from_bool(false);
    assert!(!and_objects(&sc, &t, &f).unwrap().bool_value);
    assert!(or_objects(&sc, &t, &f).unwrap().bool_value);
    assert!(and_objects(&sc, &Object::from_ident("ok"), &t).unwrap().bool_value);
    assert!(!and_objects(&sc, &Object::from_ident("ok"), &f).unwrap().bool_value);
    assert_eq!(and_objects(&sc, &whole(1), &t).unwrap_err().kind(), ErrorKind::Exec);
    assert_eq!(or_objects(&sc, &Object::from_ident("id"), &t).unwrap_err().kind(), ErrorKind::Exec);
    assert_eq!(or_objects(&sc, &t, &f).unwrap().kind, ObjectKind::Bool);
}

#[test]
fn dividing_by_a_zero_fraction_is_an_error() {
    let sc = scope();
    let frac = |t: &str| Object::from_float_text(t.to_string());
    let e = mul_div_objects(&sc, &frac("1.5"), &MulDivOpNode::Div, &frac("0.0")).unwrap_err();
    assert_eq!(e.kind(), ErrorKind::Exec);
    let e = mul_div_objects(&sc, &whole(1), &MulDivOpNode::Mod, &frac("-0.00")).unwrap_err();
    assert_eq!(e.kind(), ErrorKind::Exec);
    let e = mul_div_objects(&sc, &frac("2.5"), &MulDivOpNode::Div, &whole(0)).unwrap_err();
    assert_eq!(e.kind(), ErrorKind::Exec);
    assert!(matches!(
        mul_div_objects(&sc, &frac("2.5"), &MulDivOpNode::Div, &frac("0.5")).unwrap(),
        Evaluated::InFloat(_, FloatOp::Div, _)
    ));
    assert!(matches!(
        mul_div_objects(&sc, &frac("2.5"), &MulDivOpNode::Mul, &frac("0.0")).unwrap(),
        Evaluated::InFloat(_, FloatOp::Mul, _)
    ));
}
