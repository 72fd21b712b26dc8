//! Evaluation of the expressions of a query against a record: the walk over
//! the syntax tree, assignments to names, `or`, `and`, comparisons and
//! arithmetic. What needs floating point, or a function of a get statement
//! other than `COUNT`, is a question of the host: the evaluation takes the
//! answer given so far, or stops and names the question.
use vstd::prelude::*;
use crate::error::{Error, ErrorKind, asks, make_error};
use crate::eval::{
    Evaluated, EvaluatedV, FloatOp, RecordScope, RecordScopeV, add_sub_fits, add_sub_outcome, and_objects,
    bool_value, compare_objects, compare_outcome, logic_operands, mul_div_fits, mul_div_outcome,
    or_objects, scope_ok, try_add_sub_objects, try_mul_div_objects,
};
use crate::headers::same_str;
use crate::host::{Answers, AnswersV, Question, QuestionV, answer_of, find_answer, objects_of};
use crate::order::{copy_row, copy_rows};
use crate::order::rows_view;
use crate::plan_model::spec_to_lowercase;
use crate::planner::str_to_lowercase;
use crate::table::{call_count, count_value};
use crate::objects::{Object, ObjectKind, ObjectV, nil_object};
use crate::parser::{
    AddSubExprItemNode, AddSubExprNode, AndExprNode, AssExprNode, CompareExprItemNode, CompareExprNode, ExprListNode,
    ExprNode, FuncExprNode, LimitNode, CompareOpNode, MulDivExprItemNode, MulDivExprNode, OperandNode, OrExprNode, WhereClauseNode,
    BoolValueNode, F64ValueNode, I64ValueNode, IdentNode, StringNode,
};

verus! {

/// The names assigned so far, each with its value; a later assignment of a
/// name hides an earlier one.
pub struct Vars {
    pub entries: Vec<(String, Object)>,
}

impl View for Vars {
    type V = Seq<(Seq<char>, ObjectV)>;

    open spec fn view(&self) -> Seq<(Seq<char>, ObjectV)> {
        self.entries@.map_values(|e: (String, Object)| (e.0@, e.1@))
    }
}

/// The value last assigned to `k`.
pub open spec fn lookup(vs: Seq<(Seq<char>, ObjectV)>, k: Seq<char>) -> Option<ObjectV>
    decreases vs.len(),
{
    if vs.len() == 0 {
        None
    } else if vs.last().0 == k {
        Some(vs.last().1)
    } else {
        lookup(vs.drop_last(), k)
    }
}

/// A name reads back the value last assigned to it; assigning a name
/// leaves what the other names read unchanged.
pub proof fn lemma_lookup_after_set(vs: Seq<(Seq<char>, ObjectV)>, k: Seq<char>, v: ObjectV, other: Seq<char>)
    ensures
        lookup(vs.push((k, v)), k) == Some(v),
        other != k ==> lookup(vs.push((k, v)), other) == lookup(vs, other),
{
    assert(vs.push((k, v)).drop_last() =~= vs);
}

/// What evaluating an expression gives: a value and the names assigned
/// after it; an error; an overflow of whole-number arithmetic, where the
/// evaluation stops; or a question of the host without an answer.
pub enum Out {
    Val(ObjectV, Seq<(Seq<char>, ObjectV)>),
    Fail(ErrorKind),
    Overflow,
    Asks(QuestionV),
}

/// An operation's outcome once the host's answers are taken in: its value,
/// or the outcome that stops the evaluation (an error, or a question that
/// no answer given so far answers).
pub open spec fn answered(sc: RecordScopeV, e: Result<EvaluatedV, ErrorKind>) -> Result<ObjectV, Out> {
    match e {
        Err(k) => Err(Out::Fail(k)),
        Ok(EvaluatedV::Done(c)) => Ok(c),
        Ok(EvaluatedV::InFloat(l, f, r)) => match answer_of(sc.answers, QuestionV::Float(l, f, r)) {
            None => Err(Out::Asks(QuestionV::Float(l, f, r))),
            Some(Err(_)) => Err(Out::Fail(ErrorKind::Exec)),
            Some(Ok(c)) => Ok(c),
        },
    }
}

#[verifier::opaque]
pub open spec fn ev_expr(sc: RecordScopeV, vs: Seq<(Seq<char>, ObjectV)>, n: ExprNode) -> Out
    decreases n,
{
    match n.ass_expr {
        Some(a) => ev_ass(sc, vs, *a),
        None => Out::Fail(ErrorKind::Exec),
    }
}

/// `name = value` assigns the value to the name and gives the name; an
/// expression without `=` gives its value.
#[verifier::opaque]
pub open spec fn ev_ass(sc: RecordScopeV, vs: Seq<(Seq<char>, ObjectV)>, n: AssExprNode) -> Out
    decreases n,
{
    match n.left_func_expr {
        None => Out::Fail(ErrorKind::Exec),
        Some(l) => match ev_func(sc, vs, *l) {
            Out::Val(lv, vs1) => match n.right_func_expr {
                None => Out::Val(lv, vs1),
                Some(r) => match ev_func(sc, vs1, *r) {
                    Out::Val(rv, vs2) => if lv.kind == ObjectKind::Ident {
                        Out::Val(lv, vs2.push((lv.ident, rv)))
                    } else {
                        Out::Fail(ErrorKind::Exec)
                    },
                    o => o,
                },
            },
            o => o,
        },
    }
}

/// A function call evaluates its arguments in order; `COUNT`, where the
/// scope counts, is counted over the rows that the scope holds, and any
/// other call is a question of the host, over the rows the scope has taken.
#[verifier::opaque]
pub open spec fn ev_func(sc: RecordScopeV, vs: Seq<(Seq<char>, ObjectV)>, n: FuncExprNode) -> Out
    decreases n,
{
    if n.ident is Some {
        ev_args(sc, vs, n.or_exprs@, Seq::empty(), n.ident->0.value@)
    } else {
        match n.or_expr {
            Some(o) => ev_or(sc, vs, *o),
            None => Out::Fail(ErrorKind::Exec),
        }
    }
}

/// Whether a call of the function `name` is counted in the scope.
pub open spec fn counts_here(sc: RecordScopeV, name: Seq<char>) -> bool {
    sc.counting && spec_to_lowercase(name) == "count"@
}

/// The rest of the arguments of a call of `name`, after the values `acc`.
#[verifier::opaque]
pub open spec fn ev_args(
    sc: RecordScopeV,
    vs: Seq<(Seq<char>, ObjectV)>,
    s: Seq<Box<OrExprNode>>,
    acc: Seq<ObjectV>,
    name: Seq<char>,
) -> Out
    decreases s,
{
    if s.len() == 0 {
        if counts_here(sc, name) {
            match count_value(sc.taken_idents, sc.taken, acc) {
                Ok(v) => Out::Val(v, vs),
                Err(k) => Out::Fail(k),
            }
        } else {
            let q = QuestionV::Call(name, acc, sc.taken_idents, sc.taken);
            match answer_of(sc.answers, q) {
                None => Out::Asks(q),
                Some(Err(_)) => Out::Fail(ErrorKind::Exec),
                Some(Ok(v)) => Out::Val(v, vs),
            }
        }
    } else {
        match ev_or(sc, vs, *s[0]) {
            Out::Val(v, vs1) => ev_args(sc, vs1, s.drop_first(), acc.push(v), name),
            o => o,
        }
    }
}

/// `a OR b OR ...`, stopping at the first true value.
#[verifier::opaque]
pub open spec fn ev_or(sc: RecordScopeV, vs: Seq<(Seq<char>, ObjectV)>, n: OrExprNode) -> Out
    decreases n,
{
    if n.nodes@.len() == 0 {
        Out::Fail(ErrorKind::Exec)
    } else {
        match ev_and(sc, vs, *n.nodes@[0]) {
            Out::Val(a, vs1) => if a.kind == ObjectKind::Bool && a.bool_value {
                Out::Val(a, vs1)
            } else {
                ev_or_rest(sc, vs1, n.nodes@.drop_first(), a)
            },
            o => o,
        }
    }
}

#[verifier::opaque]
pub open spec fn ev_or_rest(sc: RecordScopeV, vs: Seq<(Seq<char>, ObjectV)>, s: Seq<Box<AndExprNode>>, acc: ObjectV) -> Out
    decreases s,
{
    if s.len() == 0 {
        Out::Val(acc, vs)
    } else {
        match ev_and(sc, vs, *s[0]) {
            Out::Val(b, vs1) => match logic_operands(sc, acc, b) {
                Ok((x, y)) => if x || y {
                    Out::Val(bool_value(true), vs1)
                } else {
                    ev_or_rest(sc, vs1, s.drop_first(), bool_value(false))
                },
                Err(k) => Out::Fail(k),
            },
            o => o,
        }
    }
}

/// `a AND b AND ...`, as `and_objects` combines two values.
#[verifier::opaque]
pub open spec fn ev_and(sc: RecordScopeV, vs: Seq<(Seq<char>, ObjectV)>, n: AndExprNode) -> Out
    decreases n,
{
    if n.nodes@.len() == 0 {
        Out::Fail(ErrorKind::Exec)
    } else {
        match ev_compare(sc, vs, *n.nodes@[0]) {
            Out::Val(a, vs1) => ev_and_rest(sc, vs1, n.nodes@.drop_first(), a),
            o => o,
        }
    }
}

#[verifier::opaque]
pub open spec fn ev_and_rest(sc: RecordScopeV, vs: Seq<(Seq<char>, ObjectV)>, s: Seq<Box<CompareExprNode>>, acc: ObjectV) -> Out
    decreases s,
{
    if s.len() == 0 {
        Out::Val(acc, vs)
    } else {
        match ev_compare(sc, vs, *s[0]) {
            Out::Val(b, vs1) => match logic_operands(sc, acc, b) {
                Ok((x, y)) => ev_and_rest(
                    sc,
                    vs1,
                    s.drop_first(),
                    bool_value(x && y),
                ),
                Err(k) => Out::Fail(k),
            },
            o => o,
        }
    }
}

/// A chain of comparisons, each applied to the value so far.
#[verifier::opaque]
pub open spec fn ev_compare(sc: RecordScopeV, vs: Seq<(Seq<char>, ObjectV)>, n: CompareExprNode) -> Out
    decreases n,
{
    if n.nodes@.len() == 0 {
        Out::Fail(ErrorKind::Exec)
    } else {
        match n.nodes@[0] {
            CompareExprItemNode::Left(l) => match ev_addsub(sc, vs, *l) {
                Out::Val(a, vs1) => ev_compare_rest(sc, vs1, n.nodes@.drop_first(), a),
                o => o,
            },
            _ => Out::Fail(ErrorKind::Exec),
        }
    }
}

#[verifier::opaque]
pub open spec fn ev_compare_rest(sc: RecordScopeV, vs: Seq<(Seq<char>, ObjectV)>, s: Seq<CompareExprItemNode>, acc: ObjectV) -> Out
    decreases s,
{
    if s.len() == 0 {
        Out::Val(acc, vs)
    } else if s.len() == 1 {
        Out::Fail(ErrorKind::Exec)
    } else {
        match s[1] {
            CompareExprItemNode::Right(r) => match ev_addsub(sc, vs, *r) {
                Out::Val(b, vs1) => match s[0] {
                    CompareExprItemNode::Op(op) => match answered(sc, compare_outcome(sc, acc, op, b)) {
                        Ok(c) => ev_compare_rest(sc, vs1, s.skip(2), c),
                        Err(o) => o,
                    },
                    _ => Out::Fail(ErrorKind::Exec),
                },
                o => o,
            },
            _ => Out::Fail(ErrorKind::Exec),
        }
    }
}

/// A chain of `+` and `-`.
#[verifier::opaque]
pub open spec fn ev_addsub(sc: RecordScopeV, vs: Seq<(Seq<char>, ObjectV)>, n: AddSubExprNode) -> Out
    decreases n,
{
    if n.nodes@.len() == 0 {
        Out::Fail(ErrorKind::Exec)
    } else {
        match n.nodes@[0] {
            AddSubExprItemNode::Left(l) => match ev_muldiv(sc, vs, *l) {
                Out::Val(a, vs1) => ev_as_rest(sc, vs1, n.nodes@.drop_first(), a),
                o => o,
            },
            _ => Out::Fail(ErrorKind::Exec),
        }
    }
}

#[verifier::opaque]
pub open spec fn ev_as_rest(sc: RecordScopeV, vs: Seq<(Seq<char>, ObjectV)>, s: Seq<AddSubExprItemNode>, acc: ObjectV) -> Out
    decreases s,
{
    if s.len() == 0 {
        Out::Val(acc, vs)
    } else if s.len() == 1 {
        Out::Fail(ErrorKind::Exec)
    } else {
        match s[1] {
            AddSubExprItemNode::Right(r) => match ev_muldiv(sc, vs, *r) {
                Out::Val(b, vs1) => match s[0] {
                    AddSubExprItemNode::Op(op) => if !add_sub_fits(sc, acc, op, b) {
                        Out::Overflow
                    } else {
                        match answered(sc, add_sub_outcome(sc, acc, op, b)) {
                            Ok(c) => ev_as_rest(sc, vs1, s.skip(2), c),
                            Err(o) => o,
                        }
                    },
                    _ => Out::Fail(ErrorKind::Exec),
                },
                o => o,
            },
            _ => Out::Fail(ErrorKind::Exec),
        }
    }
}

/// A chain of `*`, `/` and `%`.
#[verifier::opaque]
pub open spec fn ev_muldiv(sc: RecordScopeV, vs: Seq<(Seq<char>, ObjectV)>, n: MulDivExprNode) -> Out
    decreases n,
{
    if n.nodes@.len() == 0 {
        Out::Fail(ErrorKind::Exec)
    } else {
        match n.nodes@[0] {
            MulDivExprItemNode::Left(l) => match ev_operand(sc, vs, *l) {
                Out::Val(a, vs1) => ev_md_rest(sc, vs1, n.nodes@.drop_first(), a),
                o => o,
            },
            _ => Out::Fail(ErrorKind::Exec),
        }
    }
}

#[verifier::opaque]
pub open spec fn ev_md_rest(sc: RecordScopeV, vs: Seq<(Seq<char>, ObjectV)>, s: Seq<MulDivExprItemNode>, acc: ObjectV) -> Out
    decreases s,
{
    if s.len() == 0 {
        Out::Val(acc, vs)
    } else if s.len() == 1 {
        Out::Fail(ErrorKind::Exec)
    } else {
        match s[1] {
            MulDivExprItemNode::Right(r) => match ev_operand(sc, vs, *r) {
                Out::Val(b, vs1) => match s[0] {
                    MulDivExprItemNode::Op(op) => if !mul_div_fits(sc, acc, op, b) {
                        Out::Overflow
                    } else {
                        match answered(sc, mul_div_outcome(sc, acc, op, b)) {
                            Ok(c) => ev_md_rest(sc, vs1, s.skip(2), c),
                            Err(o) => o,
                        }
                    },
                    _ => Out::Fail(ErrorKind::Exec),
                },
                o => o,
            },
            _ => Out::Fail(ErrorKind::Exec),
        }
    }
}

/// A literal, a name, `*`, or an expression in brackets.
#[verifier::opaque]
pub open spec fn ev_operand(sc: RecordScopeV, vs: Seq<(Seq<char>, ObjectV)>, n: OperandNode) -> Out
    decreases n,
{
    if n.i64_value is Some {
        Out::Val(ObjectV { kind: ObjectKind::Int, int_value: n.i64_value->0.value as i128, ..nil_object() }, vs)
    } else if n.f64_value is Some {
        Out::Val(ObjectV { kind: ObjectKind::Float, float_text: n.f64_value->0.text@, ..nil_object() }, vs)
    } else if n.bool_value is Some {
        Out::Val(ObjectV { kind: ObjectKind::Bool, bool_value: n.bool_value->0.value, ..nil_object() }, vs)
    } else if n.string is Some {
        Out::Val(ObjectV { kind: ObjectKind::String, string: n.string->0.value@, ..nil_object() }, vs)
    } else if n.ident is Some {
        Out::Val(ObjectV { kind: ObjectKind::Ident, ident: n.ident->0.value@, ..nil_object() }, vs)
    } else if n.expr is Some {
        ev_expr(sc, vs, *n.expr->0)
    } else if n.star {
        Out::Val(ObjectV { kind: ObjectKind::Star, ..nil_object() }, vs)
    } else {
        Out::Fail(ErrorKind::Exec)
    }
}

impl Vars {
    pub fn new() -> (v: Self)
        ensures
            v@ == Seq::<(Seq<char>, ObjectV)>::empty(),
    {
        let v = Vars { entries: Vec::new() };
        proof {
            assert(v@ =~= Seq::<(Seq<char>, ObjectV)>::empty());
        }
        v
    }

    /// Assigns `v` to the name `k`.
    pub fn set(&mut self, k: String, v: Object)
        ensures
            final(self)@ == old(self)@.push((k@, v@)),
    {
        let ghost before = self@;
        self.entries.push((k, v));
        proof {
            assert(self@ =~= before.push((k@, v@)));
        }
    }

    /// The value last assigned to the name `k`.
    pub fn get(&self, k: &str) -> (r: Option<Object>)
        ensures
            match lookup(self@, k@) {
                Some(v) => r is Some && r->0@ == v,
                None => r is None,
            },
    {
        let ghost vs = self@;
        let mut i: usize = self.entries.len();
        proof {
            assert(vs.take(i as int) =~= vs);
        }
        while i > 0
            invariant
                vs == self@,
                i <= vs.len(),
                lookup(vs, k@) == lookup(vs.take(i as int), k@),
            decreases i,
        {
            proof {
                assert(vs.take(i as int).drop_last() =~= vs.take(i - 1));
                assert(vs.take(i as int).last() == vs[i - 1]);
                assert(vs[i - 1] == (self.entries@[i - 1].0@, self.entries@[i - 1].1@));
            }
            if same_str(self.entries[i - 1].0.as_str(), k) {
                return Some(self.entries[i - 1].1.clone());
            }
            i -= 1;
        }
        proof {
            assert(vs.take(0) =~= Seq::<(Seq<char>, ObjectV)>::empty());
        }
        None
    }
}

/// Whether the result of an evaluation, and the names assigned after it,
/// are what the outcome says; `None` stands for an overflow.
pub open spec fn agrees(r: Option<Result<Object, Error>>, o: Out, vs: Seq<(Seq<char>, ObjectV)>) -> bool {
    match o {
        Out::Val(v, vs2) => r matches Some(Ok(x)) && x@ == v && vs == vs2,
        Out::Fail(k) => r matches Some(Err(e)) && e@ == k,
        Out::Overflow => r is None,
        Out::Asks(q) => r matches Some(Err(e)) && e@ == ErrorKind::Unanswered && e.asked() == Some(q),
    }
}

/// Evaluates an expression against a record.
#[verifier::spinoff_prover]
pub fn exec_expr(sc: &RecordScope, vars: &mut Vars, n: &ExprNode) -> (r: Option<Result<Object, Error>>)
    requires
        scope_ok(sc@),
    ensures
        agrees(r, ev_expr(sc@, old(vars)@, *n), final(vars)@),
    decreases *n,
{
    proof {
        reveal_with_fuel(ev_expr, 1);
        reveal_with_fuel(ev_ass, 1);
    }
    match &n.ass_expr {
        Some(a) => exec_ass_expr(sc, vars, &**a),
        None => Some(Err(make_error(ErrorKind::Exec, "impossible"))),
    }
}

/// Evaluates `name = value`, or an expression without `=`.
#[verifier::spinoff_prover]
pub fn exec_ass_expr(sc: &RecordScope, vars: &mut Vars, n: &AssExprNode) -> (r: Option<Result<Object, Error>>)
    requires
        scope_ok(sc@),
    ensures
        agrees(r, ev_ass(sc@, old(vars)@, *n), final(vars)@),
    decreases *n,
{
    proof {
        reveal_with_fuel(ev_ass, 1);
        reveal_with_fuel(ev_func, 1);
    }
    let l = match &n.left_func_expr {
        Some(l) => l,
        None => return Some(Err(make_error(ErrorKind::Exec, "impossible"))),
    };
    let lv = match exec_func_expr(sc, vars, &**l) {
        Some(Ok(v)) => v,
        other => return other,
    };
    let r = match &n.right_func_expr {
        Some(r) => r,
        None => return Some(Ok(lv)),
    };
    let rv = match exec_func_expr(sc, vars, &**r) {
        Some(Ok(v)) => v,
        other => return other,
    };
    if lv.kind != ObjectKind::Ident {
        return Some(Err(make_error(ErrorKind::Exec, "can't assign to primitive object")));
    }
    vars.set(lv.ident.clone(), rv);
    Some(Ok(lv))
}

/// Evaluates a function call, whose arguments are evaluated here and whose
/// value is counted here or answered by the host, or the expression it
/// wraps.
#[verifier::spinoff_prover]
pub fn exec_func_expr(sc: &RecordScope, vars: &mut Vars, n: &FuncExprNode) -> (r: Option<Result<Object, Error>>)
    requires
        scope_ok(sc@),
    ensures
        agrees(r, ev_func(sc@, old(vars)@, *n), final(vars)@),
    decreases *n,
{
    proof {
        reveal_with_fuel(ev_func, 1);
        reveal_with_fuel(ev_args, 1);
        reveal_with_fuel(ev_or, 1);
    }
    if let Some(ident) = &n.ident {
        let ghost s = n.or_exprs@;
        let ghost name = ident.value@;
        let ghost target = ev_args(sc@, old(vars)@, s, Seq::empty(), name);
        let mut args: Vec<Object> = Vec::new();
        let mut i: usize = 0;
        proof {
            assert(s.skip(0) =~= s);
            assert(objects_view(args@) =~= Seq::<ObjectV>::empty());
        }
        while i < n.or_exprs.len()
            invariant
                scope_ok(sc@),
                s == n.or_exprs@,
                name == ident.value@,
                target == ev_args(sc@, old(vars)@, s, Seq::empty(), name),
                target == ev_func(sc@, old(vars)@, *n),
                i <= s.len(),
                target == ev_args(sc@, vars@, s.skip(i as int), objects_view(args@), name),
            decreases s.len() - i,
        {
            proof {
                reveal_with_fuel(ev_args, 1);
                reveal_with_fuel(ev_or, 1);
                assert(s.skip(i as int).drop_first() =~= s.skip(i + 1));
                assert(s.skip(i as int)[0] == s[i as int]);
            }
            let v = match exec_or_expr(sc, vars, &*n.or_exprs[i]) {
                Some(Ok(v)) => v,
                other => return other,
            };
            let ghost before = objects_view(args@);
            args.push(v);
            proof {
                assert(objects_view(args@) =~= before.push(v@));
            }
            i += 1;
        }
        proof {
            reveal_with_fuel(ev_args, 1);
            reveal_with_fuel(ev_or, 1);
            assert(s.skip(i as int).len() == 0);
        }
        if sc.counting {
            let low = str_to_lowercase(ident.value.as_str());
            proof {
                reveal_strlit("count");
            }
            if same_str(low.as_str(), "count") {
                proof {
                    assert(sc@.taken =~= rows_view(sc.taken@));
                }
                return Some(call_count(&sc.taken_idents, &sc.taken, &args));
            }
        }
        let q = Question::Call(ident.value.clone(), args, copy_row(&sc.taken_idents), copy_rows(&sc.taken));
        proof {
            assert(objects_of(args@) =~= objects_view(args@));
        }
        return Some(match find_answer(sc.answers, &q) {
            Some(r) => r,
            None => Err(asks(q)),
        });
    }
    match &n.or_expr {
        Some(o) => exec_or_expr(sc, vars, &**o),
        None => Some(Err(make_error(ErrorKind::Exec, "invalid state: func expr"))),
    }
}

/// Evaluates `a OR b OR ...`.
#[verifier::spinoff_prover]
#[verifier::rlimit(50)]
pub fn exec_or_expr(sc: &RecordScope, vars: &mut Vars, n: &OrExprNode) -> (r: Option<Result<Object, Error>>)
    requires
        scope_ok(sc@),
    ensures
        agrees(r, ev_or(sc@, old(vars)@, *n), final(vars)@),
    decreases *n,
{
    proof {
        reveal_with_fuel(ev_or, 1);
        reveal_with_fuel(ev_or_rest, 1);
        reveal_with_fuel(ev_and, 1);
    }
    if n.nodes.len() == 0 {
        return Some(Err(make_error(ErrorKind::Exec, "impossible")));
    }
    let a = match exec_and_expr(sc, vars, &*n.nodes[0]) {
        Some(Ok(a)) => a,
        other => return other,
    };
    if a.kind == ObjectKind::Bool && a.bool_value {
        return Some(Ok(a));
    }
    let ghost s = n.nodes@;
    let ghost target = ev_or(sc@, old(vars)@, *n);
    let mut acc = a;
    let mut i: usize = 1;
    proof {
        assert(s.drop_first() =~= s.skip(1));
    }
    while i < n.nodes.len()
        invariant
            scope_ok(sc@),
            s == n.nodes@,
            target == ev_or(sc@, old(vars)@, *n),
            1 <= i <= s.len(),
            target == ev_or_rest(sc@, vars@, s.skip(i as int), acc@),
        decreases s.len() - i,
    {
        proof {
            reveal_with_fuel(ev_or_rest, 1);
            reveal_with_fuel(ev_and, 1);
            assert(s.skip(i as int).drop_first() =~= s.skip(i + 1));
            assert(s.skip(i as int)[0] == s[i as int]);
        }
        let b = match exec_and_expr(sc, vars, &*n.nodes[i]) {
            Some(Ok(b)) => b,
            other => return other,
        };
        let c = match or_objects(sc, &acc, &b) {
            Ok(c) => c,
            Err(e) => return Some(Err(e)),
        };
        if c.kind == ObjectKind::Bool && c.bool_value {
            return Some(Ok(c));
        }
        acc = c;
        i += 1;
    }
    proof {
        reveal_with_fuel(ev_or_rest, 1);
        assert(s.skip(i as int).len() == 0);
    }
    Some(Ok(acc))
}

/// Evaluates `a AND b AND ...`.
#[verifier::spinoff_prover]
#[verifier::rlimit(30)]
pub fn exec_and_expr(sc: &RecordScope, vars: &mut Vars, n: &AndExprNode) -> (r: Option<Result<Object, Error>>)
    requires
        scope_ok(sc@),
    ensures
        agrees(r, ev_and(sc@, old(vars)@, *n), final(vars)@),
    decreases *n,
{
    proof {
        reveal_with_fuel(ev_and, 1);
        reveal_with_fuel(ev_and_rest, 1);
        reveal_with_fuel(ev_compare, 1);
    }
    if n.nodes.len() == 0 {
        return Some(Err(make_error(ErrorKind::Exec, "impossible")));
    }
    let a = match exec_compare_expr(sc, vars, &*n.nodes[0]) {
        Some(Ok(a)) => a,
        other => return other,
    };
    let ghost s = n.nodes@;
    let ghost target = ev_and(sc@, old(vars)@, *n);
    let mut acc = a;
    let mut i: usize = 1;
    proof {
        assert(s.drop_first() =~= s.skip(1));
    }
    while i < n.nodes.len()
        invariant
            scope_ok(sc@),
            s == n.nodes@,
            target == ev_and(sc@, old(vars)@, *n),
            1 <= i <= s.len(),
            target == ev_and_rest(sc@, vars@, s.skip(i as int), acc@),
        decreases s.len() - i,
    {
        proof {
            reveal_with_fuel(ev_and_rest, 1);
            reveal_with_fuel(ev_compare, 1);
            assert(s.skip(i as int).drop_first() =~= s.skip(i + 1));
            assert(s.skip(i as int)[0] == s[i as int]);
        }
        let b = match exec_compare_expr(sc, vars, &*n.nodes[i]) {
            Some(Ok(b)) => b,
            other => return other,
        };
        acc = match and_objects(sc, &acc, &b) {
            Ok(c) => c,
            Err(e) => return Some(Err(e)),
        };
        i += 1;
    }
    proof {
        reveal_with_fuel(ev_and_rest, 1);
        assert(s.skip(i as int).len() == 0);
    }
    Some(Ok(acc))
}

/// The value of an operation, taking in the host's answer where it is one
/// on fractions; an error where the answer failed or none was given.
fn finish(sc: &RecordScope, e: Evaluated) -> (r: Result<Object, Error>)
    ensures
        match answered(sc@, Ok(e@)) {
            Ok(c) => r is Ok && r->Ok_0@ == c,
            Err(o) => agrees(Some(r), o, Seq::empty()),
        },
{
    match e {
        Evaluated::Done(o) => Ok(o),
        Evaluated::InFloat(l, op, r) => {
            let q = Question::Float(l, op, r);
            match find_answer(sc.answers, &q) {
                Some(x) => x,
                None => Err(asks(q)),
            }
        },
    }
}

/// The value of an operation whose outcome is `spec`, taking in the host's
/// answer where it is one on fractions.
fn settle(sc: &RecordScope, e: Result<Evaluated, Error>, spec: Ghost<Result<EvaluatedV, ErrorKind>>) -> (r: Result<
    Object,
    Error,
>)
    requires
        match spec@ {
            Ok(v) => e is Ok && e->Ok_0@ == v,
            Err(k) => e is Err && e->Err_0@ == k,
        },
    ensures
        match answered(sc@, spec@) {
            Ok(c) => r is Ok && r->Ok_0@ == c,
            Err(o) => agrees(Some(r), o, Seq::empty()),
        },
{
    match e {
        Ok(e) => finish(sc, e),
        Err(e) => Err(e),
    }
}

/// Evaluates a chain of comparisons.
#[verifier::spinoff_prover]
#[verifier::rlimit(100)]
pub fn exec_compare_expr(sc: &RecordScope, vars: &mut Vars, n: &CompareExprNode) -> (r: Option<Result<Object, Error>>)
    requires
        scope_ok(sc@),
    ensures
        agrees(r, ev_compare(sc@, old(vars)@, *n), final(vars)@),
    decreases *n,
{
    proof {
        reveal_with_fuel(ev_compare, 1);
        reveal_with_fuel(ev_compare_rest, 1);
    }
    if n.nodes.len() == 0 {
        return Some(Err(make_error(ErrorKind::Exec, "impossible")));
    }
    let a = match &n.nodes[0] {
        CompareExprItemNode::Left(l) => match exec_add_sub_expr(sc, vars, &**l) {
            Some(Ok(a)) => a,
            other => return other,
        },
        _ => return Some(Err(make_error(ErrorKind::Exec, "impossible"))),
    };
    let ghost s = n.nodes@;
    let ghost target = ev_compare(sc@, old(vars)@, *n);
    let mut acc = a;
    let mut i: usize = 1;
    proof {
        assert(s.drop_first() =~= s.skip(1));
    }
    while i < n.nodes.len()
        invariant
            scope_ok(sc@),
            s == n.nodes@,
            target == ev_compare(sc@, old(vars)@, *n),
            1 <= i <= s.len(),
            target == ev_compare_rest(sc@, vars@, s.skip(i as int), acc@),
        decreases s.len() - i,
    {
        proof {
            reveal_with_fuel(ev_compare_rest, 1);
            assert(s.skip(i as int)[0] == s[i as int]);
        }
        if i + 1 >= n.nodes.len() {
            return Some(Err(make_error(ErrorKind::Exec, "impossible")));
        }
        proof {
            assert(s.skip(i as int)[1] == s[i + 1]);
            assert(s.skip(i as int).skip(2) =~= s.skip(i + 2));
        }
        let b = match &n.nodes[i + 1] {
            CompareExprItemNode::Right(r) => match exec_add_sub_expr(sc, vars, &**r) {
                Some(Ok(b)) => b,
                other => return other,
            },
            _ => return Some(Err(make_error(ErrorKind::Exec, "impossible"))),
        };
        let op = match &n.nodes[i] {
            CompareExprItemNode::Op(op) => op,
            _ => return Some(Err(make_error(ErrorKind::Exec, "impossible"))),
        };
        acc = match settle(sc, compare_objects(sc, &acc, op, &b), Ghost(compare_outcome(sc@, acc@, *op, b@))) {
            Ok(c) => c,
            Err(e) => return Some(Err(e)),
        };
        i += 2;
    }
    proof {
        reveal_with_fuel(ev_compare_rest, 1);
        assert(s.skip(i as int).len() == 0);
    }
    Some(Ok(acc))
}

/// Evaluates a chain of `+` and `-`; `None` where whole numbers overflow.
#[verifier::spinoff_prover]
pub fn exec_add_sub_expr(sc: &RecordScope, vars: &mut Vars, n: &AddSubExprNode) -> (r: Option<Result<Object, Error>>)
    requires
        scope_ok(sc@),
    ensures
        agrees(r, ev_addsub(sc@, old(vars)@, *n), final(vars)@),
    decreases *n,
{
    proof {
        reveal_with_fuel(ev_addsub, 1);
        reveal_with_fuel(ev_as_rest, 1);
        reveal_with_fuel(ev_muldiv, 1);
    }
    if n.nodes.len() == 0 {
        return Some(Err(make_error(ErrorKind::Exec, "impossible")));
    }
    let a = match &n.nodes[0] {
        AddSubExprItemNode::Left(l) => match exec_mul_div_expr(sc, vars, &**l) {
            Some(Ok(a)) => a,
            other => return other,
        },
        _ => return Some(Err(make_error(ErrorKind::Exec, "impossible"))),
    };
    let ghost s = n.nodes@;
    let ghost target = ev_addsub(sc@, old(vars)@, *n);
    let mut acc = a;
    let mut i: usize = 1;
    proof {
        assert(s.drop_first() =~= s.skip(1));
    }
    while i < n.nodes.len()
        invariant
            scope_ok(sc@),
            s == n.nodes@,
            target == ev_addsub(sc@, old(vars)@, *n),
            1 <= i <= s.len(),
            target == ev_as_rest(sc@, vars@, s.skip(i as int), acc@),
        decreases s.len() - i,
    {
        proof {
            reveal_with_fuel(ev_as_rest, 1);
            reveal_with_fuel(ev_muldiv, 1);
            assert(s.skip(i as int)[0] == s[i as int]);
        }
        if i + 1 >= n.nodes.len() {
            return Some(Err(make_error(ErrorKind::Exec, "impossible")));
        }
        proof {
            assert(s.skip(i as int)[1] == s[i + 1]);
            assert(s.skip(i as int).skip(2) =~= s.skip(i + 2));
        }
        let b = match &n.nodes[i + 1] {
            AddSubExprItemNode::Right(r) => match exec_mul_div_expr(sc, vars, &**r) {
                Some(Ok(b)) => b,
                other => return other,
            },
            _ => return Some(Err(make_error(ErrorKind::Exec, "impossible"))),
        };
        let op = match &n.nodes[i] {
            AddSubExprItemNode::Op(op) => op,
            _ => return Some(Err(make_error(ErrorKind::Exec, "impossible"))),
        };
        let e = match try_add_sub_objects(sc, &acc, op, &b) {
            None => return None,
            Some(e) => e,
        };
        acc = match settle(sc, e, Ghost(add_sub_outcome(sc@, acc@, *op, b@))) {
            Ok(c) => c,
            Err(e) => return Some(Err(e)),
        };
        i += 2;
    }
    proof {
        reveal_with_fuel(ev_as_rest, 1);
        assert(s.skip(i as int).len() == 0);
    }
    Some(Ok(acc))
}

/// Evaluates a chain of `*`, `/` and `%`; `None` where whole numbers
/// overflow.
#[verifier::spinoff_prover]
pub fn exec_mul_div_expr(sc: &RecordScope, vars: &mut Vars, n: &MulDivExprNode) -> (r: Option<Result<Object, Error>>)
    requires
        scope_ok(sc@),
    ensures
        agrees(r, ev_muldiv(sc@, old(vars)@, *n), final(vars)@),
    decreases *n,
{
    proof {
        reveal_with_fuel(ev_muldiv, 1);
        reveal_with_fuel(ev_md_rest, 1);
        reveal_with_fuel(ev_operand, 1);
    }
    if n.nodes.len() == 0 {
        return Some(Err(make_error(ErrorKind::Exec, "impossible")));
    }
    let a = match &n.nodes[0] {
        MulDivExprItemNode::Left(l) => match exec_operand(sc, vars, &**l) {
            Some(Ok(a)) => a,
            other => return other,
        },
        _ => return Some(Err(make_error(ErrorKind::Exec, "impossible"))),
    };
    let ghost s = n.nodes@;
    let ghost target = ev_muldiv(sc@, old(vars)@, *n);
    let mut acc = a;
    let mut i: usize = 1;
    proof {
        assert(s.drop_first() =~= s.skip(1));
    }
    while i < n.nodes.len()
        invariant
            scope_ok(sc@),
            s == n.nodes@,
            target == ev_muldiv(sc@, old(vars)@, *n),
            1 <= i <= s.len(),
            target == ev_md_rest(sc@, vars@, s.skip(i as int), acc@),
        decreases s.len() - i,
    {
        proof {
            reveal_with_fuel(ev_md_rest, 1);
            reveal_with_fuel(ev_operand, 1);
            assert(s.skip(i as int)[0] == s[i as int]);
        }
        if i + 1 >= n.nodes.len() {
            return Some(Err(make_error(ErrorKind::Exec, "impossible")));
        }
        proof {
            assert(s.skip(i as int)[1] == s[i + 1]);
            assert(s.skip(i as int).skip(2) =~= s.skip(i + 2));
        }
        let b = match &n.nodes[i + 1] {
            MulDivExprItemNode::Right(r) => match exec_operand(sc, vars, &**r) {
                Some(Ok(b)) => b,
                other => return other,
            },
            _ => return Some(Err(make_error(ErrorKind::Exec, "impossible"))),
        };
        let op = match &n.nodes[i] {
            MulDivExprItemNode::Op(op) => op,
            _ => return Some(Err(make_error(ErrorKind::Exec, "impossible"))),
        };
        let e = match try_mul_div_objects(sc, &acc, op, &b) {
            None => return None,
            Some(e) => e,
        };
        acc = match settle(sc, e, Ghost(mul_div_outcome(sc@, acc@, *op, b@))) {
            Ok(c) => c,
            Err(e) => return Some(Err(e)),
        };
        i += 2;
    }
    proof {
        reveal_with_fuel(ev_md_rest, 1);
        assert(s.skip(i as int).len() == 0);
    }
    Some(Ok(acc))
}

/// The value of an integer literal.
pub fn exec_i64_value(node: &I64ValueNode) -> (r: Result<Object, Error>)
    ensures
        r matches Ok(o) && o@ == (ObjectV { kind: ObjectKind::Int, int_value: node.value as i128, ..nil_object() }),
{
    Ok(Object::from_int(node.value as i128))
}

/// The value of a float literal, kept as its text.
pub fn exec_f64_value(node: &F64ValueNode) -> (r: Result<Object, Error>)
    ensures
        r matches Ok(o) && o@ == (ObjectV { kind: ObjectKind::Float, float_text: node.text@, ..nil_object() }),
{
    Ok(Object::from_float_text(node.text.clone()))
}

/// The value of `true` or `false`.
pub fn exec_bool_value(node: &BoolValueNode) -> (r: Result<Object, Error>)
    ensures
        r matches Ok(o) && o@ == (ObjectV { kind: ObjectKind::Bool, bool_value: node.value, ..nil_object() }),
{
    Ok(Object::from_bool(node.value))
}

/// The value of a string literal.
pub fn exec_string(node: &StringNode) -> (r: Result<Object, Error>)
    ensures
        r matches Ok(o) && o@ == (ObjectV { kind: ObjectKind::String, string: node.value@, ..nil_object() }),
{
    Ok(Object::from_string(node.value.clone()))
}

/// A name, as a value that stands for it.
pub fn exec_ident(node: &IdentNode) -> (r: Result<Object, Error>)
    ensures
        r matches Ok(o) && o@ == (ObjectV { kind: ObjectKind::Ident, ident: node.value@, ..nil_object() }),
{
    Ok(Object::from_ident(node.value.as_str()))
}

/// Evaluates a literal, a name, `*` or an expression in brackets.
#[verifier::spinoff_prover]
pub fn exec_operand(sc: &RecordScope, vars: &mut Vars, n: &OperandNode) -> (r: Option<Result<Object, Error>>)
    requires
        scope_ok(sc@),
    ensures
        agrees(r, ev_operand(sc@, old(vars)@, *n), final(vars)@),
    decreases *n,
{
    proof {
        reveal_with_fuel(ev_operand, 1);
        reveal_with_fuel(ev_expr, 1);
    }
    if let Some(v) = &n.i64_value {
        Some(exec_i64_value(&**v))
    } else if let Some(v) = &n.f64_value {
        Some(exec_f64_value(&**v))
    } else if let Some(v) = &n.bool_value {
        Some(exec_bool_value(&**v))
    } else if let Some(v) = &n.string {
        Some(exec_string(&**v))
    } else if let Some(v) = &n.ident {
        Some(exec_ident(&**v))
    } else if let Some(e) = &n.expr {
        exec_expr(sc, vars, &**e)
    } else if n.star {
        Some(Ok(Object::from_star()))
    } else {
        Some(Err(make_error(ErrorKind::Exec, "invalid state of operand in exec")))
    }
}

/// What evaluating a list of expressions gives: the values, in order, and
/// the names assigned after them; or the first outcome that is no value.
pub enum OutList {
    Vals(Seq<ObjectV>, Seq<(Seq<char>, ObjectV)>),
    Fail(ErrorKind),
    Overflow,
    Asks(QuestionV),
}

/// The rest of a list evaluated after the values `acc`.
pub open spec fn ev_list_from(
    sc: RecordScopeV,
    vs: Seq<(Seq<char>, ObjectV)>,
    s: Seq<Box<ExprNode>>,
    acc: Seq<ObjectV>,
) -> OutList
    decreases s.len(),
{
    if s.len() == 0 {
        OutList::Vals(acc, vs)
    } else {
        match ev_expr(sc, vs, *s[0]) {
            Out::Val(v, vs1) => ev_list_from(sc, vs1, s.drop_first(), acc.push(v)),
            Out::Fail(k) => OutList::Fail(k),
            Out::Overflow => OutList::Overflow,
            Out::Asks(q) => OutList::Asks(q),
        }
    }
}

pub open spec fn objects_view(v: Seq<Object>) -> Seq<ObjectV> {
    v.map_values(|o: Object| o@)
}

pub open spec fn agrees_list(r: Option<Result<Vec<Object>, Error>>, o: OutList, vs: Seq<(Seq<char>, ObjectV)>) -> bool {
    match o {
        OutList::Vals(v, vs2) => r matches Some(Ok(x)) && objects_view(x@) == v && vs == vs2,
        OutList::Fail(k) => r matches Some(Err(e)) && e@ == k,
        OutList::Overflow => r is None,
        OutList::Asks(q) => r matches Some(Err(e)) && e@ == ErrorKind::Unanswered && e.asked() == Some(q),
    }
}

/// Evaluates the expressions of a list in order.
pub fn exec_expr_list(sc: &RecordScope, vars: &mut Vars, node: &ExprListNode) -> (r: Option<
    Result<Vec<Object>, Error>,
>)
    requires
        scope_ok(sc@),
    ensures
        agrees_list(r, ev_list_from(sc@, old(vars)@, node.exprs@, Seq::empty()), final(vars)@),
        r matches Some(Ok(v)) ==> v@.len() == node.exprs@.len(),
{
    let ghost s = node.exprs@;
    let ghost target = ev_list_from(sc@, old(vars)@, s, Seq::empty());
    let mut objs: Vec<Object> = Vec::new();
    let mut i: usize = 0;
    proof {
        assert(s.skip(0) =~= s);
        assert(objects_view(objs@) =~= Seq::<ObjectV>::empty());
    }
    while i < node.exprs.len()
        invariant
            scope_ok(sc@),
            s == node.exprs@,
            target == ev_list_from(sc@, old(vars)@, s, Seq::empty()),
            i <= s.len(),
            objs@.len() == i,
            target == ev_list_from(sc@, vars@, s.skip(i as int), objects_view(objs@)),
        decreases s.len() - i,
    {
        proof {
            assert(s.skip(i as int).drop_first() =~= s.skip(i + 1));
            assert(s.skip(i as int)[0] == s[i as int]);
        }
        let ghost before = objects_view(objs@);
        let v = match exec_expr(sc, vars, &*node.exprs[i]) {
            Some(Ok(v)) => v,
            Some(Err(e)) => return Some(Err(e)),
            None => return None,
        };
        objs.push(v);
        proof {
            assert(objects_view(objs@) =~= before.push(objs@[i as int]@));
        }
        i += 1;
    }
    proof {
        assert(s.skip(i as int).len() == 0);
    }
    Some(Ok(objs))
}

/// Evaluates the condition of a where clause.
pub fn exec_where_clause(sc: &RecordScope, vars: &mut Vars, node: &WhereClauseNode) -> (r: Option<
    Result<Object, Error>,
>)
    requires
        scope_ok(sc@),
    ensures
        match node.expr {
            Some(e) => agrees(r, ev_expr(sc@, old(vars)@, *e), final(vars)@),
            None => r matches Some(Err(e)) && e@ == ErrorKind::Exec,
        },
{
    match &node.expr {
        Some(e) => exec_expr(sc, vars, &**e),
        None => Some(Err(make_error(ErrorKind::Exec, "impossible"))),
    }
}

/// The scope of an expression that reads no record.
pub open spec fn empty_scope_view(ans: AnswersV) -> RecordScopeV {
    RecordScopeV {
        headers: Seq::empty(),
        header_idents: Seq::empty(),
        record: Seq::empty(),
        counting: false,
        taken_idents: Seq::empty(),
        taken: Seq::empty(),
        answers: ans,
    }
}

/// What evaluating a limit gives: a whole number (and the names assigned
/// after it), an error, an overflow, or a question of the host.
pub enum OutLimit {
    Val(i128, Seq<(Seq<char>, ObjectV)>),
    Fail(ErrorKind),
    Overflow,
    Asks(QuestionV),
}

pub open spec fn ev_limit(ans: AnswersV, vs: Seq<(Seq<char>, ObjectV)>, n: LimitNode) -> OutLimit {
    match n.expr {
        None => OutLimit::Fail(ErrorKind::Exec),
        Some(e) => match ev_expr(empty_scope_view(ans), vs, *e) {
            Out::Val(v, vs1) => if v.kind == ObjectKind::Int {
                OutLimit::Val(v.int_value, vs1)
            } else {
                OutLimit::Fail(ErrorKind::Exec)
            },
            Out::Fail(k) => OutLimit::Fail(k),
            Out::Overflow => OutLimit::Overflow,
            Out::Asks(q) => OutLimit::Asks(q),
        },
    }
}

pub open spec fn agrees_limit(r: Option<Result<Option<i128>, Error>>, o: OutLimit, vs: Seq<(Seq<char>, ObjectV)>) -> bool {
    match o {
        OutLimit::Val(l, vs2) => r == Some(Ok::<Option<i128>, Error>(Some(l))) && vs == vs2,
        OutLimit::Fail(k) => r matches Some(Err(e)) && e@ == k,
        OutLimit::Overflow => r is None,
        OutLimit::Asks(q) => r matches Some(Err(e)) && e@ == ErrorKind::Unanswered && e.asked() == Some(q),
    }
}

/// What the expression of a limit gives; a limit without one is an error.
pub open spec fn ev_limit_expr(ans: AnswersV, vs: Seq<(Seq<char>, ObjectV)>, n: LimitNode) -> Out {
    match n.expr {
        None => Out::Fail(ErrorKind::Exec),
        Some(e) => ev_expr(empty_scope_view(ans), vs, *e),
    }
}

/// Evaluates the expression of a limit.
pub fn exec_limit(answers: &Answers, vars: &mut Vars, node: &LimitNode) -> (r: Option<Result<Object, Error>>)
    ensures
        agrees(r, ev_limit_expr(answers@, old(vars)@, *node), final(vars)@),
{
    let sc = RecordScope {
        headers: Vec::new(),
        header_idents: Vec::new(),
        record: Vec::new(),
        counting: false,
        taken_idents: Vec::new(),
        taken: Vec::new(),
        answers,
    };
    proof {
        assert(sc@.headers =~= Seq::<Seq<char>>::empty());
        assert(sc@.header_idents =~= Seq::<Seq<char>>::empty());
        assert(sc@.record =~= Seq::<Seq<char>>::empty());
        assert(sc@.taken_idents =~= Seq::<Seq<char>>::empty());
        assert(sc@.taken =~= Seq::<Seq<Seq<char>>>::empty());
    }
    match &node.expr {
        Some(e) => exec_expr(&sc, vars, &**e),
        None => Some(Err(make_error(ErrorKind::Exec, "invalid state: limit"))),
    }
}

/// The value of a limit: a whole number; any other value is an error.
pub fn gen_limit_value(answers: &Answers, vars: &mut Vars, node: &LimitNode) -> (r: Option<Result<Option<i128>, Error>>)
    ensures
        agrees_limit(r, ev_limit(answers@, old(vars)@, *node), final(vars)@),
{
    let o = match exec_limit(answers, vars, node) {
        Some(Ok(o)) => o,
        Some(Err(x)) => return Some(Err(x)),
        None => return None,
    };
    if o.kind == ObjectKind::Int {
        Some(Ok(Some(o.int_value)))
    } else {
        Some(Err(make_error(ErrorKind::Exec, "invalid limit expression")))
    }
}

} // verus!
