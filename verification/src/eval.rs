//! The operations on values that are applied while evaluating an
//! expression against the record being read: comparison, arithmetic and the
//! logical connectives, with names looked up in the record.
//!
//! Where a decimal fraction takes part, the operation is carried out in
//! floating point, which this library leaves to its caller: the outcome then
//! names the operation and its two operands.
use vstd::prelude::*;
use crate::error::{Error, ErrorKind, make_error};
use crate::host::{Answers, AnswersV, QuestionV};
use crate::literals::{float_text_ok, is_float_text, parse_bool, parse_i128, parsed_bool, parsed_i128};
use crate::objects::{Object, ObjectKind, ObjectV, nil_object};
use crate::parser::{AddSubOpNode, CompareOpNode, MulDivOpNode};
use crate::plan_model::spec_to_lowercase;
use crate::planner::str_to_lowercase;
use crate::text::chars_of;

verus! {

/// An operation to be carried out in floating point.
#[derive(Clone, Copy, Debug, PartialEq, Eq, Structural)]
pub enum FloatOp {
    Lt,
    LtEq,
    Gt,
    GtEq,
    Eq,
    NotEq,
    Add,
    Sub,
    Mul,
    Div,
    Mod,
}

/// The outcome of an operation: its value, or the floating-point operation
/// that gives it.
#[derive(Debug)]
pub enum Evaluated {
    Done(Object),
    InFloat(Object, FloatOp, Object),
}

pub enum EvaluatedV {
    Done(ObjectV),
    InFloat(ObjectV, FloatOp, ObjectV),
}

impl View for Evaluated {
    type V = EvaluatedV;

    open spec fn view(&self) -> EvaluatedV {
        match self {
            Evaluated::Done(o) => EvaluatedV::Done(o@),
            Evaluated::InFloat(l, op, r) => EvaluatedV::InFloat(l@, *op, r@),
        }
    }
}

/// The record being read: the header of each column as the table file
/// writes it (`id: INT`), the column names, and the cells; for the functions
/// of a get statement, whether `COUNT` is counted here, and the rows that
/// the statement has taken with their column names.
#[derive(Debug)]
pub struct RecordScope<'a> {
    pub headers: Vec<String>,
    pub header_idents: Vec<String>,
    pub record: Vec<String>,
    pub counting: bool,
    pub taken_idents: Vec<String>,
    pub taken: Vec<Vec<String>>,
    pub answers: &'a Answers,
}

pub struct RecordScopeV {
    pub headers: Seq<Seq<char>>,
    pub header_idents: Seq<Seq<char>>,
    pub record: Seq<Seq<char>>,
    pub counting: bool,
    pub taken_idents: Seq<Seq<char>>,
    pub taken: Seq<Seq<Seq<char>>>,
    pub answers: AnswersV,
}

pub open spec fn strings_view(v: Seq<String>) -> Seq<Seq<char>> {
    v.map_values(|s: String| s@)
}

impl<'a> View for RecordScope<'a> {
    type V = RecordScopeV;

    open spec fn view(&self) -> RecordScopeV {
        RecordScopeV {
            headers: strings_view(self.headers@),
            header_idents: strings_view(self.header_idents@),
            record: strings_view(self.record@),
            counting: self.counting,
            taken_idents: strings_view(self.taken_idents@),
            taken: self.taken@.map_values(|r: Vec<String>| strings_view(r@)),
            answers: self.answers@,
        }
    }
}

impl<'a> RecordScope<'a> {
    /// The scope of one record, outside the functions of a get statement,
    /// with the host's answers given so far.
    pub fn of_record(headers: Vec<String>, header_idents: Vec<String>, record: Vec<String>, answers: &'a Answers) -> (sc: Self)
        ensures
            sc.headers == headers,
            sc.header_idents == header_idents,
            sc.record == record,
            !sc.counting,
            sc.taken_idents@.len() == 0,
            sc.taken@.len() == 0,
            sc.answers == answers,
    {
        RecordScope {
            headers,
            header_idents,
            record,
            counting: false,
            taken_idents: Vec::new(),
            taken: Vec::new(),
            answers,
        }
    }
}

/// Each named column has a header and a cell.
pub open spec fn scope_ok(sc: RecordScopeV) -> bool {
    sc.header_idents.len() <= sc.headers.len() && sc.header_idents.len() <= sc.record.len()
}

/// Whether `w` occurs in `s`.
pub open spec fn has_sub(s: Seq<char>, w: Seq<char>) -> bool {
    exists|k: int| 0 <= k && k + w.len() <= s.len() && #[trigger] s.subrange(k, k + w.len()) == w
}

/// The value of a cell, read by the type that its column's header names.
pub open spec fn column_value(head: Seq<char>, col: Seq<char>) -> Result<ObjectV, ErrorKind> {
    let h = spec_to_lowercase(head);
    if has_sub(h, seq!['i', 'n', 't']) {
        match parsed_i128(col) {
            Some(n) => Ok(ObjectV { kind: ObjectKind::Int, int_value: n, ..nil_object() }),
            None => Err(ErrorKind::Exec),
        }
    } else if has_sub(h, seq!['f', 'l', 'o', 'a', 't']) {
        if float_text_ok(col) {
            Ok(ObjectV { kind: ObjectKind::Float, float_text: col, ..nil_object() })
        } else {
            Err(ErrorKind::Exec)
        }
    } else if has_sub(h, seq!['b', 'o', 'o', 'l']) {
        match parsed_bool(col) {
            Some(b) => Ok(ObjectV { kind: ObjectKind::Bool, bool_value: b, ..nil_object() }),
            None => Err(ErrorKind::Exec),
        }
    } else {
        Ok(ObjectV { kind: ObjectKind::String, string: col, ..nil_object() })
    }
}

/// The first position of `x` in `s`.
pub open spec fn first_index(s: Seq<Seq<char>>, x: Seq<char>) -> Option<int> {
    if exists|k: int| 0 <= k < s.len() && s[k] == x {
        Some(choose|k: int| 0 <= k < s.len() && s[k] == x && forall|j: int| 0 <= j < k ==> s[j] != x)
    } else {
        None
    }
}

/// The value that a name stands for in the record.
pub open spec fn resolved(sc: RecordScopeV, o: ObjectV) -> Result<ObjectV, ErrorKind> {
    match first_index(sc.header_idents, o.ident) {
        Some(k) => column_value(sc.headers[k], sc.record[k]),
        None => Err(ErrorKind::Exec),
    }
}

pub open spec fn is_number(o: ObjectV) -> bool {
    o.kind == ObjectKind::Int || o.kind == ObjectKind::Float
}

pub open spec fn bool_value(b: bool) -> ObjectV {
    ObjectV { kind: ObjectKind::Bool, bool_value: b, ..nil_object() }
}

pub open spec fn int_value(n: i128) -> ObjectV {
    ObjectV { kind: ObjectKind::Int, int_value: n, ..nil_object() }
}

pub open spec fn compare_float_op(op: CompareOpNode) -> FloatOp {
    match op {
        CompareOpNode::Lt => FloatOp::Lt,
        CompareOpNode::LtEq => FloatOp::LtEq,
        CompareOpNode::Gt => FloatOp::Gt,
        CompareOpNode::GtEq => FloatOp::GtEq,
        CompareOpNode::Eq => FloatOp::Eq,
        CompareOpNode::NotEq => FloatOp::NotEq,
    }
}

pub open spec fn is_equality(op: CompareOpNode) -> bool {
    op == CompareOpNode::Eq || op == CompareOpNode::NotEq
}

pub open spec fn compare_ints(a: i128, op: CompareOpNode, b: i128) -> bool {
    match op {
        CompareOpNode::Lt => a < b,
        CompareOpNode::LtEq => a <= b,
        CompareOpNode::Gt => a > b,
        CompareOpNode::GtEq => a >= b,
        CompareOpNode::Eq => a == b,
        CompareOpNode::NotEq => a != b,
    }
}

/// A comparison of two values that are not names.
pub open spec fn compare_plain(l: ObjectV, op: CompareOpNode, r: ObjectV) -> Result<EvaluatedV, ErrorKind> {
    if l.kind == ObjectKind::Int && r.kind == ObjectKind::Int {
        Ok(EvaluatedV::Done(bool_value(compare_ints(l.int_value, op, r.int_value))))
    } else if is_number(l) && is_number(r) {
        Ok(EvaluatedV::InFloat(l, compare_float_op(op), r))
    } else if is_equality(op) && l.kind == ObjectKind::String && r.kind == ObjectKind::String {
        Ok(EvaluatedV::Done(bool_value((l.string == r.string) == (op == CompareOpNode::Eq))))
    } else if is_equality(op) && l.kind == ObjectKind::Bool && r.kind == ObjectKind::Bool {
        Ok(EvaluatedV::Done(bool_value((l.bool_value == r.bool_value) == (op == CompareOpNode::Eq))))
    } else {
        Err(ErrorKind::Exec)
    }
}

/// The kinds of value that a name may be compared with, the name being
/// looked up first.
pub open spec fn comparable_with_name(op: CompareOpNode, k: ObjectKind) -> bool {
    ||| k == ObjectKind::Int
    ||| k == ObjectKind::Float
    ||| k == ObjectKind::String
    ||| k == ObjectKind::Ident
    ||| is_equality(op) && k == ObjectKind::Bool
}

/// The kinds of value that may be compared with a name on their right.
pub open spec fn compares_to_name(op: CompareOpNode, k: ObjectKind) -> bool {
    ||| k == ObjectKind::Int
    ||| k == ObjectKind::Float
    ||| is_equality(op) && (k == ObjectKind::String || k == ObjectKind::Bool)
}

/// `l op r`: names are looked up in the record where they meet a value they
/// may be compared with; a name on the left is looked up first.
#[verifier::opaque]
pub open spec fn compare_outcome(sc: RecordScopeV, l: ObjectV, op: CompareOpNode, r: ObjectV) -> Result<
    EvaluatedV,
    ErrorKind,
> {
    if l.kind == ObjectKind::Ident && comparable_with_name(op, r.kind) {
        match resolved(sc, l) {
            Err(k) => Err(k),
            Ok(lo) => if r.kind == ObjectKind::Ident {
                match resolved(sc, r) {
                    Err(k) => Err(k),
                    Ok(ro) => compare_plain(lo, op, ro),
                }
            } else {
                compare_plain(lo, op, r)
            },
        }
    } else if r.kind == ObjectKind::Ident && compares_to_name(op, l.kind) {
        match resolved(sc, r) {
            Err(k) => Err(k),
            Ok(ro) => compare_plain(l, op, ro),
        }
    } else {
        compare_plain(l, op, r)
    }
}

/// The left operand of an arithmetic operation, looked up where it is a name
/// and the right operand is a value.
pub open spec fn arith_left(sc: RecordScopeV, l: ObjectV, r: ObjectV) -> Result<ObjectV, ErrorKind> {
    if l.kind == ObjectKind::Ident && (is_number(r) || r.kind == ObjectKind::String) {
        resolved(sc, l)
    } else {
        Ok(l)
    }
}

pub open spec fn add_sub_float_op(op: AddSubOpNode) -> FloatOp {
    match op {
        AddSubOpNode::Add => FloatOp::Add,
        AddSubOpNode::Sub => FloatOp::Sub,
    }
}

/// The whole-number result of `a op b`, before it is known to fit.
pub open spec fn add_sub_ints(a: i128, op: AddSubOpNode, b: i128) -> int {
    match op {
        AddSubOpNode::Add => a + b,
        AddSubOpNode::Sub => a - b,
    }
}

/// `l op r` for values that are not names.
pub open spec fn add_sub_plain(l: ObjectV, op: AddSubOpNode, r: ObjectV) -> Result<EvaluatedV, ErrorKind> {
    if l.kind == ObjectKind::Int && r.kind == ObjectKind::Int {
        Ok(EvaluatedV::Done(int_value(add_sub_ints(l.int_value, op, r.int_value) as i128)))
    } else if is_number(l) && is_number(r) {
        Ok(EvaluatedV::InFloat(l, add_sub_float_op(op), r))
    } else if op == AddSubOpNode::Add && l.kind == ObjectKind::String && r.kind == ObjectKind::String {
        Ok(EvaluatedV::Done(ObjectV { kind: ObjectKind::String, string: l.string + r.string, ..nil_object() }))
    } else {
        Err(ErrorKind::Exec)
    }
}

#[verifier::opaque]
pub open spec fn add_sub_outcome(sc: RecordScopeV, l: ObjectV, op: AddSubOpNode, r: ObjectV) -> Result<
    EvaluatedV,
    ErrorKind,
> {
    match arith_left(sc, l, r) {
        Err(k) => Err(k),
        Ok(lo) => add_sub_plain(lo, op, r),
    }
}

/// Whole-number arithmetic does not leave the range of `i128`.
pub open spec fn add_sub_fits(sc: RecordScopeV, l: ObjectV, op: AddSubOpNode, r: ObjectV) -> bool {
    match arith_left(sc, l, r) {
        Ok(lo) => lo.kind == ObjectKind::Int && r.kind == ObjectKind::Int ==> i128::MIN <= add_sub_ints(
            lo.int_value,
            op,
            r.int_value,
        ) <= i128::MAX,
        Err(_) => true,
    }
}

pub open spec fn abs(x: int) -> int {
    if x < 0 {
        -x
    } else {
        x
    }
}

/// Division that rounds toward zero, as Rust's `/` on integers does.
pub open spec fn trunc_div(a: int, b: int) -> int {
    if (a < 0) == (b < 0) {
        abs(a) / abs(b)
    } else {
        -(abs(a) / abs(b))
    }
}

/// The remainder that goes with `trunc_div`, as Rust's `%` gives it.
pub open spec fn trunc_rem(a: int, b: int) -> int {
    a - b * trunc_div(a, b)
}

pub open spec fn mul_div_float_op(op: MulDivOpNode) -> FloatOp {
    match op {
        MulDivOpNode::Mul => FloatOp::Mul,
        MulDivOpNode::Div => FloatOp::Div,
        MulDivOpNode::Mod => FloatOp::Mod,
    }
}

pub open spec fn mul_div_ints(a: i128, op: MulDivOpNode, b: i128) -> int {
    match op {
        MulDivOpNode::Mul => a * b,
        MulDivOpNode::Div => trunc_div(a as int, b as int),
        MulDivOpNode::Mod => trunc_rem(a as int, b as int),
    }
}

/// Whether the digits of a number's text, up to its exponent, are all
/// zeros (at least one), after the zeros `seen` so far.
pub open spec fn zero_mantissa(m: Seq<char>, seen: bool) -> bool
    decreases m.len(),
{
    if m.len() == 0 {
        seen
    } else if m[0] == 'e' || m[0] == 'E' {
        seen
    } else if m[0] == '0' {
        zero_mantissa(m.drop_first(), true)
    } else if m[0] == '.' {
        zero_mantissa(m.drop_first(), seen)
    } else {
        false
    }
}

/// Whether the text of a fraction stands for zero: an optional sign, then
/// only zeros and a point before any exponent.
pub open spec fn zero_float_text(s: Seq<char>) -> bool {
    if s.len() > 0 && (s[0] == '+' || s[0] == '-') {
        zero_mantissa(s.drop_first(), false)
    } else {
        zero_mantissa(s, false)
    }
}

/// Whether a number is zero: the whole number 0, or a fraction whose text
/// stands for zero.
pub open spec fn is_zero_number(o: ObjectV) -> bool {
    (o.kind == ObjectKind::Int && o.int_value == 0) || (o.kind == ObjectKind::Float && zero_float_text(o.float_text))
}

/// Whether the text of a fraction stands for zero.
pub fn is_zero_float_text(s: &str) -> (b: bool)
    ensures
        b == zero_float_text(s@),
{
    let cs = chars_of(s);
    let mut i: usize = 0;
    if cs.len() > 0 && (cs[0] == '+' || cs[0] == '-') {
        i = 1;
    }
    let ghost start = i as int;
    let mut seen = false;
    proof {
        assert(cs@.skip(start) =~= (if start == 1 { cs@.drop_first() } else { cs@ }));
    }
    while i < cs.len()
        invariant
            start <= i <= cs@.len(),
            zero_float_text(s@) == zero_mantissa(cs@.skip(i as int), seen),
            cs@ == s@,
        decreases cs@.len() - i,
    {
        proof {
            assert(cs@.skip(i as int)[0] == cs@[i as int]);
            assert(cs@.skip(i as int).drop_first() =~= cs@.skip(i + 1));
        }
        let c = cs[i];
        if c == 'e' || c == 'E' {
            return seen;
        } else if c == '0' {
            seen = true;
        } else if c != '.' {
            return false;
        }
        i += 1;
    }
    proof {
        assert(cs@.skip(i as int).len() == 0);
    }
    seen
}

fn is_zero_number_exec(o: &Object) -> (b: bool)
    ensures
        b == is_zero_number(o@),
{
    match o.kind {
        ObjectKind::Int => o.int_value == 0,
        ObjectKind::Float => is_zero_float_text(o.float_text.as_str()),
        _ => false,
    }
}

/// `l op r` for values that are not names; dividing by a zero number, a
/// whole one or a fraction, is an error.
pub open spec fn mul_div_plain(l: ObjectV, op: MulDivOpNode, r: ObjectV) -> Result<EvaluatedV, ErrorKind> {
    if l.kind == ObjectKind::Int && r.kind == ObjectKind::Int {
        if op != MulDivOpNode::Mul && r.int_value == 0 {
            Err(ErrorKind::Exec)
        } else {
            Ok(EvaluatedV::Done(int_value(mul_div_ints(l.int_value, op, r.int_value) as i128)))
        }
    } else if is_number(l) && is_number(r) {
        if op != MulDivOpNode::Mul && is_zero_number(r) {
            Err(ErrorKind::Exec)
        } else {
            Ok(EvaluatedV::InFloat(l, mul_div_float_op(op), r))
        }
    } else {
        Err(ErrorKind::Exec)
    }
}

#[verifier::opaque]
pub open spec fn mul_div_outcome(sc: RecordScopeV, l: ObjectV, op: MulDivOpNode, r: ObjectV) -> Result<
    EvaluatedV,
    ErrorKind,
> {
    match arith_left(sc, l, r) {
        Err(k) => Err(k),
        Ok(lo) => mul_div_plain(lo, op, r),
    }
}

/// Whole-number arithmetic does not leave the range of `i128`; this also
/// leaves out `i128::MIN / -1`.
pub open spec fn mul_div_fits(sc: RecordScopeV, l: ObjectV, op: MulDivOpNode, r: ObjectV) -> bool {
    match arith_left(sc, l, r) {
        Ok(lo) => lo.kind == ObjectKind::Int && r.kind == ObjectKind::Int && (op == MulDivOpNode::Mul
            || r.int_value != 0) ==> i128::MIN <= mul_div_ints(lo.int_value, op, r.int_value) <= i128::MAX
            && !(op == MulDivOpNode::Mod && lo.int_value == i128::MIN && r.int_value == -1),
        Err(_) => true,
    }
}

/// The truth values that `or` and `and` combine, names looked up where they
/// meet a truth value or another name.
pub open spec fn logic_operands(sc: RecordScopeV, a: ObjectV, b: ObjectV) -> Result<(bool, bool), ErrorKind> {
    if a.kind == ObjectKind::Bool && b.kind == ObjectKind::Bool {
        Ok((a.bool_value, b.bool_value))
    } else if a.kind == ObjectKind::Bool && b.kind == ObjectKind::Ident {
        match resolved(sc, b) {
            Err(k) => Err(k),
            Ok(bo) => if bo.kind == ObjectKind::Bool {
                Ok((a.bool_value, bo.bool_value))
            } else {
                Err(ErrorKind::Exec)
            },
        }
    } else if a.kind == ObjectKind::Ident && (b.kind == ObjectKind::Bool || b.kind == ObjectKind::Ident) {
        match resolved(sc, a) {
            Err(k) => Err(k),
            Ok(ao) => if b.kind == ObjectKind::Ident {
                match resolved(sc, b) {
                    Err(k) => Err(k),
                    Ok(bo) => if ao.kind == ObjectKind::Bool && bo.kind == ObjectKind::Bool {
                        Ok((ao.bool_value, bo.bool_value))
                    } else {
                        Err(ErrorKind::Exec)
                    },
                }
            } else if ao.kind == ObjectKind::Bool {
                Ok((ao.bool_value, b.bool_value))
            } else {
                Err(ErrorKind::Exec)
            },
        }
    } else {
        Err(ErrorKind::Exec)
    }
}

fn is_equality_op(op: &CompareOpNode) -> (b: bool)
    ensures
        b == is_equality(*op),
{
    match op {
        CompareOpNode::Eq | CompareOpNode::NotEq => true,
        _ => false,
    }
}

fn is_number_kind(k: ObjectKind) -> (b: bool)
    ensures
        b == (k == ObjectKind::Int || k == ObjectKind::Float),
{
    k == ObjectKind::Int || k == ObjectKind::Float
}

/// Whether `w` occurs in `s`.
pub(crate) fn contains_chars(s: &Vec<char>, w: &Vec<char>) -> (b: bool)
    requires
        w@.len() > 0,
    ensures
        b == has_sub(s@, w@),
{
    if w.len() > s.len() {
        proof {
            assert forall|k: int| 0 <= k && k + w@.len() <= s@.len() implies #[trigger] s@.subrange(k, k + w@.len()) != w@ by {
            }
        }
        return false;
    }
    let last = s.len() - w.len();
    let mut k: usize = 0;
    while k <= last
        invariant
            last == s@.len() - w@.len(),
            w@.len() <= s@.len(),
            s@.len() <= usize::MAX,
            w@.len() > 0,
            k <= last + 1,
            forall|j: int| 0 <= j < k ==> #[trigger] s@.subrange(j, j + w@.len()) != w@,
        decreases last + 1 - k,
    {
        let mut m: usize = 0;
        let mut same = true;
        while m < w.len()
            invariant
                k <= last,
                last == s@.len() - w@.len(),
                w@.len() <= s@.len(),
                s@.len() <= usize::MAX,
                m <= w@.len(),
                same == (forall|j: int| 0 <= j < m ==> s@[k + j] == w@[j]),
            decreases w@.len() - m,
        {
            if s[k + m] != w[m] {
                same = false;
            }
            m += 1;
        }
        if same {
            proof {
                assert(s@.subrange(k as int, k + w@.len()) =~= w@);
            }
            return true;
        }
        proof {
            let j = choose|j: int| 0 <= j < w@.len() && s@[k + j] != w@[j];
            assert(s@.subrange(k as int, k + w@.len())[j] != w@[j]);
        }
        k += 1;
    }
    proof {
        assert forall|j: int| 0 <= j && j + w@.len() <= s@.len() implies #[trigger] s@.subrange(j, j + w@.len()) != w@ by {
            assert(j < k);
        }
    }
    false
}

/// The value of a cell, read by the type that its column's header names:
/// a header that names `int` reads a whole number, one that names `float`
/// a decimal fraction, one that names `bool` a truth value; any other a
/// string.
pub fn parse_column_by_head(head: &str, col: &str) -> (r: Result<Object, Error>)
    ensures
        match column_value(head@, col@) {
            Ok(v) => r is Ok && r->Ok_0@ == v,
            Err(k) => r is Err && r->Err_0@ == k,
        },
{
    let head = str_to_lowercase(head);
    let h = chars_of(head.as_str());

    if contains_chars(&h, &vec!['i', 'n', 't']) {
        let n = match parse_i128(col) {
            Some(v) => v,
            None => return Err(make_error(ErrorKind::Exec, "failed to parse column as i64")),
        };
        return Ok(Object::from_int(n));
    } else if contains_chars(&h, &vec!['f', 'l', 'o', 'a', 't']) {
        if !is_float_text(col) {
            return Err(make_error(ErrorKind::Exec, "failed to parse column as f64"));
        }
        return Ok(Object::from_float_text(col.to_string()));
    } else if contains_chars(&h, &vec!['b', 'o', 'o', 'l']) {
        let n = match parse_bool(col) {
            Some(v) => v,
            None => return Err(make_error(ErrorKind::Exec, "failed to parse column as bool")),
        };
        return Ok(Object::from_bool(n));
    } else {
        return Ok(Object::from_string(col.to_string()));
    }
}

/// Whether two texts are equal.
fn same_text(a: &String, b: &String) -> (r: bool)
    ensures
        r == (a@ == b@),
{
    let x = chars_of(a.as_str());
    let y = chars_of(b.as_str());
    if x.len() != y.len() {
        return false;
    }
    let mut k: usize = 0;
    while k < x.len()
        invariant
            x@ == a@,
            y@ == b@,
            x@.len() == y@.len(),
            k <= x@.len(),
            forall|j: int| 0 <= j < k ==> x@[j] == y@[j],
        decreases x@.len() - k,
    {
        if x[k] != y[k] {
            return false;
        }
        k += 1;
    }
    proof {
        assert(x@ =~= y@);
    }
    true
}

/// The value that a name stands for in the record being read.
pub fn refer_ident(scope: &RecordScope, ident: &Object) -> (r: Result<Object, Error>)
    requires
        scope_ok(scope@),
    ensures
        match resolved(scope@, ident@) {
            Ok(v) => r is Ok && r->Ok_0@ == v,
            Err(k) => r is Err && r->Err_0@ == k,
        },
{
    let ghost ids = scope@.header_idents;
    let mut i: usize = 0;
    while i < scope.header_idents.len()
        invariant
            ids == scope@.header_idents,
            scope_ok(scope@),
            i <= ids.len(),
            forall|j: int| 0 <= j < i ==> ids[j] != ident@.ident,
        decreases ids.len() - i,
    {
        if same_text(&scope.header_idents[i], &ident.ident) {
            proof {
                assert(ids[i as int] == ident@.ident);
                let k = first_index(ids, ident@.ident)->0;
                assert(k == i as int) by {
                    if k < i {
                        assert(ids[k] != ident@.ident);
                    }
                    if k > i {
                        assert(ids[i as int] != ident@.ident);
                    }
                }
                assert(scope@.headers[i as int] == scope.headers@[i as int]@);
                assert(scope@.record[i as int] == scope.record@[i as int]@);
            }
            return parse_column_by_head(scope.headers[i].as_str(), scope.record[i].as_str());
        }
        i += 1;
    }
    Err(make_error(ErrorKind::Exec, "not found ident in CSV header"))
}

fn clone_object(o: &Object) -> (r: Object)
    ensures
        r@ == o@,
{
    o.clone()
}

fn compare_plain_exec(l: &Object, op: &CompareOpNode, r: &Object) -> (res: Result<Evaluated, Error>)
    ensures
        match compare_plain(l@, *op, r@) {
            Ok(v) => res is Ok && res->Ok_0@ == v,
            Err(k) => res is Err && res->Err_0@ == k,
        },
{
    if l.kind == ObjectKind::Int && r.kind == ObjectKind::Int {
        let b = match op {
            CompareOpNode::Lt => l.int_value < r.int_value,
            CompareOpNode::LtEq => l.int_value <= r.int_value,
            CompareOpNode::Gt => l.int_value > r.int_value,
            CompareOpNode::GtEq => l.int_value >= r.int_value,
            CompareOpNode::Eq => l.int_value == r.int_value,
            CompareOpNode::NotEq => l.int_value != r.int_value,
        };
        Ok(Evaluated::Done(Object::from_bool(b)))
    } else if is_number_kind(l.kind) && is_number_kind(r.kind) {
        let fop = match op {
            CompareOpNode::Lt => FloatOp::Lt,
            CompareOpNode::LtEq => FloatOp::LtEq,
            CompareOpNode::Gt => FloatOp::Gt,
            CompareOpNode::GtEq => FloatOp::GtEq,
            CompareOpNode::Eq => FloatOp::Eq,
            CompareOpNode::NotEq => FloatOp::NotEq,
        };
        Ok(Evaluated::InFloat(clone_object(l), fop, clone_object(r)))
    } else if is_equality_op(op) && l.kind == ObjectKind::String && r.kind == ObjectKind::String {
        let same = same_text(&l.string, &r.string);
        let eq = match op {
            CompareOpNode::Eq => true,
            _ => false,
        };
        Ok(Evaluated::Done(Object::from_bool(same == eq)))
    } else if is_equality_op(op) && l.kind == ObjectKind::Bool && r.kind == ObjectKind::Bool {
        let eq = match op {
            CompareOpNode::Eq => true,
            _ => false,
        };
        Ok(Evaluated::Done(Object::from_bool((l.bool_value == r.bool_value) == eq)))
    } else {
        Err(make_error(ErrorKind::Exec, "can't compare"))
    }
}

/// `lhs op rhs`, names looked up in the record.
pub fn compare_objects(scope: &RecordScope, lhs: &Object, op: &CompareOpNode, rhs: &Object) -> (res: Result<
    Evaluated,
    Error,
>)
    requires
        scope_ok(scope@),
    ensures
        match compare_outcome(scope@, lhs@, *op, rhs@) {
            Ok(v) => res is Ok && res->Ok_0@ == v,
            Err(k) => res is Err && res->Err_0@ == k,
        },
{
    proof {
        reveal(compare_outcome);
    }
    let eq = is_equality_op(op);
    let rk = rhs.kind;
    let lk = lhs.kind;
    if lk == ObjectKind::Ident && (rk == ObjectKind::Int || rk == ObjectKind::Float || rk == ObjectKind::String
        || rk == ObjectKind::Ident || (eq && rk == ObjectKind::Bool)) {
        let lo = refer_ident(scope, lhs)?;
        if rk == ObjectKind::Ident {
            let ro = refer_ident(scope, rhs)?;
            compare_plain_exec(&lo, op, &ro)
        } else {
            compare_plain_exec(&lo, op, rhs)
        }
    } else if rk == ObjectKind::Ident && (lk == ObjectKind::Int || lk == ObjectKind::Float || (eq && (lk
        == ObjectKind::String || lk == ObjectKind::Bool))) {
        let ro = refer_ident(scope, rhs)?;
        compare_plain_exec(lhs, op, &ro)
    } else {
        compare_plain_exec(lhs, op, rhs)
    }
}

fn arith_left_exec(scope: &RecordScope, lhs: &Object, rhs: &Object) -> (res: Result<Object, Error>)
    requires
        scope_ok(scope@),
    ensures
        match arith_left(scope@, lhs@, rhs@) {
            Ok(v) => res is Ok && res->Ok_0@ == v,
            Err(k) => res is Err && res->Err_0@ == k,
        },
{
    if lhs.kind == ObjectKind::Ident && (is_number_kind(rhs.kind) || rhs.kind == ObjectKind::String) {
        refer_ident(scope, lhs)
    } else {
        Ok(clone_object(lhs))
    }
}

/// `lhs op rhs` for `+` and `-`; a name on the left is looked up in the
/// record. Strings are joined by `+`.
pub fn add_sub_objects(scope: &RecordScope, lhs: &Object, op: &AddSubOpNode, rhs: &Object) -> (res: Result<
    Evaluated,
    Error,
>)
    requires
        scope_ok(scope@),
        add_sub_fits(scope@, lhs@, *op, rhs@),
    ensures
        match add_sub_outcome(scope@, lhs@, *op, rhs@) {
            Ok(v) => res is Ok && res->Ok_0@ == v,
            Err(k) => res is Err && res->Err_0@ == k,
        },
{
    proof {
        reveal(add_sub_outcome);
    }
    let l = arith_left_exec(scope, lhs, rhs)?;
    if l.kind == ObjectKind::Int && rhs.kind == ObjectKind::Int {
        let n = match op {
            AddSubOpNode::Add => l.int_value + rhs.int_value,
            AddSubOpNode::Sub => l.int_value - rhs.int_value,
        };
        Ok(Evaluated::Done(Object::from_int(n)))
    } else if is_number_kind(l.kind) && is_number_kind(rhs.kind) {
        let fop = match op {
            AddSubOpNode::Add => FloatOp::Add,
            AddSubOpNode::Sub => FloatOp::Sub,
        };
        Ok(Evaluated::InFloat(l, fop, clone_object(rhs)))
    } else if l.kind == ObjectKind::String && rhs.kind == ObjectKind::String && match op {
        AddSubOpNode::Add => true,
        AddSubOpNode::Sub => false,
    } {
        let mut n = l.string.clone();
        n.append(rhs.string.as_str());
        Ok(Evaluated::Done(Object::from_string(n)))
    } else {
        Err(make_error(ErrorKind::Exec, "can't add or sub: a + b"))
    }
}

/// Whole-number division that rounds toward zero.
fn int_div_rem(a: i128, b: i128) -> (r: (i128, i128))
    requires
        b != 0,
        !(a == i128::MIN && b == -1),
    ensures
        r.0 == trunc_div(a as int, b as int),
        r.1 == trunc_rem(a as int, b as int),
{
    let ua: u128 = if a < 0 {
        if a == i128::MIN {
            0x8000_0000_0000_0000_0000_0000_0000_0000u128
        } else {
            (-a) as u128
        }
    } else {
        a as u128
    };
    let ub: u128 = if b < 0 {
        if b == i128::MIN {
            0x8000_0000_0000_0000_0000_0000_0000_0000u128
        } else {
            (-b) as u128
        }
    } else {
        b as u128
    };
    assert(ua == abs(a as int));
    assert(ub == abs(b as int));
    let q = ua / ub;
    proof {
        assert(q <= ua) by (nonlinear_arith)
            requires
                q == ua / ub,
                ub >= 1,
        ;
        if ub == 1 {
            assert(q == ua) by (nonlinear_arith)
                requires
                    q == ua / ub,
                    ub == 1,
            ;
        } else {
            assert(q * 2 <= ua) by (nonlinear_arith)
                requires
                    q == ua / ub,
                    ub >= 2,
            ;
        }
    }
    let quotient: i128 = if (a < 0) == (b < 0) {
        q as i128
    } else {
        if q == 0x8000_0000_0000_0000_0000_0000_0000_0000u128 {
            i128::MIN
        } else {
            -(q as i128)
        }
    };
    proof {
        assert(b * quotient >= -0x1_0000_0000_0000_0000_0000_0000_0000_0000int * 0x1_0000_0000_0000_0000_0000_0000_0000_0000int)
            by (nonlinear_arith)
            requires
                i128::MIN <= b <= i128::MAX,
                i128::MIN <= quotient <= i128::MAX,
        ;
        assert(ub * q <= ua) by (nonlinear_arith)
            requires
                q == ua / ub,
                ub >= 1,
        ;
        assert(ua - ub * q < ub) by (nonlinear_arith)
            requires
                q == ua / ub,
                ub >= 1,
        ;
        if b < 0 {
            assert(b == -(ub as int));
        } else {
            assert(b == ub as int);
        }
        if (a < 0) == (b < 0) {
            assert(quotient == q as int);
        } else {
            assert(quotient == -(q as int));
        }
        assert(b * quotient == (if a < 0 { -(ub * q) } else { ub * q })) by (nonlinear_arith)
            requires
                b == (if b < 0 { -(ub as int) } else { ub as int }),
                quotient == (if (a < 0) == (b < 0) { q as int } else { -(q as int) }),
        ;
    }
    let rem: i128 = if a < 0 {
        -((ua - ub * q) as i128)
    } else {
        (ua - ub * q) as i128
    };
    (quotient, rem)
}

/// `lhs op rhs` for `*`, `/` and `%`; a name on the left is looked up in the
/// record. Whole numbers divide rounding toward zero, and dividing one by
/// zero is an error.
pub fn mul_div_objects(scope: &RecordScope, lhs: &Object, op: &MulDivOpNode, rhs: &Object) -> (res: Result<
    Evaluated,
    Error,
>)
    requires
        scope_ok(scope@),
        mul_div_fits(scope@, lhs@, *op, rhs@),
    ensures
        match mul_div_outcome(scope@, lhs@, *op, rhs@) {
            Ok(v) => res is Ok && res->Ok_0@ == v,
            Err(k) => res is Err && res->Err_0@ == k,
        },
{
    proof {
        reveal(mul_div_outcome);
    }
    let l = arith_left_exec(scope, lhs, rhs)?;
    if l.kind == ObjectKind::Int && rhs.kind == ObjectKind::Int {
        match op {
            MulDivOpNode::Mul => Ok(Evaluated::Done(Object::from_int(l.int_value * rhs.int_value))),
            MulDivOpNode::Div => {
                if rhs.int_value == 0 {
                    return Err(make_error(ErrorKind::Exec, "zero division error: a / b"));
                }
                let (q, _) = int_div_rem(l.int_value, rhs.int_value);
                Ok(Evaluated::Done(Object::from_int(q)))
            },
            MulDivOpNode::Mod => {
                if rhs.int_value == 0 {
                    return Err(make_error(ErrorKind::Exec, "zero division error: a % b"));
                }
                let (_, m) = int_div_rem(l.int_value, rhs.int_value);
                Ok(Evaluated::Done(Object::from_int(m)))
            },
        }
    } else if is_number_kind(l.kind) && is_number_kind(rhs.kind) {
        if *op != MulDivOpNode::Mul && is_zero_number_exec(rhs) {
            return Err(make_error(ErrorKind::Exec, "zero division error: a / b"));
        }
        let fop = match op {
            MulDivOpNode::Mul => FloatOp::Mul,
            MulDivOpNode::Div => FloatOp::Div,
            MulDivOpNode::Mod => FloatOp::Mod,
        };
        Ok(Evaluated::InFloat(l, fop, clone_object(rhs)))
    } else {
        Err(make_error(ErrorKind::Exec, "can't mul or div: a * b"))
    }
}

fn logic_operands_exec(scope: &RecordScope, a: &Object, b: &Object) -> (res: Result<(bool, bool), Error>)
    requires
        scope_ok(scope@),
    ensures
        match logic_operands(scope@, a@, b@) {
            Ok(v) => res is Ok && res->Ok_0 == v,
            Err(k) => res is Err && res->Err_0@ == k,
        },
{
    if a.kind == ObjectKind::Bool && b.kind == ObjectKind::Bool {
        Ok((a.bool_value, b.bool_value))
    } else if a.kind == ObjectKind::Bool && b.kind == ObjectKind::Ident {
        let bo = refer_ident(scope, b)?;
        if bo.kind == ObjectKind::Bool {
            Ok((a.bool_value, bo.bool_value))
        } else {
            Err(make_error(ErrorKind::Exec, "can't compare or"))
        }
    } else if a.kind == ObjectKind::Ident && (b.kind == ObjectKind::Bool || b.kind == ObjectKind::Ident) {
        let ao = refer_ident(scope, a)?;
        if b.kind == ObjectKind::Ident {
            let bo = refer_ident(scope, b)?;
            if ao.kind == ObjectKind::Bool && bo.kind == ObjectKind::Bool {
                Ok((ao.bool_value, bo.bool_value))
            } else {
                Err(make_error(ErrorKind::Exec, "can't compare or"))
            }
        } else if ao.kind == ObjectKind::Bool {
            Ok((ao.bool_value, b.bool_value))
        } else {
            Err(make_error(ErrorKind::Exec, "can't compare or"))
        }
    } else {
        Err(make_error(ErrorKind::Exec, "can't compare or (2)"))
    }
}

/// `a OR b` on truth values, names looked up in the record.
pub fn or_objects(scope: &RecordScope, a: &Object, b: &Object) -> (res: Result<Object, Error>)
    requires
        scope_ok(scope@),
    ensures
        match logic_operands(scope@, a@, b@) {
            Ok((x, y)) => res is Ok && res->Ok_0@ == bool_value(x || y),
            Err(k) => res is Err && res->Err_0@ == k,
        },
{
    let (x, y) = logic_operands_exec(scope, a, b)?;
    Ok(Object::from_bool(x || y))
}

/// `a AND b` on truth values, names looked up.
pub fn and_objects(scope: &RecordScope, a: &Object, b: &Object) -> (res: Result<Object, Error>)
    requires
        scope_ok(scope@),
    ensures
        match logic_operands(scope@, a@, b@) {
            Ok((x, y)) => res is Ok && res->Ok_0@ == bool_value(x && y),
            Err(k) => res is Err && res->Err_0@ == k,
        },
{
    let (x, y) = logic_operands_exec(scope, a, b)?;
    Ok(Object::from_bool(x && y))
}

/// `add_sub_objects` where its whole-number arithmetic stays in range;
/// `None` where it would overflow (where the evaluation stops).
pub fn try_add_sub_objects(scope: &RecordScope, lhs: &Object, op: &AddSubOpNode, rhs: &Object) -> (r: Option<
    Result<Evaluated, Error>,
>)
    requires
        scope_ok(scope@),
    ensures
        r is None <==> !add_sub_fits(scope@, lhs@, *op, rhs@),
        r matches Some(res) ==> match add_sub_outcome(scope@, lhs@, *op, rhs@) {
            Ok(v) => res is Ok && res->Ok_0@ == v,
            Err(k) => res is Err && res->Err_0@ == k,
        },
{
    proof {
        reveal(add_sub_outcome);
    }
    let l = match arith_left_exec(scope, lhs, rhs) {
        Ok(l) => l,
        Err(e) => return Some(Err(e)),
    };
    if l.kind == ObjectKind::Int && rhs.kind == ObjectKind::Int {
        let fits = match op {
            AddSubOpNode::Add => l.int_value.checked_add(rhs.int_value).is_some(),
            AddSubOpNode::Sub => l.int_value.checked_sub(rhs.int_value).is_some(),
        };
        if !fits {
            return None;
        }
    }
    Some(add_sub_objects(scope, lhs, op, rhs))
}

/// `mul_div_objects` where its whole-number arithmetic stays in range;
/// `None` where it would overflow (where the evaluation stops).
pub fn try_mul_div_objects(scope: &RecordScope, lhs: &Object, op: &MulDivOpNode, rhs: &Object) -> (r: Option<
    Result<Evaluated, Error>,
>)
    requires
        scope_ok(scope@),
    ensures
        r is None <==> !mul_div_fits(scope@, lhs@, *op, rhs@),
        r matches Some(res) ==> match mul_div_outcome(scope@, lhs@, *op, rhs@) {
            Ok(v) => res is Ok && res->Ok_0@ == v,
            Err(k) => res is Err && res->Err_0@ == k,
        },
{
    proof {
        reveal(mul_div_outcome);
    }
    let l = match arith_left_exec(scope, lhs, rhs) {
        Ok(l) => l,
        Err(e) => return Some(Err(e)),
    };
    if l.kind == ObjectKind::Int && rhs.kind == ObjectKind::Int {
        let a = l.int_value;
        let b = rhs.int_value;
        let fits = match op {
            MulDivOpNode::Mul => a.checked_mul(b).is_some(),
            MulDivOpNode::Div | MulDivOpNode::Mod => b == 0 || !(a == i128::MIN && b == -1),
        };
        proof {
            if b != 0 && !(a == i128::MIN && b == -1) {
                lemma_trunc_in_range(a, b);
            }
            if b != 0 && a == i128::MIN && b == -1 {
                assert(trunc_div(a as int, b as int) == 0x8000_0000_0000_0000_0000_0000_0000_0000int);
            }
        }
        if !fits {
            return None;
        }
    }
    Some(mul_div_objects(scope, lhs, op, rhs))
}

/// Division rounding toward zero stays in range but for `i128::MIN / -1`.
proof fn lemma_trunc_in_range(a: i128, b: i128)
    requires
        b != 0,
        !(a == i128::MIN && b == -1),
    ensures
        i128::MIN <= trunc_div(a as int, b as int) <= i128::MAX,
        i128::MIN <= trunc_rem(a as int, b as int) <= i128::MAX,
{
    let ua = abs(a as int);
    let ub = abs(b as int);
    let q = ua / ub;
    assert(0 <= q <= ua) by (nonlinear_arith)
        requires
            q == ua / ub,
            ub >= 1,
            ua >= 0,
    ;
    if ub == 1 {
        assert(q == ua) by (nonlinear_arith)
            requires
                q == ua / ub,
                ub == 1,
        ;
    } else {
        assert(q * 2 <= ua) by (nonlinear_arith)
            requires
                q == ua / ub,
                ub >= 2,
                ua >= 0,
        ;
    }
    assert(0 <= ua - ub * q < ub) by (nonlinear_arith)
        requires
            q == ua / ub,
            ub >= 1,
            ua >= 0,
    ;
    let t = trunc_div(a as int, b as int);
    if b < 0 {
        assert(b == -ub);
    } else {
        assert(b == ub);
    }
    assert(b * t == (if a < 0 { -(ub * q) } else { ub * q })) by (nonlinear_arith)
        requires
            b == (if b < 0 { -ub } else { ub }),
            t == (if (a < 0) == (b < 0) { q } else { -q }),
    ;
}

pub open spec fn swapped(op: CompareOpNode) -> CompareOpNode {
    match op {
        CompareOpNode::Lt => CompareOpNode::Gt,
        CompareOpNode::LtEq => CompareOpNode::GtEq,
        CompareOpNode::Gt => CompareOpNode::Lt,
        CompareOpNode::GtEq => CompareOpNode::LtEq,
        CompareOpNode::Eq => CompareOpNode::Eq,
        CompareOpNode::NotEq => CompareOpNode::NotEq,
    }
}

/// Comparing two whole numbers the other way round, with the operator
/// turned around, gives the same answer: `a < b` is `b > a`, `a == b` is
/// `b == a`.
pub proof fn lemma_compare_swapped(sc: RecordScopeV, a: i128, op: CompareOpNode, b: i128)
    ensures
        compare_outcome(sc, int_value(a), op, int_value(b)) == compare_outcome(sc, int_value(b), swapped(op), int_value(a)),
{
    reveal(compare_outcome);
}

/// `l != r` is the negation of `l == r`, whatever the operands: both fail
/// alike, and where both give a truth value, the values are opposite.
pub proof fn lemma_not_eq_negates_eq(sc: RecordScopeV, l: ObjectV, r: ObjectV)
    ensures
        compare_outcome(sc, l, CompareOpNode::NotEq, r) is Err <==> compare_outcome(sc, l, CompareOpNode::Eq, r) is Err,
        compare_outcome(sc, l, CompareOpNode::NotEq, r) matches Ok(EvaluatedV::Done(x)) ==> compare_outcome(
            sc,
            l,
            CompareOpNode::Eq,
            r,
        ) matches Ok(EvaluatedV::Done(y)) && x.kind == ObjectKind::Bool && y.kind == ObjectKind::Bool
            && x.bool_value == !y.bool_value,
{
    reveal(compare_outcome);
    let ne = CompareOpNode::NotEq;
    let eq = CompareOpNode::Eq;
    assert(comparable_with_name(ne, r.kind) == comparable_with_name(eq, r.kind));
    assert(compares_to_name(ne, l.kind) == compares_to_name(eq, l.kind));
    if l.kind == ObjectKind::Ident && comparable_with_name(eq, r.kind) {
        match resolved(sc, l) {
            Err(_) => {},
            Ok(lo) => if r.kind == ObjectKind::Ident {
                match resolved(sc, r) {
                    Err(_) => {},
                    Ok(ro) => lemma_plain_not_eq(lo, ro),
                }
            } else {
                lemma_plain_not_eq(lo, r);
            },
        }
    } else if r.kind == ObjectKind::Ident && compares_to_name(eq, l.kind) {
        match resolved(sc, r) {
            Err(_) => {},
            Ok(ro) => lemma_plain_not_eq(l, ro),
        }
    } else {
        lemma_plain_not_eq(l, r);
    }
}

proof fn lemma_plain_not_eq(l: ObjectV, r: ObjectV)
    ensures
        compare_plain(l, CompareOpNode::NotEq, r) is Err <==> compare_plain(l, CompareOpNode::Eq, r) is Err,
        compare_plain(l, CompareOpNode::NotEq, r) matches Ok(EvaluatedV::Done(x)) ==> compare_plain(
            l,
            CompareOpNode::Eq,
            r,
        ) matches Ok(EvaluatedV::Done(y)) && x.kind == ObjectKind::Bool && y.kind == ObjectKind::Bool
            && x.bool_value == !y.bool_value,
{
}

/// Whole-number division: the quotient rounds toward zero and the
/// remainder makes up the rest, smaller than the divisor and of the sign of
/// the dividend: `(a / b) * b + a % b == a`.
pub proof fn lemma_div_rem(sc: RecordScopeV, a: i128, b: i128)
    requires
        b != 0,
        !(a == i128::MIN && b == -1),
    ensures
        mul_div_outcome(sc, int_value(a), MulDivOpNode::Div, int_value(b)) matches Ok(EvaluatedV::Done(q))
            && mul_div_outcome(sc, int_value(a), MulDivOpNode::Mod, int_value(b)) matches Ok(EvaluatedV::Done(m))
            && q.int_value * b + m.int_value == a && abs(m.int_value as int) < abs(b as int) && (m.int_value
            == 0 || (m.int_value < 0) == (a < 0)),
{
    reveal(mul_div_outcome);
    lemma_trunc_in_range(a, b);
    let ua = abs(a as int);
    let ub = abs(b as int);
    let q = ua / ub;
    assert(0 <= ua - ub * q < ub) by (nonlinear_arith)
        requires
            q == ua / ub,
            ub >= 1,
            ua >= 0,
    ;
    let t = trunc_div(a as int, b as int);
    if b < 0 {
        assert(b == -ub);
    } else {
        assert(b == ub);
    }
    assert(b * t == (if a < 0 { -(ub * q) } else { ub * q })) by (nonlinear_arith)
        requires
            b == (if b < 0 { -ub } else { ub }),
            t == (if (a < 0) == (b < 0) { q } else { -q }),
    ;
    assert(t * b == b * t) by (nonlinear_arith);
}

/// The relation that a floating-point comparison question asks of two
/// numbers, read on whole numbers: `Lt` asks `a < b`, `LtEq` asks `a <= b`,
/// and so on; an arithmetic question is no comparison.
pub open spec fn float_holds(f: FloatOp, a: int, b: int) -> bool {
    match f {
        FloatOp::Lt => a < b,
        FloatOp::LtEq => a <= b,
        FloatOp::Gt => a > b,
        FloatOp::GtEq => a >= b,
        FloatOp::Eq => a == b,
        FloatOp::NotEq => a != b,
        _ => false,
    }
}

/// The number that a floating-point arithmetic question asks for, read on
/// whole numbers: `Add` asks `a + b`, `Sub` asks `a - b`, `Mul` asks
/// `a * b`; `Div` asks the quotient where it is whole, and `Mod` the
/// remainder of the quotient rounded toward zero.
pub open spec fn float_result(f: FloatOp, a: int, b: int) -> Option<int> {
    match f {
        FloatOp::Add => Some(a + b),
        FloatOp::Sub => Some(a - b),
        FloatOp::Mul => Some(a * b),
        FloatOp::Div => if b != 0 && a % b == 0 {
            Some(a / b)
        } else {
            None
        },
        FloatOp::Mod => if b != 0 {
            Some(a - b * trunc_div(a, b))
        } else {
            None
        },
        _ => None,
    }
}

/// On whole numbers each comparison is the relation it names: `<=` holds
/// of equal numbers and `<` does not, `>=` is `>` or `==`, and `!=` is the
/// negation of `==`.
pub proof fn lemma_comparisons_on_whole_numbers(a: i128, b: i128)
    ensures
        compare_plain(int_value(a), CompareOpNode::Lt, int_value(b)) == Ok::<EvaluatedV, ErrorKind>(EvaluatedV::Done(bool_value(a < b))),
        compare_plain(int_value(a), CompareOpNode::LtEq, int_value(b)) == Ok::<EvaluatedV, ErrorKind>(EvaluatedV::Done(bool_value(a < b || a == b))),
        compare_plain(int_value(a), CompareOpNode::Gt, int_value(b)) == Ok::<EvaluatedV, ErrorKind>(EvaluatedV::Done(bool_value(b < a))),
        compare_plain(int_value(a), CompareOpNode::GtEq, int_value(b)) == Ok::<EvaluatedV, ErrorKind>(EvaluatedV::Done(bool_value(b < a || a == b))),
        compare_plain(int_value(a), CompareOpNode::Eq, int_value(b)) == Ok::<EvaluatedV, ErrorKind>(EvaluatedV::Done(bool_value(a == b))),
        compare_plain(int_value(a), CompareOpNode::NotEq, int_value(b)) == Ok::<EvaluatedV, ErrorKind>(EvaluatedV::Done(bool_value(!(a == b)))),
{
}

/// Where a fraction takes part in a comparison of two numbers, the
/// question handed to the host is on those two numbers and asks the same
/// relation as the comparison gives on whole numbers: for every pair of
/// whole numbers `a`, `b`, the question's relation holds exactly where the
/// comparison is true (so `<=` asks a question that holds of equal
/// numbers, and `<` one that does not).
pub proof fn lemma_fraction_comparison_asks_the_same_relation(l: ObjectV, op: CompareOpNode, r: ObjectV, a: i128, b: i128)
    requires
        is_number(l),
        is_number(r),
        l.kind == ObjectKind::Float || r.kind == ObjectKind::Float,
    ensures
        compare_plain(l, op, r) matches Ok(EvaluatedV::InFloat(l2, f, r2)) && l2 == l && r2 == r && compare_plain(
            int_value(a),
            op,
            int_value(b),
        ) == Ok::<EvaluatedV, ErrorKind>(EvaluatedV::Done(bool_value(float_holds(f, a as int, b as int)))),
{
}

/// On whole numbers that do not overflow, `+` adds and `-` subtracts.
pub proof fn lemma_sums_on_whole_numbers(a: i128, b: i128)
    requires
        i128::MIN <= a + b <= i128::MAX,
        i128::MIN <= a - b <= i128::MAX,
    ensures
        add_sub_plain(int_value(a), AddSubOpNode::Add, int_value(b)) == Ok::<EvaluatedV, ErrorKind>(EvaluatedV::Done(int_value((a + b) as i128))),
        add_sub_plain(int_value(a), AddSubOpNode::Sub, int_value(b)) == Ok::<EvaluatedV, ErrorKind>(EvaluatedV::Done(int_value((a - b) as i128))),
{
}

/// Where a fraction takes part in `+` or `-` of two numbers, the question
/// handed to the host is on those two numbers and asks for the same number
/// as the operation gives on whole numbers: for every pair of whole numbers
/// `a`, `b` whose sum and difference fit, the question asks for exactly
/// what `a op b` is (so `-` asks for the difference, not the sum).
pub proof fn lemma_fraction_sum_asks_the_same_operation(l: ObjectV, op: AddSubOpNode, r: ObjectV, a: i128, b: i128)
    requires
        is_number(l),
        is_number(r),
        l.kind == ObjectKind::Float || r.kind == ObjectKind::Float,
        i128::MIN <= a + b <= i128::MAX,
        i128::MIN <= a - b <= i128::MAX,
    ensures
        add_sub_plain(l, op, r) matches Ok(EvaluatedV::InFloat(l2, f, r2)) && l2 == l && r2 == r && (float_result(
            f,
            a as int,
            b as int,
        ) matches Some(x) && add_sub_plain(int_value(a), op, int_value(b)) == Ok::<EvaluatedV, ErrorKind>(
            EvaluatedV::Done(int_value(x as i128)),
        )),
{
}

/// Where a fraction takes part in `*`, `/` or `%` of two numbers and the
/// divisor is not zero, the question handed to the host is on those two
/// numbers and asks for the same number as the operation gives on whole
/// numbers: for every pair of whole numbers `a`, `b` (with `b` dividing `a`
/// for `/`, and not zero for `/` and `%`) whose result fits, the question
/// asks for exactly what `a op b` is.
pub proof fn lemma_fraction_product_asks_the_same_operation(l: ObjectV, op: MulDivOpNode, r: ObjectV, a: i128, b: i128)
    requires
        is_number(l),
        is_number(r),
        l.kind == ObjectKind::Float || r.kind == ObjectKind::Float,
        op == MulDivOpNode::Mul || !is_zero_number(r),
        op != MulDivOpNode::Mul ==> b != 0,
        op == MulDivOpNode::Div ==> a % b == 0,
        i128::MIN <= mul_div_ints(a, op, b) <= i128::MAX,
    ensures
        mul_div_plain(l, op, r) matches Ok(EvaluatedV::InFloat(l2, f, r2)) && l2 == l && r2 == r && (float_result(
            f,
            a as int,
            b as int,
        ) matches Some(x) && mul_div_plain(int_value(a), op, int_value(b)) == Ok::<EvaluatedV, ErrorKind>(
            EvaluatedV::Done(int_value(x as i128)),
        )),
{
    if op == MulDivOpNode::Div {
        lemma_exact_trunc_div(a as int, b as int);
    }
}

proof fn lemma_exact_trunc_div(a: int, b: int)
    requires
        b != 0,
        a % b == 0,
    ensures
        trunc_div(a, b) == a / b,
{
    let q = a / b;
    assert(a == b * q) by (nonlinear_arith)
        requires
            b != 0,
            a % b == 0,
            q == a / b,
    ;
    assert(abs(a) == abs(b) * abs(q)) by (nonlinear_arith)
        requires
            a == b * q,
    ;
    assert(abs(a) / abs(b) == abs(q)) by (nonlinear_arith)
        requires
            abs(a) == abs(b) * abs(q),
            abs(b) > 0,
    ;
    if q != 0 {
        assert((a < 0) == (b < 0) <==> q > 0) by (nonlinear_arith)
            requires
                a == b * q,
                q != 0,
                b != 0,
        ;
    } else {
        assert(a == 0) by (nonlinear_arith)
            requires
                a == b * q,
                q == 0,
        ;
    }
}

} // verus!
