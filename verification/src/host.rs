//! The questions that the library cannot answer itself, and the answers
//! that the program around it gives. The library holds no floating-point
//! numbers: an operation on fractions, and a `SUM`, `AVG`, `MIN` or `MAX`
//! over the rows a statement takes, is a question. A statement is run with
//! the answers known so far; where it meets a question without an answer,
//! it stops and names that question, and the caller answers it and runs the
//! statement again. Every result is thus a function of the statement, the
//! table and the answers.
use vstd::prelude::*;
use crate::error::{Error, ErrorKind, make_error};
use crate::eval::{FloatOp, strings_view};
use crate::headers::same_str;
use crate::objects::{Object, ObjectV};
use crate::order::rows_view;

verus! {

/// An operation on fractions, or a call of a function of a get statement
/// with its arguments over the rows that the statement takes (with their
/// column names).
#[derive(Debug)]
pub enum Question {
    Float(Object, FloatOp, Object),
    Call(String, Vec<Object>, Vec<String>, Vec<Vec<String>>),
}

pub enum QuestionV {
    Float(ObjectV, FloatOp, ObjectV),
    Call(Seq<char>, Seq<ObjectV>, Seq<Seq<char>>, Seq<Seq<Seq<char>>>),
}

pub open spec fn objects_of(v: Seq<Object>) -> Seq<ObjectV> {
    v.map_values(|o: Object| o@)
}

impl View for Question {
    type V = QuestionV;

    open spec fn view(&self) -> QuestionV {
        match self {
            Question::Float(l, op, r) => QuestionV::Float(l@, *op, r@),
            Question::Call(name, args, ids, rows) => QuestionV::Call(
                name@,
                objects_of(args@),
                strings_view(ids@),
                rows_view(rows@),
            ),
        }
    }
}

/// The answer to a question: a value, or the message of an error.
#[derive(Debug)]
pub struct Answer {
    pub question: Question,
    pub value: Result<Object, String>,
}

/// The answers given so far.
#[derive(Debug)]
pub struct Answers {
    pub entries: Vec<Answer>,
}

pub open spec fn answer_view(a: Answer) -> (QuestionV, Result<ObjectV, Seq<char>>) {
    (a.question@, match a.value {
        Ok(o) => Ok(o@),
        Err(m) => Err(m@),
    })
}

impl View for Answers {
    type V = Seq<(QuestionV, Result<ObjectV, Seq<char>>)>;

    open spec fn view(&self) -> Seq<(QuestionV, Result<ObjectV, Seq<char>>)> {
        self.entries@.map_values(|a: Answer| answer_view(a))
    }
}

/// The answers as the contracts see them: each question with its value or
/// the message of its error, in the order they were given.
pub type AnswersV = Seq<(QuestionV, Result<ObjectV, Seq<char>>)>;

/// The first answer given to `q`.
pub open spec fn answer_of(ans: AnswersV, q: QuestionV) -> Option<
    Result<ObjectV, Seq<char>>,
>
    decreases ans.len(),
{
    if ans.len() == 0 {
        None
    } else if ans[0].0 == q {
        Some(ans[0].1)
    } else {
        answer_of(ans.drop_first(), q)
    }
}

/// Adding an answer changes only the answer to its own question, and only
/// where that question had none: the first answer to a question stands.
pub proof fn lemma_answer_after_add(ans: AnswersV, a: (QuestionV, Result<ObjectV, Seq<char>>), q: QuestionV)
    ensures
        answer_of(ans.push(a), q) == match answer_of(ans, q) {
            Some(v) => Some(v),
            None => if a.0 == q {
                Some(a.1)
            } else {
                None
            },
        },
    decreases ans.len(),
{
    reveal_with_fuel(answer_of, 2);
    if ans.len() > 0 {
        assert(ans.push(a).drop_first() =~= ans.drop_first().push(a));
        lemma_answer_after_add(ans.drop_first(), a, q);
    } else {
        assert(ans.push(a).drop_first() =~= Seq::<(QuestionV, Result<ObjectV, Seq<char>>)>::empty());
    }
}

impl Answers {
    pub fn new() -> (a: Self)
        ensures
            a@ == Seq::<(QuestionV, Result<ObjectV, Seq<char>>)>::empty(),
    {
        let a = Answers { entries: Vec::new() };
        proof {
            assert(a@ =~= Seq::<(QuestionV, Result<ObjectV, Seq<char>>)>::empty());
        }
        a
    }

    /// Adds the answer `value` to the question `q`.
    pub fn add(&mut self, q: Question, value: Result<Object, String>)
        ensures
            final(self)@ == old(self)@.push(answer_view(Answer { question: q, value })),
    {
        let ghost before = self@;
        let a = Answer { question: q, value };
        let ghost av = answer_view(a);
        self.entries.push(a);
        proof {
            assert(self@ =~= before.push(av));
        }
    }
}

fn same_object(a: &Object, b: &Object) -> (r: bool)
    ensures
        r == (a@ == b@),
{
    a.kind == b.kind && a.bool_value == b.bool_value && a.int_value == b.int_value && same_str(
        a.float_text.as_str(),
        b.float_text.as_str(),
    ) && same_str(a.string.as_str(), b.string.as_str()) && same_str(a.ident.as_str(), b.ident.as_str())
}

fn same_objects(a: &Vec<Object>, b: &Vec<Object>) -> (r: bool)
    ensures
        r == (objects_of(a@) == objects_of(b@)),
{
    if a.len() != b.len() {
        proof {
            assert(objects_of(a@).len() != objects_of(b@).len());
        }
        return false;
    }
    let mut i: usize = 0;
    while i < a.len()
        invariant
            a@.len() == b@.len(),
            i <= a@.len(),
            forall|k: int| 0 <= k < i ==> a@[k]@ == b@[k]@,
        decreases a@.len() - i,
    {
        if !same_object(&a[i], &b[i]) {
            proof {
                assert(objects_of(a@)[i as int] != objects_of(b@)[i as int]);
            }
            return false;
        }
        i += 1;
    }
    proof {
        assert(objects_of(a@) =~= objects_of(b@));
    }
    true
}

fn same_strings(a: &Vec<String>, b: &Vec<String>) -> (r: bool)
    ensures
        r == (strings_view(a@) == strings_view(b@)),
{
    if a.len() != b.len() {
        proof {
            assert(strings_view(a@).len() != strings_view(b@).len());
        }
        return false;
    }
    let mut i: usize = 0;
    while i < a.len()
        invariant
            a@.len() == b@.len(),
            i <= a@.len(),
            forall|k: int| 0 <= k < i ==> a@[k]@ == b@[k]@,
        decreases a@.len() - i,
    {
        if !same_str(a[i].as_str(), b[i].as_str()) {
            proof {
                assert(strings_view(a@)[i as int] != strings_view(b@)[i as int]);
            }
            return false;
        }
        i += 1;
    }
    proof {
        assert(strings_view(a@) =~= strings_view(b@));
    }
    true
}

fn same_rows(a: &Vec<Vec<String>>, b: &Vec<Vec<String>>) -> (r: bool)
    ensures
        r == (rows_view(a@) == rows_view(b@)),
{
    if a.len() != b.len() {
        proof {
            assert(rows_view(a@).len() != rows_view(b@).len());
        }
        return false;
    }
    let mut i: usize = 0;
    while i < a.len()
        invariant
            a@.len() == b@.len(),
            i <= a@.len(),
            forall|k: int| 0 <= k < i ==> strings_view(a@[k]@) == strings_view(b@[k]@),
        decreases a@.len() - i,
    {
        if !same_strings(&a[i], &b[i]) {
            proof {
                assert(rows_view(a@)[i as int] != rows_view(b@)[i as int]);
            }
            return false;
        }
        i += 1;
    }
    proof {
        assert(rows_view(a@) =~= rows_view(b@));
    }
    true
}

fn same_question(a: &Question, b: &Question) -> (r: bool)
    ensures
        r == (a@ == b@),
{
    match (a, b) {
        (Question::Float(l1, o1, r1), Question::Float(l2, o2, r2)) => *o1 == *o2 && same_object(l1, l2)
            && same_object(r1, r2),
        (Question::Call(n1, a1, i1, r1), Question::Call(n2, a2, i2, r2)) => same_str(n1.as_str(), n2.as_str())
            && same_objects(a1, a2) && same_strings(i1, i2) && same_rows(r1, r2),
        _ => false,
    }
}

/// The first answer given to `q`, where there is one; a failed answer is
/// an error of execution with its message.
pub fn find_answer(answers: &Answers, q: &Question) -> (r: Option<Result<Object, Error>>)
    ensures
        match answer_of(answers@, q@) {
            None => r is None,
            Some(Ok(v)) => r matches Some(Ok(x)) && x@ == v,
            Some(Err(_)) => r matches Some(Err(e)) && e@ == ErrorKind::Exec,
        },
{
    let ghost all = answers@;
    let mut i: usize = 0;
    proof {
        assert(all.skip(0) =~= all);
    }
    while i < answers.entries.len()
        invariant
            all == answers@,
            i <= all.len(),
            answer_of(all, q@) == answer_of(all.skip(i as int), q@),
        decreases all.len() - i,
    {
        proof {
            assert(all.skip(i as int)[0] == all[i as int]);
            assert(all.skip(i as int).drop_first() =~= all.skip(i + 1));
            assert(all[i as int] == answer_view(answers.entries@[i as int]));
        }
        let a = &answers.entries[i];
        if same_question(&a.question, q) {
            return match &a.value {
                Ok(o) => Some(Ok(o.clone())),
                Err(m) => Some(Err(make_error(ErrorKind::Exec, m.as_str()))),
            };
        }
        i += 1;
    }
    None
}

} // verus!
