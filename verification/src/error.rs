use vstd::prelude::*;
use crate::host::{Question, QuestionV};

verus! {

/// The stage at which a query failed; what the contracts say of an error.
#[derive(Clone, Copy, Debug, PartialEq, Eq, Structural)]
pub enum ErrorKind {
    Tokenize,
    Parse,
    Exec,
    Runtime,
    Security,
    Unanswered,
}

/// An error of the query engine, with a message for the user.
#[derive(Debug)]
pub enum Error {
    Tokenize(String),
    Parse(String),
    Exec(String),
    Runtime(String),
    Security(String),
    /// A question of the host that the answers given so far do not answer.
    Unanswered(String, Question),
}

impl View for Error {
    type V = ErrorKind;

    open spec fn view(&self) -> ErrorKind {
        match self {
            Error::Tokenize(_) => ErrorKind::Tokenize,
            Error::Parse(_) => ErrorKind::Parse,
            Error::Exec(_) => ErrorKind::Exec,
            Error::Runtime(_) => ErrorKind::Runtime,
            Error::Security(_) => ErrorKind::Security,
            Error::Unanswered(_, _) => ErrorKind::Unanswered,
        }
    }
}

impl Error {
    /// The stage at which the error arose.
    pub fn kind(&self) -> (k: ErrorKind)
        ensures
            k == self@,
    {
        match self {
            Error::Tokenize(_) => ErrorKind::Tokenize,
            Error::Parse(_) => ErrorKind::Parse,
            Error::Exec(_) => ErrorKind::Exec,
            Error::Runtime(_) => ErrorKind::Runtime,
            Error::Security(_) => ErrorKind::Security,
            Error::Unanswered(_, _) => ErrorKind::Unanswered,
        }
    }

    /// The question that stopped the evaluation, for an error of that kind.
    pub closed spec fn asked(&self) -> Option<QuestionV> {
        match self {
            Error::Unanswered(_, q) => Some(q@),
            _ => None,
        }
    }

    /// The message as the command line shows it: the stage, then the detail.
    pub fn to_message(&self) -> (s: String)
        ensures
            s@ == Self::spec_message(self@, self.detail()@),
    {
        let (head, detail) = match self {
            Error::Tokenize(s) => ("failed to tokenize. ", s),
            Error::Parse(s) => ("failed to parse. ", s),
            Error::Exec(s) => ("failed to execute. ", s),
            Error::Runtime(s) => ("failed on runtime. ", s),
            Error::Security(s) => ("security check failed. ", s),
            Error::Unanswered(s, _) => ("waiting on the host. ", s),
        };
        let mut m = head.to_string();
        m.append(detail.as_str());
        m
    }

    /// The detail message that the error carries.
    pub open spec fn detail(&self) -> String {
        match self {
            Error::Tokenize(s) => *s,
            Error::Parse(s) => *s,
            Error::Exec(s) => *s,
            Error::Runtime(s) => *s,
            Error::Security(s) => *s,
            Error::Unanswered(s, _) => *s,
        }
    }

    pub open spec fn spec_message(k: ErrorKind, detail: Seq<char>) -> Seq<char> {
        let head = match k {
            ErrorKind::Tokenize => "failed to tokenize. "@,
            ErrorKind::Parse => "failed to parse. "@,
            ErrorKind::Exec => "failed to execute. "@,
            ErrorKind::Runtime => "failed on runtime. "@,
            ErrorKind::Security => "security check failed. "@,
            ErrorKind::Unanswered => "waiting on the host. "@,
        };
        head + detail
    }
}

/// The error that stops a statement at a question without an answer.
pub fn asks(q: Question) -> (e: Error)
    ensures
        e@ == ErrorKind::Unanswered,
        e.asked() == Some(q@),
{
    Error::Unanswered("waiting for an answer of the host".to_string(), q)
}

/// An error of the given kind with the given message.
pub fn make_error(k: ErrorKind, msg: &str) -> (e: Error)
    requires
        k != ErrorKind::Unanswered,
    ensures
        e@ == k,
        e.detail()@ == msg@,
{
    let s = msg.to_string();
    match k {
        ErrorKind::Tokenize => Error::Tokenize(s),
        ErrorKind::Parse => Error::Parse(s),
        ErrorKind::Exec => Error::Exec(s),
        ErrorKind::Runtime => Error::Runtime(s),
        ErrorKind::Security => Error::Security(s),
        ErrorKind::Unanswered => Error::Exec(s),
    }
}

/// The older failure type of the engine, kept for its users.
#[derive(Debug)]
pub enum Fail {
    Tokenize(String),
    Parse(String),
    Exec(String),
}

impl Fail {
    /// The message as the command line shows it.
    pub fn to_message(&self) -> (s: String)
        ensures
            s@ == (match self {
                Fail::Tokenize(d) => "failed to tokenize. "@ + d@,
                Fail::Parse(d) => "failed to parse. "@ + d@,
                Fail::Exec(d) => "failed to execute. "@ + d@,
            }),
    {
        let (head, detail) = match self {
            Fail::Tokenize(s) => ("failed to tokenize. ", s),
            Fail::Parse(s) => ("failed to parse. ", s),
            Fail::Exec(s) => ("failed to execute. ", s),
        };
        let mut m = head.to_string();
        m.append(detail.as_str());
        m
    }
}

} // verus!
