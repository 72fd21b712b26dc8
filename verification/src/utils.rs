//! From the text of a query to the plans that carry it out.
use vstd::prelude::*;
use crate::error::{Error, ErrorKind};
use crate::grammar::Query;
use crate::parser::{QueryNode, parse};
use crate::plan_model::{Plans, plan_query};
use crate::planner::{PlansNode, planning};
use crate::syntax::{lemma_tokenize_tokens_ok, stmts_from};
use crate::tokenizer::{Token, TokenStream, spec_tokenize, tokenizable, tokenize, try_tokenize};

verus! {

/// The statements of a query text, or the error that reading them gives.
pub open spec fn query_of_text(s: Seq<char>) -> Result<Query, ErrorKind> {
    match stmts_from(spec_tokenize(s)->0, 0, Seq::empty()) {
        Ok(stmts) => Ok(Query { stmts }),
        Err(k) => Err(k),
    }
}

/// The plans of a query text, or the first error on the way.
pub open spec fn plans_of_text(s: Seq<char>) -> Result<Plans, ErrorKind> {
    match query_of_text(s) {
        Ok(q) => plan_query(q),
        Err(k) => Err(k),
    }
}

/// Reads a query text into its syntax tree.
pub fn parse_query(query: String) -> (r: Result<QueryNode, Error>)
    requires
        query@.len() < usize::MAX - 32,
        tokenizable(query@),
    ensures
        match query_of_text(query@) {
            Ok(q) => r is Ok && r->Ok_0@ == q,
            Err(k) => r is Err && r->Err_0@ == k,
        },
{
    let ghost s = query@;
    let tokens: Vec<Token> = tokenize(query)?;
    proof {
        lemma_tokenize_tokens_ok(s);
    }
    let mut tok_strm = TokenStream::new(tokens);
    let node: QueryNode = parse(&mut tok_strm)?;
    Ok(node)
}

/// Tokenizes, parses and plans a query text: the work that comes before
/// the plans are carried out on the files.
pub fn prepare_query(query: String) -> (r: Result<PlansNode, Error>)
    requires
        query@.len() < usize::MAX - 32,
        tokenizable(query@),
    ensures
        match plans_of_text(query@) {
            Ok(ps) => r is Ok && r->Ok_0@ == ps,
            Err(k) => r is Err && r->Err_0@ == k,
        },
{
    let node: QueryNode = parse_query(query)?;
    let plans: PlansNode = planning(&node)?;
    Ok(plans)
}

/// Prepares a query text where it can be split into tokens: `None` where it
/// cannot (a number in it that does not read), else what `prepare_query`
/// gives.
pub fn try_prepare_query(query: String) -> (r: Option<Result<PlansNode, Error>>)
    requires
        query@.len() < usize::MAX - 32,
    ensures
        r is None <==> !tokenizable(query@),
        r matches Some(res) ==> match plans_of_text(query@) {
            Ok(ps) => res is Ok && res->Ok_0@ == ps,
            Err(k) => res is Err && res->Err_0@ == k,
        },
{
    match try_tokenize(query.clone()) {
        None => None,
        Some(_) => Some(prepare_query(query)),
    }
}

} // verus!
