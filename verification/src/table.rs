//! A table read whole, and what get, set and delete statements make of it:
//! which rows the where clause matches, which of them the statement takes,
//! and the rows that are printed or written back.
use vstd::prelude::*;
use crate::error::{Error, ErrorKind, make_error};
use crate::eval::{RecordScope, RecordScopeV, strings_view};
use crate::host::{Answers, AnswersV, QuestionV};
use crate::exprs::{
    exec_expr, Out, OutLimit, OutList, Vars, empty_scope_view, ev_expr, ev_limit, ev_list_from, exec_expr_list,
    exec_where_clause, gen_limit_value, lookup, objects_view,
};
use crate::headers::{csv_headers_to_idents, header_idents, types_view};
use crate::objects::{HeaderType, HeaderTypeV, Object, ObjectV, cell_value, nil_object, object_text};
use crate::order::{column_keys, copy_row, is_permutation, rows_view, sort_rows, sorted_stably};
use crate::parser::{LimitNode, WhereClauseNode};
use crate::planner::{RowDeleteNode, RowUpdateNode};
use crate::rows::{
    count_true, lemma_chosen_rows_count, chosen, chosen_rows, collect_by_indices, found_positions, first_index, get_indices, is_first_index, lemma_first_index,
    lemma_found_positions_in_range, objects_texts, pairs_view, position_of, replace_columns_by_objs, replaced, row_cap,
    var_pairs_view,
};
use crate::objects::ObjectKind;
use crate::parser::ExprListNode;
use crate::planner::{AggregateNode, FilterNode, ProjectNode, SortNode};

verus! {

/// The header row of a table and its rows.
#[derive(Debug)]
pub struct Table {
    pub headers: Vec<String>,
    pub records: Vec<Vec<String>>,
}

/// What matching the rows of a table gives: for each row whether it
/// matches (and the names assigned after), an error, an overflow, or a
/// question of the host without an answer.
pub enum OutRows {
    Vals(Seq<bool>, Seq<(Seq<char>, ObjectV)>),
    Fail(ErrorKind),
    Overflow,
    Asks(QuestionV),
}

/// Whether each of the rows `recs`, after the flags `acc` of the rows
/// before, matches the where clause; without one, every row matches.
pub open spec fn ev_matches_from(
    ans: AnswersV,
    hs: Seq<Seq<char>>,
    ids: Seq<Seq<char>>,
    recs: Seq<Seq<Seq<char>>>,
    vs: Seq<(Seq<char>, ObjectV)>,
    clause: Option<Box<WhereClauseNode>>,
    acc: Seq<bool>,
) -> OutRows
    decreases recs.len(),
{
    if recs.len() == 0 {
        OutRows::Vals(acc, vs)
    } else {
        match clause {
            None => ev_matches_from(ans, hs, ids, recs.drop_first(), vs, clause, acc.push(true)),
            Some(w) => if ids.len() > hs.len() || ids.len() > recs[0].len() {
                OutRows::Fail(ErrorKind::Runtime)
            } else {
                match w.expr {
                    None => OutRows::Fail(ErrorKind::Exec),
                    Some(e) => match ev_expr(
                        RecordScopeV {
                            headers: hs,
                            header_idents: ids,
                            record: recs[0],
                            counting: false,
                            taken_idents: Seq::empty(),
                            taken: Seq::empty(),
                            answers: ans,
                        },
                        vs,
                        *e,
                    ) {
                        Out::Val(o, vs1) => ev_matches_from(ans, 
                            hs,
                            ids,
                            recs.drop_first(),
                            vs1,
                            clause,
                            acc.push(o.bool_value),
                        ),
                        Out::Fail(k) => OutRows::Fail(k),
                        Out::Overflow => OutRows::Overflow,
                        Out::Asks(q) => OutRows::Asks(q),
                    },
                }
            },
        }
    }
}

pub open spec fn agrees_rows(r: Option<Result<Vec<bool>, Error>>, o: OutRows, vs: Seq<(Seq<char>, ObjectV)>) -> bool {
    match o {
        OutRows::Vals(m, vs2) => r matches Some(Ok(x)) && x@ == m && vs == vs2,
        OutRows::Fail(k) => r matches Some(Err(e)) && e@ == k,
        OutRows::Overflow => r is None,
        OutRows::Asks(q) => r matches Some(Err(e)) && e@ == ErrorKind::Unanswered && e.asked() == Some(q),
    }
}

/// For each row of the table, whether the where clause matches it, the
/// row's fields read by the column names `idents`.
pub fn matched_rows(answers: &Answers, vars: &mut Vars,
    table: &Table,
    idents: &Vec<String>,
    clause: &Option<Box<WhereClauseNode>>,
) -> (r: Option<Result<Vec<bool>, Error>>)
    ensures
        agrees_rows(
            r,
            ev_matches_from(answers@, 
                strings_view(table.headers@),
                strings_view(idents@),
                rows_view(table.records@),
                old(vars)@,
                *clause,
                Seq::empty(),
            ),
            final(vars)@,
        ),
{
    let ghost hs = strings_view(table.headers@);
    let ghost ids = strings_view(idents@);
    let ghost recs = rows_view(table.records@);
    let ghost target = ev_matches_from(answers@, hs, ids, recs, old(vars)@, *clause, Seq::empty());
    let mut matches: Vec<bool> = Vec::new();
    let mut scope = RecordScope {
        headers: copy_row(&table.headers),
        header_idents: copy_row(idents),
        record: Vec::new(),
        counting: false,
        taken_idents: Vec::new(),
        taken: Vec::new(),
        answers,
    };
    let mut i: usize = 0;
    proof {
        assert(recs.skip(0) =~= recs);
        assert(matches@ =~= Seq::<bool>::empty());
    }
    while i < table.records.len()
        invariant
            hs == strings_view(table.headers@),
            ids == strings_view(idents@),
            recs == rows_view(table.records@),
            target == ev_matches_from(answers@, hs, ids, recs, old(vars)@, *clause, Seq::empty()),
            strings_view(scope.headers@) == hs,
            strings_view(scope.header_idents@) == ids,
            scope.answers == answers,
            !scope.counting,
            scope.taken_idents@.len() == 0,
            scope.taken@.len() == 0,
            i <= recs.len(),
            matches@.len() == i,
            target == ev_matches_from(answers@, hs, ids, recs.skip(i as int), vars@, *clause, matches@),
        decreases recs.len() - i,
    {
        proof {
            assert(recs.skip(i as int)[0] == recs[i as int]);
            assert(recs.skip(i as int).drop_first() =~= recs.skip(i + 1));
            assert(recs[i as int] == strings_view(table.records@[i as int]@));
        }
        match clause {
            None => {
                matches.push(true);
            },
            Some(w) => {
                if idents.len() > table.headers.len() || idents.len() > table.records[i].len() {
                    return Some(Err(make_error(ErrorKind::Runtime, "record shorter than its header")));
                }
                scope.record = copy_row(&table.records[i]);
                proof {
                    assert(strings_view(scope.taken_idents@) =~= Seq::<Seq<char>>::empty());
                    assert(scope@.taken =~= Seq::<Seq<Seq<char>>>::empty());
                    assert(scope@ == RecordScopeV {
                        headers: hs,
                        header_idents: ids,
                        record: recs[i as int],
                        counting: false,
                        taken_idents: Seq::empty(),
                        taken: Seq::empty(),
                        answers: answers@,
                    });
                }
                let o = match exec_where_clause(&scope, vars, &**w) {
                    Some(Ok(o)) => o,
                    Some(Err(e)) => return Some(Err(e)),
                    None => return None,
                };
                matches.push(o.bool_value);
            },
        }
        i += 1;
    }
    proof {
        assert(recs.skip(i as int).len() == 0);
    }
    Some(Ok(matches))
}

/// The rows that are not taken, in order.
pub open spec fn kept(recs: Seq<Seq<Seq<char>>>, taken: Seq<bool>) -> Seq<Seq<Seq<char>>>
    decreases recs.len(),
{
    if recs.len() == 0 {
        Seq::empty()
    } else {
        let rest = kept(recs.drop_last(), taken);
        if taken[recs.len() - 1] {
            rest
        } else {
            rest.push(recs.last())
        }
    }
}

/// The rows that are taken, in order.
pub open spec fn picked(recs: Seq<Seq<Seq<char>>>, taken: Seq<bool>) -> Seq<Seq<Seq<char>>>
    decreases recs.len(),
{
    if recs.len() == 0 {
        Seq::empty()
    } else {
        let rest = picked(recs.drop_last(), taken);
        if taken[recs.len() - 1] {
            rest.push(recs.last())
        } else {
            rest
        }
    }
}

/// The rows whose flag is set where `keep_taken`, else the rows whose flag
/// is clear, in order.
pub(crate) fn filter_rows(records: &Vec<Vec<String>>, taken: &Vec<bool>, keep_taken: bool) -> (r: Vec<Vec<String>>)
    requires
        taken@.len() == records@.len(),
    ensures
        rows_view(r@) == (if keep_taken {
            picked(rows_view(records@), taken@)
        } else {
            kept(rows_view(records@), taken@)
        }),
{
    let ghost recs = rows_view(records@);
    let mut out: Vec<Vec<String>> = Vec::new();
    let mut i: usize = 0;
    proof {
        assert(recs.take(0) =~= Seq::<Seq<Seq<char>>>::empty());
        assert(rows_view(out@) =~= Seq::<Seq<Seq<char>>>::empty());
    }
    while i < records.len()
        invariant
            recs == rows_view(records@),
            taken@.len() == records@.len(),
            i <= recs.len(),
            rows_view(out@) == (if keep_taken {
                picked(recs.take(i as int), taken@)
            } else {
                kept(recs.take(i as int), taken@)
            }),
        decreases recs.len() - i,
    {
        let ghost before = rows_view(out@);
        proof {
            assert(recs.take(i + 1).drop_last() =~= recs.take(i as int));
            assert(recs.take(i + 1).last() == recs[i as int]);
            assert(recs[i as int] == strings_view(records@[i as int]@));
        }
        if taken[i] == keep_taken {
            out.push(copy_row(&records[i]));
            proof {
                assert(rows_view(out@) =~= before.push(recs[i as int]));
            }
        }
        i += 1;
    }
    proof {
        assert(recs.take(i as int) =~= recs);
    }
    out
}

/// Whether some taken row is too short for a column that an update sets.
pub open spec fn update_too_short(
    ids: Seq<Seq<char>>,
    recs: Seq<Seq<Seq<char>>>,
    taken: Seq<bool>,
    ups: Seq<(Seq<char>, Seq<char>)>,
) -> bool {
    exists|i: int, k: int|
        0 <= i < recs.len() && taken[i] && 0 <= k < ups.len() && ids.contains(ups[k].0) && first_index(ids, ups[k].0)
            >= recs[i].len()
}

/// The rows after the updates are made to each taken row.
pub open spec fn updated(
    ids: Seq<Seq<char>>,
    recs: Seq<Seq<Seq<char>>>,
    taken: Seq<bool>,
    ups: Seq<(Seq<char>, Seq<char>)>,
) -> Seq<Seq<Seq<char>>> {
    Seq::new(recs.len(), |i: int| if taken[i] { replaced(ids, recs[i], ups) } else { recs[i] })
}

/// Whether every update that names a column fits in `row`.
fn updates_fit(idents: &Vec<String>, row: &Vec<String>, updates: &Vec<(String, String)>) -> (b: bool)
    ensures
        b == forall|k: int|
            0 <= k < updates@.len() && strings_view(idents@).contains(#[trigger] updates@[k].0@) ==> first_index(
                strings_view(idents@),
                updates@[k].0@,
            ) < row@.len(),
{
    let ghost ids = strings_view(idents@);
    let mut k: usize = 0;
    while k < updates.len()
        invariant
            ids == strings_view(idents@),
            k <= updates@.len(),
            forall|j: int|
                0 <= j < k && ids.contains(#[trigger] updates@[j].0@) ==> first_index(ids, updates@[j].0@) < row@.len(),
        decreases updates@.len() - k,
    {
        match position_of(idents, updates[k].0.as_str()) {
            Some(p) => {
                proof {
                    lemma_first_index(ids, updates@[k as int].0@, p as int);
                }
                if p >= row.len() {
                    return false;
                }
            },
            None => {},
        }
        k += 1;
    }
    true
}

/// The rows after each taken row gets the updates; a taken row too short
/// for a column that is set is an error.
pub fn rows_updated(idents: &Vec<String>, records: &Vec<Vec<String>>, taken: &Vec<bool>, updates: &Vec<(String, String)>) -> (r:
    Result<Vec<Vec<String>>, Error>)
    requires
        taken@.len() == records@.len(),
    ensures
        r is Err <==> update_too_short(strings_view(idents@), rows_view(records@), taken@, pairs_view(updates@)),
        r matches Err(e) ==> e@ == ErrorKind::Runtime,
        r matches Ok(v) ==> rows_view(v@) == updated(
            strings_view(idents@),
            rows_view(records@),
            taken@,
            pairs_view(updates@),
        ),
{
    let ghost ids = strings_view(idents@);
    let ghost recs = rows_view(records@);
    let ghost ups = pairs_view(updates@);
    let mut i: usize = 0;
    while i < records.len()
        invariant
            ids == strings_view(idents@),
            recs == rows_view(records@),
            ups == pairs_view(updates@),
            taken@.len() == records@.len(),
            i <= recs.len(),
            forall|j: int, k: int|
                0 <= j < i && taken@[j] && 0 <= k < ups.len() && ids.contains(ups[k].0) ==> first_index(ids, ups[k].0)
                    < recs[j].len(),
        decreases recs.len() - i,
    {
        if taken[i] && !updates_fit(idents, &records[i], updates) {
            proof {
                let k = choose|k: int|
                    !(0 <= k < updates@.len() && ids.contains(#[trigger] updates@[k].0@) ==> first_index(
                        ids,
                        updates@[k].0@,
                    ) < records@[i as int]@.len());
                assert(ups[k].0 == updates@[k].0@);
                assert(recs[i as int] == strings_view(records@[i as int]@));
            }
            return Err(make_error(ErrorKind::Runtime, "record shorter than its header"));
        }
        proof {
            assert(recs[i as int] == strings_view(records@[i as int]@));
            if taken@[i as int] {
                assert forall|k: int| 0 <= k < ups.len() && ids.contains(ups[k].0) implies first_index(ids, ups[k].0)
                    < recs[i as int].len() by {
                    assert(ups[k].0 == updates@[k].0@);
                }
            }
        }
        i += 1;
    }
    let mut out: Vec<Vec<String>> = Vec::new();
    let mut j: usize = 0;
    while j < records.len()
        invariant
            ids == strings_view(idents@),
            recs == rows_view(records@),
            ups == pairs_view(updates@),
            taken@.len() == records@.len(),
            j <= recs.len(),
            forall|a: int, k: int|
                0 <= a < recs.len() && taken@[a] && 0 <= k < ups.len() && ids.contains(ups[k].0) ==> first_index(
                    ids,
                    ups[k].0,
                ) < recs[a].len(),
            out@.len() == j,
            forall|a: int| 0 <= a < j ==> #[trigger] rows_view(out@)[a] == updated(ids, recs, taken@, ups)[a],
        decreases recs.len() - j,
    {
        proof {
            assert(recs[j as int] == strings_view(records@[j as int]@));
        }
        let row = if taken[j] {
            proof {
                assert forall|k: int|
                    0 <= k < updates@.len() && ids.contains(#[trigger] updates@[k].0@) implies first_index(
                        ids,
                        updates@[k].0@,
                    ) < records@[j as int]@.len() by {
                    assert(ups[k].0 == updates@[k].0@);
                }
            }
            match replace_columns_by_objs(idents, &records[j], updates) {
                Ok(v) => v,
                Err(e) => return Err(e),
            }
        } else {
            copy_row(&records[j])
        };
        let ghost before = out@;
        let ghost rv = strings_view(row@);
        proof {
            assert(rv == updated(ids, recs, taken@, ups)[j as int]);
        }
        out.push(row);
        proof {
            assert forall|a: int| 0 <= a < j + 1 implies #[trigger] rows_view(out@)[a] == updated(ids, recs, taken@, ups)[a] by {
                assert(rows_view(out@)[a] == strings_view(out@[a]@));
                if a < j {
                    assert(out@[a] == before[a]);
                    assert(rows_view(before)[a] == strings_view(before[a]@));
                }
            }
        }
        j += 1;
    }
    proof {
        assert(rows_view(out@) =~= updated(ids, recs, taken@, ups));
        if update_too_short(ids, recs, taken@, ups) {
            let (a, k) = choose|a: int, k: int|
                0 <= a < recs.len() && taken@[a] && 0 <= k < ups.len() && ids.contains(ups[k].0) && first_index(
                    ids,
                    ups[k].0,
                ) >= recs[a].len();
            assert(false);
        }
    }
    Ok(out)
}

pub(crate) proof fn lemma_matches_len(
    ans: AnswersV,
    hs: Seq<Seq<char>>,
    ids: Seq<Seq<char>>,
    recs: Seq<Seq<Seq<char>>>,
    vs: Seq<(Seq<char>, ObjectV)>,
    clause: Option<Box<WhereClauseNode>>,
    acc: Seq<bool>,
)
    ensures
        ev_matches_from(ans, hs, ids, recs, vs, clause, acc) matches OutRows::Vals(m, _) ==> m.len() == acc.len()
            + recs.len(),
    decreases recs.len(),
{
    if recs.len() > 0 {
        match clause {
            None => lemma_matches_len(ans, hs, ids, recs.drop_first(), vs, clause, acc.push(true)),
            Some(w) => {
                if !(ids.len() > hs.len() || ids.len() > recs[0].len()) {
                    match w.expr {
                        Some(e) => match ev_expr(RecordScopeV {
                            headers: hs,
                            header_idents: ids,
                            record: recs[0],
                            counting: false,
                            taken_idents: Seq::empty(),
                            taken: Seq::empty(),
                            answers: ans,
                        }, vs, *e) {
                            Out::Val(o, vs1) => lemma_matches_len(ans, 
                                hs,
                                ids,
                                recs.drop_first(),
                                vs1,
                                clause,
                                acc.push(o.bool_value),
                            ),
                            _ => {},
                        },
                        None => {},
                    }
                }
            },
        }
    }
}

/// What a limit gives: `None` without one.
pub enum OutCap {
    Val(Option<i128>, Seq<(Seq<char>, ObjectV)>),
    Fail(ErrorKind),
    Overflow,
    Asks(QuestionV),
}

pub open spec fn limit_then(ans: AnswersV, vs: Seq<(Seq<char>, ObjectV)>, limit: Option<Box<LimitNode>>) -> OutCap {
    match limit {
        None => OutCap::Val(None, vs),
        Some(l) => match ev_limit(ans, vs, *l) {
            OutLimit::Val(n, vs1) => OutCap::Val(Some(n), vs1),
            OutLimit::Fail(k) => OutCap::Fail(k),
            OutLimit::Overflow => OutCap::Overflow,
            OutLimit::Asks(q) => OutCap::Asks(q),
        },
    }
}

pub(crate) fn limit_of(answers: &Answers, vars: &mut Vars, limit: &Option<Box<LimitNode>>) -> (r: Option<Result<Option<i128>, Error>>)
    ensures
        match limit_then(answers@, old(vars)@, *limit) {
            OutCap::Val(l, vs2) => r == Some(Ok::<Option<i128>, Error>(l)) && final(vars)@ == vs2,
            OutCap::Fail(k) => r matches Some(Err(e)) && e@ == k,
            OutCap::Overflow => r is None,
            OutCap::Asks(q) => r matches Some(Err(e)) && e@ == ErrorKind::Unanswered && e.asked() == Some(q),
        },
{
    match limit {
        None => Some(Ok(None)),
        Some(l) => gen_limit_value(answers, vars, &**l),
    }
}

/// What a statement makes of the rows of a table: the rows it gives, an
/// error, an overflow, or a question of the host without an answer.
pub enum OutTable {
    Rows(Seq<Seq<Seq<char>>>),
    Fail(ErrorKind),
    Overflow,
    Asks(QuestionV),
}

pub open spec fn agrees_table(r: Option<Result<Vec<Vec<String>>, Error>>, o: OutTable) -> bool {
    match o {
        OutTable::Rows(rs) => r matches Some(Ok(x)) && rows_view(x@) == rs,
        OutTable::Fail(k) => r matches Some(Err(e)) && e@ == k,
        OutTable::Overflow => r is None,
        OutTable::Asks(q) => r matches Some(Err(e)) && e@ == ErrorKind::Unanswered && e.asked() == Some(q),
    }
}

/// The rows that a delete statement leaves: the limit is read first, then
/// the where clause on each row; the rows it takes are left out.
pub open spec fn delete_outcome(ans: AnswersV, hs: Seq<Seq<char>>, recs: Seq<Seq<Seq<char>>>, node: RowDeleteNode) -> OutTable {
    match node.project {
        None => OutTable::Rows(Seq::empty()),
        Some(p) => match limit_then(ans, Seq::empty(), p.limit) {
            OutCap::Val(l, vs1) => match p.filter {
                None => OutTable::Fail(ErrorKind::Exec),
                Some(f) => match ev_matches_from(ans, hs, header_idents(hs), recs, vs1, f.where_clause, Seq::empty()) {
                    OutRows::Vals(m, _) => OutTable::Rows(kept(recs, chosen(m, row_cap(node.all, l)))),
                    OutRows::Fail(k) => OutTable::Fail(k),
                    OutRows::Overflow => OutTable::Overflow,
                    OutRows::Asks(q) => OutTable::Asks(q),
                },
            },
            OutCap::Fail(k) => OutTable::Fail(k),
            OutCap::Overflow => OutTable::Overflow,
            OutCap::Asks(q) => OutTable::Asks(q),
        },
    }
}

/// The rows of a table after a delete statement.
pub fn exec_row_delete(answers: &Answers, table: &Table, node: &RowDeleteNode) -> (r: Option<
    Result<Vec<Vec<String>>, Error>,
>)
    ensures
        agrees_table(r, delete_outcome(answers@, strings_view(table.headers@), rows_view(table.records@), *node)),
{
    let project = match &node.project {
        Some(p) => p,
        None => {
            let none: Vec<Vec<String>> = Vec::new();
            proof {
                assert(rows_view(none@) =~= Seq::<Seq<Seq<char>>>::empty());
            }
            return Some(Ok(none));
        },
    };
    let mut vars = Vars::new();
    let limit = match limit_of(answers, &mut vars, &project.limit) {
        Some(Ok(l)) => l,
        Some(Err(e)) => return Some(Err(e)),
        None => return None,
    };
    let filter = match &project.filter {
        Some(f) => f,
        None => return Some(Err(make_error(ErrorKind::Exec, "invalid state: filter"))),
    };
    let idents = csv_headers_to_idents(&table.headers);
    let ghost vs1 = vars@;
    let matches = match matched_rows(answers, &mut vars, table, &idents, &filter.where_clause) {
        Some(Ok(m)) => m,
        Some(Err(e)) => return Some(Err(e)),
        None => return None,
    };
    proof {
        lemma_matches_len(answers@, 
            strings_view(table.headers@),
            strings_view(idents@),
            rows_view(table.records@),
            vs1,
            filter.where_clause,
            Seq::empty(),
        );
    }
    let taken = chosen_rows(&matches, node.all, limit);
    if taken.len() != table.records.len() {
        return Some(Err(make_error(ErrorKind::Runtime, "rows and flags differ")));
    }
    Some(Ok(filter_rows(&table.records, &taken, false)))
}

/// The set statement's updates: each name the statement assigned, with the
/// text of its value; names without a value are left out.
pub open spec fn var_updates(keys: Seq<ObjectV>, vs: Seq<(Seq<char>, ObjectV)>) -> Seq<(Seq<char>, Seq<char>)>
    decreases keys.len(),
{
    if keys.len() == 0 {
        Seq::empty()
    } else {
        let rest = var_updates(keys.drop_last(), vs);
        let k = object_text(keys.last());
        match lookup(vs, k) {
            Some(v) => rest.push((k, object_text(v))),
            None => rest,
        }
    }
}

fn var_updates_exec(keys: &Vec<Object>, vars: &Vars) -> (r: Vec<(String, String)>)
    ensures
        pairs_view(r@) == var_updates(objects_view(keys@), vars@),
{
    let ghost ks = objects_view(keys@);
    let mut out: Vec<(String, String)> = Vec::new();
    let mut i: usize = 0;
    proof {
        assert(ks.take(0) =~= Seq::<ObjectV>::empty());
        assert(pairs_view(out@) =~= Seq::<(Seq<char>, Seq<char>)>::empty());
    }
    while i < keys.len()
        invariant
            ks == objects_view(keys@),
            i <= ks.len(),
            pairs_view(out@) == var_updates(ks.take(i as int), vars@),
        decreases ks.len() - i,
    {
        proof {
            assert(ks.take(i + 1).drop_last() =~= ks.take(i as int));
            assert(ks.take(i + 1).last() == keys@[i as int]@);
        }
        let key = keys[i].to_string();
        let ghost before = pairs_view(out@);
        match vars.get(key.as_str()) {
            Some(v) => {
                let text = v.to_string();
                let ghost kv = key@;
                let ghost tv = text@;
                out.push((key, text));
                proof {
                    assert(pairs_view(out@) =~= before.push((kv, tv)));
                }
            },
            None => {},
        }
        i += 1;
    }
    proof {
        assert(ks.take(i as int) =~= ks);
    }
    out
}

/// The values that an add statement assigns by name: each name that its list
/// gives, with the text of the value last assigned to it, or none.
pub open spec fn var_values(keys: Seq<ObjectV>, vs: Seq<(Seq<char>, ObjectV)>) -> Seq<(Seq<char>, Option<Seq<char>>)> {
    Seq::new(
        keys.len(),
        |i: int|
            (
                object_text(keys[i]),
                match lookup(vs, object_text(keys[i])) {
                    Some(v) => Some(object_text(v)),
                    None => None,
                },
            ),
    )
}

/// The names that `keys` give, each with the text of its value in `vars`.
pub fn var_values_exec(keys: &Vec<Object>, vars: &Vars) -> (r: Vec<(String, Option<String>)>)
    ensures
        var_pairs_view(r@) == var_values(objects_view(keys@), vars@),
{
    let ghost ks = objects_view(keys@);
    let mut out: Vec<(String, Option<String>)> = Vec::new();
    let mut i: usize = 0;
    while i < keys.len()
        invariant
            ks == objects_view(keys@),
            i <= ks.len(),
            var_pairs_view(out@) == var_values(ks, vars@).take(i as int),
        decreases ks.len() - i,
    {
        let ghost before = var_pairs_view(out@);
        let key = keys[i].to_string();
        let value = match vars.get(key.as_str()) {
            Some(v) => Some(v.to_string()),
            None => None,
        };
        proof {
            assert(ks[i as int] == keys@[i as int]@);
        }
        let ghost pair = (key@, match value {
            Some(ref x) => Some(x@),
            None => None::<Seq<char>>,
        });
        out.push((key, value));
        proof {
            assert(var_pairs_view(out@) =~= before.push(pair));
            assert(var_values(ks, vars@).take(i + 1) =~= var_values(ks, vars@).take(i as int).push(pair));
        }
        i += 1;
    }
    proof {
        assert(var_values(ks, vars@).take(i as int) =~= var_values(ks, vars@));
    }
    out
}

/// The rows that a set statement leaves: its assignments are read first,
/// then the limit, then the where clause on each row; each row it takes
/// gets the assigned values in the columns they name.
pub open spec fn update_outcome(ans: AnswersV, hs: Seq<Seq<char>>, recs: Seq<Seq<Seq<char>>>, node: RowUpdateNode) -> OutTable {
    match node.project {
        None => OutTable::Fail(ErrorKind::Exec),
        Some(p) => match node.expr_list {
            None => OutTable::Fail(ErrorKind::Exec),
            Some(el) => match ev_list_from(empty_scope_view(ans), Seq::empty(), el.exprs@, Seq::empty()) {
                OutList::Vals(keys, vs1) => match limit_then(ans, vs1, p.limit) {
                    OutCap::Val(l, vs2) => match p.filter {
                        None => OutTable::Fail(ErrorKind::Exec),
                        Some(f) => match ev_matches_from(ans, hs, header_idents(hs), recs, vs2, f.where_clause, Seq::empty()) {
                            OutRows::Vals(m, _) => {
                                let taken = chosen(m, row_cap(node.all, l));
                                let ups = var_updates(keys, vs1);
                                if update_too_short(header_idents(hs), recs, taken, ups) {
                                    OutTable::Fail(ErrorKind::Runtime)
                                } else {
                                    OutTable::Rows(updated(header_idents(hs), recs, taken, ups))
                                }
                            },
                            OutRows::Fail(k) => OutTable::Fail(k),
                            OutRows::Overflow => OutTable::Overflow,
                            OutRows::Asks(q) => OutTable::Asks(q),
                        },
                    },
                    OutCap::Fail(k) => OutTable::Fail(k),
                    OutCap::Overflow => OutTable::Overflow,
                    OutCap::Asks(q) => OutTable::Asks(q),
                },
                OutList::Fail(k) => OutTable::Fail(k),
                OutList::Overflow => OutTable::Overflow,
                OutList::Asks(q) => OutTable::Asks(q),
            },
        },
    }
}

fn empty_scope(answers: &Answers) -> (sc: RecordScope)
    ensures
        sc@ == empty_scope_view(answers@),
{
    let sc = RecordScope {
        headers: Vec::new(),
        header_idents: Vec::new(),
        record: Vec::new(),
        counting: false,
        taken_idents: Vec::new(),
        taken: Vec::new(),
        answers,
    };
    proof {
        assert(sc@.headers =~= Seq::<Seq<char>>::empty());
        assert(sc@.header_idents =~= Seq::<Seq<char>>::empty());
        assert(sc@.record =~= Seq::<Seq<char>>::empty());
        assert(sc@.taken_idents =~= Seq::<Seq<char>>::empty());
        assert(sc@.taken =~= Seq::<Seq<Seq<char>>>::empty());
    }
    sc
}

/// The rows of a table after a set statement.
pub fn exec_row_update(answers: &Answers, table: &Table, node: &RowUpdateNode) -> (r: Option<
    Result<Vec<Vec<String>>, Error>,
>)
    ensures
        agrees_table(r, update_outcome(answers@, strings_view(table.headers@), rows_view(table.records@), *node)),
{
    let project = match &node.project {
        Some(p) => p,
        None => return Some(Err(make_error(ErrorKind::Exec, "failed to row update"))),
    };
    let list = match &node.expr_list {
        Some(l) => l,
        None => return Some(Err(make_error(ErrorKind::Exec, "failed to row update"))),
    };
    let mut vars = Vars::new();
    let sc = empty_scope(answers);
    let keys = match exec_expr_list(&sc, &mut vars, &**list) {
        Some(Ok(k)) => k,
        Some(Err(e)) => return Some(Err(e)),
        None => return None,
    };
    let updates = var_updates_exec(&keys, &vars);
    let limit = match limit_of(answers, &mut vars, &project.limit) {
        Some(Ok(l)) => l,
        Some(Err(e)) => return Some(Err(e)),
        None => return None,
    };
    let filter = match &project.filter {
        Some(f) => f,
        None => return Some(Err(make_error(ErrorKind::Exec, "invalid state: filter"))),
    };
    let idents = csv_headers_to_idents(&table.headers);
    let ghost vs2 = vars@;
    let matches = match matched_rows(answers, &mut vars, table, &idents, &filter.where_clause) {
        Some(Ok(m)) => m,
        Some(Err(e)) => return Some(Err(e)),
        None => return None,
    };
    proof {
        lemma_matches_len(answers@, 
            strings_view(table.headers@),
            strings_view(idents@),
            rows_view(table.records@),
            vs2,
            filter.where_clause,
            Seq::empty(),
        );
    }
    let taken = chosen_rows(&matches, node.all, limit);
    if taken.len() != table.records.len() {
        return Some(Err(make_error(ErrorKind::Runtime, "rows and flags differ")));
    }
    match rows_updated(&idents, &table.records, &taken, &updates) {
        Ok(rows) => Some(Ok(rows)),
        Err(e) => Some(Err(e)),
    }
}

/// What the expressions of a get statement give: none without a list.
pub open spec fn list_then(ans: AnswersV, vs: Seq<(Seq<char>, ObjectV)>, list: Option<Box<ExprListNode>>) -> OutList {
    match list {
        None => OutList::Vals(Seq::empty(), vs),
        Some(el) => ev_list_from(empty_scope_view(ans), vs, el.exprs@, Seq::empty()),
    }
}

/// The positions of the columns that a get statement prints: all of them
/// for a single `*`, else those its names name.
pub open spec fn printed_positions(ids: Seq<Seq<char>>, objs: Seq<ObjectV>) -> Seq<int> {
    if objs.len() == 1 && objs[0].kind == ObjectKind::Star {
        Seq::new(ids.len(), |i: int| i)
    } else {
        found_positions(ids, objs.map_values(|o: ObjectV| object_text(o)))
    }
}

/// The fields of each row at the positions.
pub open spec fn projected(rows: Seq<Seq<Seq<char>>>, ps: Seq<int>) -> Seq<Seq<Seq<char>>> {
    Seq::new(rows.len(), |r: int| Seq::new(ps.len(), |k: int| rows[r][ps[k]]))
}

/// Whether some row has fewer fields than `n`.
pub open spec fn some_row_short(rows: Seq<Seq<Seq<char>>>, n: int) -> bool {
    exists|r: int| 0 <= r < rows.len() && rows[r].len() < n
}

/// What a get statement prints: the limit is read first, then the where
/// clause on each row; of the rows it takes, where there are any, the
/// fields its expressions name.
pub open spec fn project_outcome(ans: AnswersV, hs: Seq<Seq<char>>, recs: Seq<Seq<Seq<char>>>, p: ProjectNode) -> OutTable {
    let ids = header_idents(hs);
    match limit_then(ans, Seq::empty(), p.limit) {
        OutCap::Val(l, vs1) => match p.filter {
            None => OutTable::Fail(ErrorKind::Exec),
            Some(f) => match ev_matches_from(ans, hs, ids, recs, vs1, f.where_clause, Seq::empty()) {
                OutRows::Vals(m, vs2) => {
                    let rows = picked(recs, chosen(m, row_cap(p.all, l)));
                    if rows.len() == 0 {
                        OutTable::Rows(Seq::empty())
                    } else {
                        match list_then(ans, vs2, p.expr_list) {
                            OutList::Vals(objs, _) => if some_row_short(rows, ids.len() as int) {
                                OutTable::Fail(ErrorKind::Runtime)
                            } else {
                                OutTable::Rows(projected(rows, printed_positions(ids, objs)))
                            },
                            OutList::Fail(k) => OutTable::Fail(k),
                            OutList::Overflow => OutTable::Overflow,
                            OutList::Asks(q) => OutTable::Asks(q),
                        }
                    }
                },
                OutRows::Fail(k) => OutTable::Fail(k),
                OutRows::Overflow => OutTable::Overflow,
                OutRows::Asks(q) => OutTable::Asks(q),
            },
        },
        OutCap::Fail(k) => OutTable::Fail(k),
        OutCap::Overflow => OutTable::Overflow,
        OutCap::Asks(q) => OutTable::Asks(q),
    }
}

/// The rows that a get statement prints, each as the fields it selects.
pub fn exec_project(answers: &Answers, table: &Table, project: &ProjectNode) -> (r: Option<
    Result<Vec<Vec<String>>, Error>,
>)
    ensures
        agrees_table(r, project_outcome(answers@, strings_view(table.headers@), rows_view(table.records@), *project)),
{
    let mut vars = Vars::new();
    let limit = match limit_of(answers, &mut vars, &project.limit) {
        Some(Ok(l)) => l,
        Some(Err(e)) => return Some(Err(e)),
        None => return None,
    };
    let filter = match &project.filter {
        Some(f) => f,
        None => return Some(Err(make_error(ErrorKind::Exec, "invalid state: filter"))),
    };
    let idents = csv_headers_to_idents(&table.headers);
    let ghost ids = strings_view(idents@);
    let ghost vs1 = vars@;
    let matches = match matched_rows(answers, &mut vars, table, &idents, &filter.where_clause) {
        Some(Ok(m)) => m,
        Some(Err(e)) => return Some(Err(e)),
        None => return None,
    };
    proof {
        lemma_matches_len(answers@, 
            strings_view(table.headers@),
            ids,
            rows_view(table.records@),
            vs1,
            filter.where_clause,
            Seq::empty(),
        );
    }
    let taken = chosen_rows(&matches, project.all, limit);
    if taken.len() != table.records.len() {
        return Some(Err(make_error(ErrorKind::Runtime, "rows and flags differ")));
    }
    let rows = filter_rows(&table.records, &taken, true);
    let ghost rs = rows_view(rows@);
    if rows.len() == 0 {
        let none: Vec<Vec<String>> = Vec::new();
        proof {
            assert(rows_view(none@) =~= Seq::<Seq<Seq<char>>>::empty());
            assert(rows_view(none@) =~= projected(rs, Seq::<int>::empty()));
        }
        return Some(Ok(none));
    }
    let objs: Vec<Object> = match &project.expr_list {
        None => {
            let v: Vec<Object> = Vec::new();
            proof {
                assert(objects_view(v@) =~= Seq::<ObjectV>::empty());
            }
            v
        },
        Some(el) => {
            let sc = empty_scope(answers);
            match exec_expr_list(&sc, &mut vars, &**el) {
                Some(Ok(o)) => o,
                Some(Err(e)) => return Some(Err(e)),
                None => return None,
            }
        },
    };
    let ghost ov = objects_view(objs@);
    let indices = match get_indices(&idents, &objs) {
        Ok(v) => v,
        Err(e) => return Some(Err(e)),
    };
    let ghost ps = printed_positions(ids, ov);
    proof {
        assert(objects_texts(objs@) =~= ov.map_values(|o: ObjectV| object_text(o)));
        lemma_found_positions_in_range(ids, ov.map_values(|o: ObjectV| object_text(o)));
        if ov.len() == 1 && ov[0].kind == ObjectKind::Star {
            assert(indices@.map_values(|u: usize| u as int) =~= ps);
        }
        assert(indices@.map_values(|u: usize| u as int) == ps);
        assert forall|k: int| 0 <= k < indices@.len() implies #[trigger] indices@[k] < ids.len() by {
            assert(indices@.map_values(|u: usize| u as int)[k] == indices@[k] as int);
        }
    }
    let mut r: usize = 0;
    let mut short = false;
    while r < rows.len()
        invariant
            rs == rows_view(rows@),
            ids == strings_view(idents@),
            r <= rs.len(),
            short <==> exists|a: int| 0 <= a < r && #[trigger] rs[a].len() < ids.len(),
        decreases rs.len() - r,
    {
        proof {
            assert(rs[r as int] == strings_view(rows@[r as int]@));
        }
        if rows[r].len() < idents.len() {
            short = true;
        }
        r += 1;
    }
    if short {
        return Some(Err(make_error(ErrorKind::Runtime, "record shorter than its header")));
    }
    proof {
        assert forall|a: int| 0 <= a < rs.len() implies ids.len() <= #[trigger] rs[a].len() by {
            if rs[a].len() < ids.len() {
                assert(exists|b: int| 0 <= b < r && #[trigger] rs[b].len() < ids.len());
            }
        }
    }
    let mut out: Vec<Vec<String>> = Vec::new();
    let mut q: usize = 0;
    while q < rows.len()
        invariant
            rs == rows_view(rows@),
            ids == strings_view(idents@),
            forall|a: int| 0 <= a < rs.len() ==> ids.len() <= #[trigger] rs[a].len(),
            forall|k: int| 0 <= k < indices@.len() ==> #[trigger] indices@[k] < ids.len(),
            indices@.map_values(|u: usize| u as int) == ps,
            q <= rs.len(),
            out@.len() == q,
            forall|a: int| 0 <= a < q ==> #[trigger] rows_view(out@)[a] == projected(rs, ps)[a],
        decreases rs.len() - q,
    {
        proof {
            assert(rs[q as int] == strings_view(rows@[q as int]@));
            assert(ids.len() <= rs[q as int].len());
        }
        let fields = match collect_by_indices(&rows[q], &indices) {
            Ok(v) => v,
            Err(e) => return Some(Err(e)),
        };
        let ghost fv = strings_view(fields@);
        proof {
            assert(fv =~= projected(rs, ps)[q as int]) by {
                assert forall|k: int| 0 <= k < ps.len() implies fv[k] == projected(rs, ps)[q as int][k] by {
                    assert(ps[k] == indices@[k] as int);
                    assert(fields@[k]@ == rows@[q as int]@[indices@[k] as int]@);
                }
            }
        }
        let ghost before = out@;
        out.push(fields);
        proof {
            assert forall|a: int| 0 <= a < q + 1 implies #[trigger] rows_view(out@)[a] == projected(rs, ps)[a] by {
                assert(rows_view(out@)[a] == strings_view(out@[a]@));
                if a < q {
                    assert(out@[a] == before[a]);
                    assert(rows_view(before)[a] == strings_view(before[a]@));
                }
            }
        }
        q += 1;
    }
    proof {
        assert(rows_view(out@) =~= projected(rs, ps));
        if some_row_short(rs, ids.len() as int) {
            let a = choose|a: int| 0 <= a < rs.len() && rs[a].len() < ids.len();
            assert(ids.len() <= rs[a].len());
        }
    }
    Some(Ok(out))
}

/// Whether `out` is `rows` sorted by their field at `idx`, rising or
/// falling, rows with the same field in their first order.
#[verifier::opaque]
pub open spec fn sorted_by(rows: Seq<Seq<Seq<char>>>, idx: int, is_asc: bool, out: Seq<Seq<Seq<char>>>) -> bool {
    exists|order: Seq<usize>|
        #![trigger is_permutation(order, rows.len() as int)]
        is_permutation(order, rows.len() as int) && sorted_stably(column_keys(rows, idx), order, is_asc) && out == Seq::new(
            rows.len(),
            |p: int| rows[order[p] as int],
        )
}

/// The sorted rows after the limit, and after keeping the first row only
/// without `ALL`.
pub open spec fn cut(sorted: Seq<Seq<Seq<char>>>, limit: Option<i128>, all: bool) -> Seq<Seq<Seq<char>>> {
    let a = match limit {
        Some(l) => if ((l as usize) as int) < sorted.len() {
            sorted.take((l as usize) as int)
        } else {
            sorted
        },
        None => sorted,
    };
    if !all && a.len() > 1 {
        a.take(1)
    } else {
        a
    }
}

/// Whether `out` is `rows` sorted by their field at `idx` and then cut by
/// the limit and by `ALL`.
#[verifier::opaque]
pub open spec fn sorted_cut(
    rows: Seq<Seq<Seq<char>>>,
    idx: int,
    is_asc: bool,
    limit: Option<i128>,
    all: bool,
    out: Seq<Seq<Seq<char>>>,
) -> bool {
    exists|sorted: Seq<Seq<Seq<char>>>| #[trigger] sorted_by(rows, idx, is_asc, sorted) && out == cut(sorted, limit, all)
}

/// Whether some row has no field past position `idx`.
pub open spec fn some_row_ends_by(rows: Seq<Seq<Seq<char>>>, idx: int) -> bool {
    exists|a: int| 0 <= a < rows.len() && rows[a].len() <= idx
}

/// How far a get statement with `ORDER BY` gets: to the matching rows, the
/// position of the column it sorts by and the limit; or to an error, an
/// overflow, or a question of the host without an answer.
pub enum SortPlan {
    Sort(Seq<Seq<Seq<char>>>, int, Option<i128>),
    Done(Seq<Seq<Seq<char>>>),
    Fail(ErrorKind),
    Overflow,
    Asks(QuestionV),
}

/// The key of `ORDER BY` must be a column name; then the limit is read, the
/// where clause on each row, and the matching rows are sorted.
pub open spec fn sort_plan(ans: AnswersV, hs: Seq<Seq<char>>, recs: Seq<Seq<Seq<char>>>, s: SortNode) -> SortPlan {
    let ids = header_idents(hs);
    let key = match s.expr {
        None => Out::Val(ObjectV { kind: ObjectKind::Nil, ..crate::objects::nil_object() }, Seq::empty()),
        Some(e) => ev_expr(empty_scope_view(ans), Seq::empty(), *e),
    };
    match key {
        Out::Val(k, vs1) => if k.kind != ObjectKind::Ident {
            SortPlan::Fail(ErrorKind::Exec)
        } else {
            match s.project {
                None => SortPlan::Done(Seq::empty()),
                Some(p) => match limit_then(ans, vs1, p.limit) {
                    OutCap::Val(l, vs2) => match p.filter {
                        None => SortPlan::Fail(ErrorKind::Exec),
                        Some(f) => match ev_matches_from(ans, hs, ids, recs, vs2, f.where_clause, Seq::empty()) {
                            OutRows::Vals(m, _) => if !ids.contains(k.ident) {
                                SortPlan::Fail(ErrorKind::Exec)
                            } else {
                                let rows = picked(recs, m);
                                let idx = first_index(ids, k.ident);
                                if rows.len() >= 2 && some_row_ends_by(rows, idx) {
                                    SortPlan::Fail(ErrorKind::Runtime)
                                } else {
                                    SortPlan::Sort(rows, idx, l)
                                }
                            },
                            OutRows::Fail(k) => SortPlan::Fail(k),
                            OutRows::Overflow => SortPlan::Overflow,
                            OutRows::Asks(q) => SortPlan::Asks(q),
                        },
                    },
                    OutCap::Fail(k) => SortPlan::Fail(k),
                    OutCap::Overflow => SortPlan::Overflow,
                    OutCap::Asks(q) => SortPlan::Asks(q),
                },
            }
        },
        Out::Fail(k) => SortPlan::Fail(k),
        Out::Overflow => SortPlan::Overflow,
        Out::Asks(q) => SortPlan::Asks(q),
    }
}

/// The rows that a get statement with `ORDER BY` prints, whole.
pub fn exec_sort(answers: &Answers, table: &Table, sort: &SortNode) -> (r: Option<Result<Vec<Vec<String>>, Error>>)
    ensures
        match sort_plan(answers@, strings_view(table.headers@), rows_view(table.records@), *sort) {
            SortPlan::Sort(rows, idx, l) => r matches Some(Ok(x)) && sorted_cut(rows, idx, sort.is_asc, l, sort.all, rows_view(x@)),
            SortPlan::Done(rs) => r matches Some(Ok(x)) && rows_view(x@) == rs,
            SortPlan::Fail(k) => r matches Some(Err(e)) && e@ == k,
            SortPlan::Overflow => r is None,
            SortPlan::Asks(q) => r matches Some(Err(e)) && e@ == ErrorKind::Unanswered && e.asked() == Some(q),
        },
{
    let mut vars = Vars::new();
    let sc = empty_scope(answers);
    let key = match &sort.expr {
        Some(e) => match exec_expr(&sc, &mut vars, &**e) {
            Some(Ok(k)) => k,
            Some(Err(e)) => return Some(Err(e)),
            None => return None,
        },
        None => Object::new(),
    };
    if key.kind != ObjectKind::Ident {
        return Some(Err(make_error(ErrorKind::Exec, "not ident: order by")));
    }
    let project = match &sort.project {
        Some(p) => p,
        None => {
            let none: Vec<Vec<String>> = Vec::new();
            proof {
                assert(rows_view(none@) =~= Seq::<Seq<Seq<char>>>::empty());
            }
            return Some(Ok(none));
        },
    };
    let limit = match limit_of(answers, &mut vars, &project.limit) {
        Some(Ok(l)) => l,
        Some(Err(e)) => return Some(Err(e)),
        None => return None,
    };
    let filter = match &project.filter {
        Some(f) => f,
        None => return Some(Err(make_error(ErrorKind::Exec, "invalid state: filter"))),
    };
    let idents = csv_headers_to_idents(&table.headers);
    let ghost ids = strings_view(idents@);
    let ghost vs2 = vars@;
    let matches = match matched_rows(answers, &mut vars, table, &idents, &filter.where_clause) {
        Some(Ok(m)) => m,
        Some(Err(e)) => return Some(Err(e)),
        None => return None,
    };
    proof {
        lemma_matches_len(answers@, strings_view(table.headers@), ids, rows_view(table.records@), vs2, filter.where_clause, Seq::empty());
    }
    if matches.len() != table.records.len() {
        return Some(Err(make_error(ErrorKind::Runtime, "rows and flags differ")));
    }
    let index = match position_of(&idents, key.ident.as_str()) {
        Some(i) => i,
        None => return Some(Err(make_error(ErrorKind::Exec, "not found ident in sort"))),
    };
    proof {
        lemma_first_index(ids, key.ident@, index as int);
        assert(ids[index as int] == key.ident@);
        assert(ids.contains(key.ident@));
    }
    let rows = filter_rows(&table.records, &matches, true);
    let ghost rs = rows_view(rows@);
    let mut a: usize = 0;
    let mut short = false;
    while a < rows.len()
        invariant
            rs == rows_view(rows@),
            a <= rs.len(),
            short <==> exists|b: int| 0 <= b < a && #[trigger] rs[b].len() <= index,
        decreases rs.len() - a,
    {
        proof {
            assert(rs[a as int] == strings_view(rows@[a as int]@));
        }
        if rows[a].len() <= index {
            short = true;
        }
        a += 1;
    }
    if rows.len() >= 2 && short {
        proof {
            assert(some_row_ends_by(rs, index as int));
        }
        return Some(Err(make_error(ErrorKind::Runtime, "index out of range in sort")));
    }
    proof {
        if rows.len() >= 2 && some_row_ends_by(rs, index as int) {
            let b = choose|b: int| 0 <= b < rs.len() && rs[b].len() <= index;
            assert(rs[b].len() <= index);
            assert(exists|c: int| 0 <= c < a && #[trigger] rs[c].len() <= index);
        }
    }
    proof {
        assert forall|k: int| 0 <= k < rows@.len() implies index < #[trigger] rows@[k]@.len() || rows@.len() < 2 by {
            assert(rs[k] == strings_view(rows@[k]@));
            if rows@.len() >= 2 && rs[k].len() <= index {
                assert(exists|b: int| 0 <= b < a && #[trigger] rs[b].len() <= index);
            }
        }
    }
    let mut sorted = sort_rows(&rows, index, sort.is_asc);
    let ghost whole = rows_view(sorted@);
    match limit {
        Some(l) => {
            let n = l as usize;
            if n < sorted.len() {
                sorted.truncate(n);
            }
        },
        None => {},
    }
    if !sort.all && sorted.len() > 1 {
        sorted.truncate(1);
    }
    proof {
        assert(rows_view(sorted@) =~= cut(whole, limit, sort.all));
        assert(sorted_by(rs, index as int, sort.is_asc, whole)) by {
            reveal(sorted_by);
        }
        assert(sorted_cut(rs, index as int, sort.is_asc, limit, sort.all, rows_view(sorted@))) by {
            reveal(sorted_cut);
        }
    }
    Some(Ok(sorted))
}

/// What a get statement with functions prints: the limit is read first,
/// then the where clause on each row; then its expressions are evaluated
/// once, in order, over the rows it takes (`COUNT` counts them, any other
/// function is a question of the host over them), each printed as its
/// text.
pub open spec fn aggregate_outcome(ans: AnswersV, hs: Seq<Seq<char>>, recs: Seq<Seq<Seq<char>>>, node: AggregateNode) -> OutTable {
    match limit_then(ans, Seq::empty(), node.limit) {
        OutCap::Val(l, vs1) => match node.filter {
            None => OutTable::Fail(ErrorKind::Exec),
            Some(f) => match ev_matches_from(ans, hs, header_idents(hs), recs, vs1, f.where_clause, Seq::empty()) {
                OutRows::Vals(m, vs2) => match node.expr_list {
                    None => OutTable::Fail(ErrorKind::Exec),
                    Some(el) => match ev_list_from(
                        count_scope(ans, header_idents(hs), picked(recs, chosen(m, row_cap(node.all, l)))),
                        vs2,
                        el.exprs@,
                        Seq::empty(),
                    ) {
                        OutList::Vals(objs, _) => OutTable::Rows(
                            seq![objs.map_values(|o: ObjectV| object_text(o))],
                        ),
                        OutList::Fail(k) => OutTable::Fail(k),
                        OutList::Overflow => OutTable::Overflow,
                        OutList::Asks(q) => OutTable::Asks(q),
                    },
                },
                OutRows::Fail(k) => OutTable::Fail(k),
                OutRows::Overflow => OutTable::Overflow,
                OutRows::Asks(q) => OutTable::Asks(q),
            },
        },
        OutCap::Fail(k) => OutTable::Fail(k),
        OutCap::Overflow => OutTable::Overflow,
        OutCap::Asks(q) => OutTable::Asks(q),
    }
}

/// The scope in which the functions of a get statement are evaluated: no
/// record, and `COUNT` counted over the rows `rows` that it has taken, whose
/// columns are named `ids`.
pub open spec fn count_scope(ans: AnswersV, ids: Seq<Seq<char>>, rows: Seq<Seq<Seq<char>>>) -> RecordScopeV {
    RecordScopeV {
        headers: Seq::empty(),
        header_idents: Seq::empty(),
        record: Seq::empty(),
        counting: true,
        taken_idents: ids,
        taken: rows,
        answers: ans,
    }
}

/// The one row that a get statement with functions prints.
pub fn exec_aggregate(answers: &Answers, table: &Table, node: &AggregateNode) -> (r: Option<
    Result<Vec<Vec<String>>, Error>,
>)
    ensures
        agrees_table(r, aggregate_outcome(answers@, strings_view(table.headers@), rows_view(table.records@), *node)),
{
    let mut vars = Vars::new();
    let limit = match limit_of(answers, &mut vars, &node.limit) {
        Some(Ok(l)) => l,
        Some(Err(e)) => return Some(Err(e)),
        None => return None,
    };
    let filter = match &node.filter {
        Some(f) => f,
        None => return Some(Err(make_error(ErrorKind::Exec, "invalid state: filter"))),
    };
    let idents = csv_headers_to_idents(&table.headers);
    let ghost vs1 = vars@;
    let matches = match matched_rows(answers, &mut vars, table, &idents, &filter.where_clause) {
        Some(Ok(m)) => m,
        Some(Err(e)) => return Some(Err(e)),
        None => return None,
    };
    proof {
        lemma_matches_len(answers@, strings_view(table.headers@), strings_view(idents@), rows_view(table.records@), vs1, filter.where_clause, Seq::empty());
    }
    let list = match &node.expr_list {
        Some(l) => l,
        None => return Some(Err(make_error(ErrorKind::Exec, "invalid state: aggregate"))),
    };
    let taken = chosen_rows(&matches, node.all, limit);
    if taken.len() != table.records.len() {
        return Some(Err(make_error(ErrorKind::Runtime, "rows and flags differ")));
    }
    let rows = filter_rows(&table.records, &taken, true);
    let sc = RecordScope {
        headers: Vec::new(),
        header_idents: Vec::new(),
        record: Vec::new(),
        counting: true,
        taken_idents: copy_row(&idents),
        taken: filter_rows(&table.records, &taken, true),
        answers,
    };
    proof {
        assert(sc@.headers =~= Seq::<Seq<char>>::empty());
        assert(sc@.header_idents =~= Seq::<Seq<char>>::empty());
        assert(sc@.record =~= Seq::<Seq<char>>::empty());
        assert(sc@.taken =~= rows_view(sc.taken@));
        assert(sc@ == count_scope(answers@, 
            header_idents(strings_view(table.headers@)),
            picked(rows_view(table.records@), chosen(matches@, row_cap(node.all, limit))),
        ));
    }
    let ghost vs_list = vars@;
    let objs = match exec_expr_list(&sc, &mut vars, &**list) {
        Some(Ok(o)) => o,
        Some(Err(e)) => return Some(Err(e)),
        None => return None,
    };
    let ghost ov = objects_view(objs@);
    let mut texts: Vec<String> = Vec::new();
    let mut i: usize = 0;
    while i < objs.len()
        invariant
            ov == objects_view(objs@),
            i <= ov.len(),
            texts@.len() == i,
            forall|k: int| 0 <= k < i ==> #[trigger] texts@[k]@ == object_text(ov[k]),
        decreases ov.len() - i,
    {
        texts.push(objs[i].to_string());
        i += 1;
    }
    let mut out: Vec<Vec<String>> = Vec::new();
    out.push(texts);
    proof {
        assert(strings_view(out@[0]@) =~= ov.map_values(|o: ObjectV| object_text(o)));
        assert(rows_view(out@) =~= seq![ov.map_values(|o: ObjectV| object_text(o))]);
    }
    Some(Ok(out))
}

/// What `COUNT` gives over the rows `rows`, whose columns are named `ids`:
/// the number of rows, for `*` or for a column that every row has; an
/// error for another number of arguments, an unknown column, or a row too
/// short for the column.
pub open spec fn count_value(ids: Seq<Seq<char>>, rows: Seq<Seq<Seq<char>>>, args: Seq<ObjectV>) -> Result<
    ObjectV,
    ErrorKind,
> {
    if args.len() != 1 {
        Err(ErrorKind::Exec)
    } else if args[0].kind != ObjectKind::Star && !ids.contains(object_text(args[0])) {
        Err(ErrorKind::Exec)
    } else if args[0].kind != ObjectKind::Star && exists|i: int|
        0 <= i < rows.len() && first_index(ids, object_text(args[0])) >= #[trigger] rows[i].len() {
        Err(ErrorKind::Exec)
    } else {
        Ok(ObjectV { kind: ObjectKind::Int, int_value: rows.len() as i128, ..nil_object() })
    }
}

/// The `COUNT` function over the rows that a get statement takes.
pub fn call_count(idents: &Vec<String>, rows: &Vec<Vec<String>>, args: &Vec<Object>) -> (r: Result<Object, Error>)
    ensures
        match count_value(strings_view(idents@), rows_view(rows@), objects_view(args@)) {
            Ok(v) => r matches Ok(o) && o@ == v,
            Err(k) => r matches Err(e) && e@ == k,
        },
{
    let ghost ids = strings_view(idents@);
    let ghost rs = rows_view(rows@);
    if args.len() != 1 {
        return Err(make_error(ErrorKind::Exec, "invalid args length in count function"));
    }
    let arg = &args[0];
    proof {
        assert(objects_view(args@)[0] == arg@);
    }
    if arg.kind != ObjectKind::Star {
        let ident = arg.to_string();
        let index = match position_of(idents, ident.as_str()) {
            Some(k) => k,
            None => return Err(make_error(ErrorKind::Exec, "invalid column in count")),
        };
        proof {
            lemma_first_index(ids, ident@, index as int);
        }
        let mut i: usize = 0;
        while i < rows.len()
            invariant
                rs == rows_view(rows@),
                ids == strings_view(idents@),
                args@.len() == 1,
                objects_view(args@)[0].kind != ObjectKind::Star,
                ids.contains(object_text(objects_view(args@)[0])),
                first_index(ids, object_text(objects_view(args@)[0])) == index,
                i <= rs.len(),
                forall|j: int| 0 <= j < i ==> index < #[trigger] rs[j].len(),
            decreases rs.len() - i,
        {
            proof {
                assert(rs[i as int].len() == rows@[i as int]@.len());
            }
            if index >= rows[i].len() {
                proof {
                    assert(first_index(ids, object_text(objects_view(args@)[0])) >= rs[i as int].len());
                }
                return Err(make_error(ErrorKind::Exec, "index out of range in count function"));
            }
            i += 1;
        }
    }
    Ok(Object::from_int(rows.len() as i128))
}

/// The numbers of column `k` of the rows `rs`, each read as the column's
/// type from `ts`; the first row that gives no number is an error: a row
/// too short for the column, a field that does not read, or a value that
/// is not a number.
pub open spec fn numbers_of(ts: Seq<HeaderTypeV>, k: int, rs: Seq<Seq<Seq<char>>>) -> Result<Seq<ObjectV>, ErrorKind>
    decreases rs.len(),
{
    if rs.len() == 0 {
        Ok(Seq::empty())
    } else {
        match numbers_of(ts, k, rs.drop_last()) {
            Err(e) => Err(e),
            Ok(done) => if k >= rs.last().len() {
                Err(ErrorKind::Exec)
            } else {
                match cell_value(ts[k], rs.last()[k]) {
                    Ok(o) => if o.kind == ObjectKind::Int || o.kind == ObjectKind::Float {
                        Ok(done.push(o))
                    } else {
                        Err(ErrorKind::Exec)
                    },
                    Err(e) => Err(e),
                }
            },
        }
    }
}

/// The numbers that `SUM`, `AVG`, `MIN` and `MAX` take over the rows
/// `rows`: those of the column that the one argument names; `*`, another
/// number of arguments or an unknown column is an error.
pub open spec fn function_numbers(
    ts: Seq<HeaderTypeV>,
    ids: Seq<Seq<char>>,
    rows: Seq<Seq<Seq<char>>>,
    args: Seq<ObjectV>,
) -> Result<Seq<ObjectV>, ErrorKind> {
    if args.len() != 1 || args[0].kind == ObjectKind::Star || !ids.contains(object_text(args[0])) {
        Err(ErrorKind::Exec)
    } else {
        numbers_of(ts, first_index(ids, object_text(args[0])), rows)
    }
}

proof fn lemma_numbers_stop(ts: Seq<HeaderTypeV>, k: int, rs: Seq<Seq<Seq<char>>>, n: int)
    requires
        0 <= n <= rs.len(),
        numbers_of(ts, k, rs.take(n)) is Err,
    ensures
        numbers_of(ts, k, rs) == numbers_of(ts, k, rs.take(n)),
    decreases rs.len(),
{
    if n == rs.len() {
        assert(rs.take(n) =~= rs);
    } else {
        assert(rs.drop_last().take(n) =~= rs.take(n));
        lemma_numbers_stop(ts, k, rs.drop_last(), n);
    }
}

/// The numbers of the column that a function's argument names, over the
/// rows that a get statement takes; the host adds them up or compares
/// them.
pub fn column_numbers(types: &Vec<HeaderType>, idents: &Vec<String>, rows: &Vec<Vec<String>>, args: &Vec<Object>) -> (r:
    Result<Vec<Object>, Error>)
    requires
        idents@.len() <= types@.len(),
        forall|a: int, f: int|
            0 <= a < rows@.len() && 0 <= f < rows@[a]@.len() ==> #[trigger] rows@[a]@[f]@.len() < usize::MAX / 4,
    ensures
        match function_numbers(types_view(types@), strings_view(idents@), rows_view(rows@), objects_view(args@)) {
            Ok(v) => r matches Ok(x) && objects_view(x@) == v,
            Err(k) => r matches Err(e) && e@ == k,
        },
{
    let ghost ids = strings_view(idents@);
    let ghost rs = rows_view(rows@);
    let ghost ts = types_view(types@);
    if args.len() != 1 || args[0].kind == ObjectKind::Star {
        proof {
            if args@.len() == 1 {
                assert(objects_view(args@)[0] == args@[0]@);
            }
        }
        return Err(make_error(ErrorKind::Exec, "invalid args in function"));
    }
    proof {
        assert(objects_view(args@)[0] == args@[0]@);
    }
    let ident = args[0].to_string();
    let index = match position_of(idents, ident.as_str()) {
        Some(k) => k,
        None => return Err(make_error(ErrorKind::Exec, "invalid column in function")),
    };
    proof {
        lemma_first_index(ids, ident@, index as int);
        assert(rs.take(0) =~= Seq::<Seq<Seq<char>>>::empty());
    }
    let mut out: Vec<Object> = Vec::new();
    proof {
        assert(objects_view(out@) =~= Seq::<ObjectV>::empty());
    }
    let mut i: usize = 0;
    while i < rows.len()
        invariant
            rs == rows_view(rows@),
            ts == types_view(types@),
            index < types@.len(),
            i <= rs.len(),
            function_numbers(ts, strings_view(idents@), rs, objects_view(args@)) == numbers_of(ts, index as int, rs),
            forall|a: int, f: int|
                0 <= a < rows@.len() && 0 <= f < rows@[a]@.len() ==> #[trigger] rows@[a]@[f]@.len() < usize::MAX / 4,
            numbers_of(ts, index as int, rs.take(i as int)) == Ok::<Seq<ObjectV>, ErrorKind>(objects_view(out@)),
        decreases rs.len() - i,
    {
        proof {
            assert(rs.take(i + 1).drop_last() =~= rs.take(i as int));
            assert(rs.take(i + 1).last() == rs[i as int]);
            assert(rs[i as int] == strings_view(rows@[i as int]@));
            assert(ts[index as int] == types@[index as int]@);
        }
        if index >= rows[i].len() {
            proof {
                lemma_numbers_stop(ts, index as int, rs, i + 1);
            }
            return Err(make_error(ErrorKind::Exec, "index out of range in function"));
        }
        proof {
            assert(rs[i as int][index as int] == rows@[i as int]@[index as int]@);
        }
        let o = match types[index].parse_str(rows[i][index].as_str()) {
            Ok(o) => o,
            Err(e) => {
                proof {
                    lemma_numbers_stop(ts, index as int, rs, i + 1);
                }
                return Err(e);
            },
        };
        if o.kind != ObjectKind::Int && o.kind != ObjectKind::Float {
            proof {
                lemma_numbers_stop(ts, index as int, rs, i + 1);
            }
            return Err(make_error(ErrorKind::Exec, "invalid value type in function"));
        }
        let ghost before = objects_view(out@);
        out.push(o);
        proof {
            assert(objects_view(out@) =~= before.push(o@));
        }
        i += 1;
    }
    proof {
        assert(rs.take(i as int) =~= rs);
    }
    Ok(out)
}

proof fn lemma_kept_count(recs: Seq<Seq<Seq<char>>>, taken: Seq<bool>)
    requires
        taken.len() >= recs.len(),
    ensures
        kept(recs, taken).len() + count_true(taken.take(recs.len() as int)) == recs.len(),
        picked(recs, taken).len() == count_true(taken.take(recs.len() as int)),
    decreases recs.len(),
{
    if recs.len() > 0 {
        lemma_kept_count(recs.drop_last(), taken);
        assert(taken.take(recs.len() as int).drop_last() =~= taken.take(recs.len() - 1));
    } else {
        assert(taken.take(0) =~= Seq::<bool>::empty());
    }
}

/// A delete statement removes exactly the rows it takes, and a get statement
/// prints exactly those: as many rows leave the table as are taken, and
/// the others stay.
pub proof fn lemma_delete_removes_taken(recs: Seq<Seq<Seq<char>>>, taken: Seq<bool>)
    requires
        taken.len() == recs.len(),
    ensures
        kept(recs, taken).len() == recs.len() - count_true(taken),
        picked(recs, taken).len() == count_true(taken),
{
    lemma_kept_count(recs, taken);
    assert(taken.take(recs.len() as int) =~= taken);
}

pub(crate) proof fn lemma_all_match_without_where(
    ans: AnswersV,
    hs: Seq<Seq<char>>,
    ids: Seq<Seq<char>>,
    recs: Seq<Seq<Seq<char>>>,
    vs: Seq<(Seq<char>, ObjectV)>,
    acc: Seq<bool>,
)
    ensures
        ev_matches_from(ans, hs, ids, recs, vs, None, acc) == OutRows::Vals(
            acc + Seq::new(recs.len(), |i: int| true),
            vs,
        ),
    decreases recs.len(),
{
    if recs.len() == 0 {
        assert(acc + Seq::new(0, |i: int| true) =~= acc);
    } else {
        lemma_all_match_without_where(ans, hs, ids, recs.drop_first(), vs, acc.push(true));
        assert(acc.push(true) + Seq::new((recs.len() - 1) as nat, |i: int| true) =~= acc + Seq::new(
            recs.len(),
            |i: int| true,
        ));
    }
}

proof fn lemma_kept_none(recs: Seq<Seq<Seq<char>>>, taken: Seq<bool>)
    requires
        taken.len() >= recs.len(),
        forall|i: int| 0 <= i < recs.len() ==> #[trigger] taken[i],
    ensures
        kept(recs, taken) == Seq::<Seq<Seq<char>>>::empty(),
    decreases recs.len(),
{
    if recs.len() > 0 {
        lemma_kept_none(recs.drop_last(), taken);
        assert(taken[recs.len() - 1]);
    }
}

/// `DEL ALL OF t`, with neither a where clause nor a limit, empties the
/// table.
pub proof fn lemma_del_all_empties_table(ans: AnswersV, hs: Seq<Seq<char>>, recs: Seq<Seq<Seq<char>>>, node: RowDeleteNode)
    requires
        node.all,
        node.project matches Some(p) && p.limit is None && (p.filter matches Some(f) && f.where_clause is None),
    ensures
        delete_outcome(ans, hs, recs, node) == OutTable::Rows(Seq::empty()),
{
    let all_rows = Seq::new(recs.len(), |i: int| true);
    lemma_all_match_without_where(ans, hs, header_idents(hs), recs, Seq::empty(), Seq::empty());
    assert(Seq::<bool>::empty() + all_rows =~= all_rows);
    lemma_chosen_rows_count(all_rows, true, None);
    lemma_kept_none(recs, chosen(all_rows, row_cap(true, None)));
}

} // verus!
