//! What an add statement appends: the new rows, filled from the names it
//! assigns or the values in its brackets over the default row, and the
//! columns whose ids are generated for each of them.
use vstd::prelude::*;
use crate::host::{Answers, AnswersV, QuestionV};
use crate::error::{Error, ErrorKind, make_error};
use crate::eval::{RecordScope, strings_view};
use crate::exprs::{OutList, Vars, empty_scope_view, ev_list_from, exec_expr_list, objects_view};
use crate::headers::{
    default_texts, gen_default_record, header_idents, header_types, headers_readable, parse_header_idents,
    try_parse_csv_headers_as_types, types_view,
};
use crate::objects::{HeaderType, HeaderTypeV, Object, ObjectKind, ObjectV, nil_object, object_text};
use crate::order::{copy_row, rows_view};
use crate::parser::{ParenIdentsNode, ParenValuesNode, sv};
use crate::planner::CsvFileAppendNode;
use crate::rows::{
    append_positions, exec_paren_values, fill_row_at, fill_row_in_order, first_index, is_first_index,
    lemma_first_index_exists, literal_objects, placed, rewrite_append_record_by_vars, vars_written,
};
use crate::table::{var_values, var_values_exec};

verus! {

/// The columns whose ids an add statement generates, in order: those that
/// auto increment, up to the first one that does so without being a whole
/// number; whether there is such a column.
pub open spec fn auto_id_columns(ts: Seq<HeaderTypeV>) -> (Seq<usize>, bool)
    decreases ts.len(),
{
    if ts.len() == 0 {
        (Seq::empty(), false)
    } else {
        let (ps, bad) = auto_id_columns(ts.drop_last());
        if bad || !ts.last().is_auto_increment {
            (ps, bad)
        } else if !ts.last().is_int {
            (ps, true)
        } else {
            (ps.push((ts.len() - 1) as usize), false)
        }
    }
}

/// The positions of the columns whose ids are generated, and an error where
/// a column auto increments without being a whole number.
pub fn auto_id_positions(types: &Vec<HeaderType>) -> (r: (Vec<usize>, Option<Error>))
    ensures
        r.0@ == auto_id_columns(types_view(types@)).0,
        auto_id_columns(types_view(types@)).1 <==> r.1 is Some,
        r.1 matches Some(e) ==> e@ == ErrorKind::Exec,
        forall|k: int| 0 <= k < r.0@.len() ==> #[trigger] r.0@[k] < types@.len(),
{
    let ghost ts = types_view(types@);
    let mut ps: Vec<usize> = Vec::new();
    let mut i: usize = 0;
    proof {
        assert(ts.take(0) =~= Seq::<HeaderTypeV>::empty());
    }
    while i < types.len()
        invariant
            ts == types_view(types@),
            i <= ts.len(),
            auto_id_columns(ts.take(i as int)) == (ps@, false),
            forall|k: int| 0 <= k < ps@.len() ==> #[trigger] ps@[k] < i,
        decreases ts.len() - i,
    {
        proof {
            assert(ts.take(i + 1).drop_last() =~= ts.take(i as int));
            assert(ts.take(i + 1).last() == types@[i as int]@);
        }
        if types[i].is_auto_increment {
            if !types[i].is_int {
                proof {
                    lemma_auto_ids_stop(ts, i + 1);
                }
                return (ps, Some(make_error(ErrorKind::Exec, "cannot auto increment. id must be int")));
            }
            ps.push(i);
        }
        i += 1;
    }
    proof {
        assert(ts.take(i as int) =~= ts);
    }
    (ps, None)
}

proof fn lemma_auto_ids_stop(ts: Seq<HeaderTypeV>, n: int)
    requires
        0 <= n <= ts.len(),
        auto_id_columns(ts.take(n)).1,
    ensures
        auto_id_columns(ts) == auto_id_columns(ts.take(n)),
    decreases ts.len(),
{
    if n == ts.len() {
        assert(ts.take(n) =~= ts);
    } else {
        assert(ts.drop_last().take(n) =~= ts.take(n));
        lemma_auto_ids_stop(ts.drop_last(), n);
    }
}

/// The text of a generated id.
pub open spec fn id_text(id: u64) -> Seq<char> {
    object_text(ObjectV { kind: ObjectKind::Int, int_value: id as i128, ..nil_object() })
}

/// `row` with the generated id `ids[k]` at position `ps[k]`, for each `k`
/// in order.
pub open spec fn with_ids(row: Seq<Seq<char>>, ps: Seq<usize>, ids: Seq<u64>) -> Seq<Seq<char>>
    decreases ps.len(),
{
    if ps.len() == 0 {
        row
    } else {
        with_ids(row, ps.drop_last(), ids).update(ps.last() as int, id_text(ids[ps.len() - 1]))
    }
}

/// Puts the generated ids into a new row, each at the position of its
/// column.
pub fn set_auto_increment_ids(row: &mut Vec<String>, positions: &Vec<usize>, ids: &Vec<u64>)
    requires
        ids@.len() >= positions@.len(),
        forall|k: int| 0 <= k < positions@.len() ==> #[trigger] positions@[k] < old(row)@.len(),
    ensures
        strings_view(final(row)@) == with_ids(strings_view(old(row)@), positions@, ids@),
{
    let ghost start = strings_view(row@);
    let mut i: usize = 0;
    proof {
        assert(positions@.take(0) =~= Seq::<usize>::empty());
    }
    while i < positions.len()
        invariant
            ids@.len() >= positions@.len(),
            forall|k: int| 0 <= k < positions@.len() ==> #[trigger] positions@[k] < start.len(),
            row@.len() == start.len(),
            i <= positions@.len(),
            strings_view(row@) == with_ids(start, positions@.take(i as int), ids@),
        decreases positions@.len() - i,
    {
        proof {
            assert(positions@.take(i + 1).drop_last() =~= positions@.take(i as int));
            assert(positions@.take(i + 1).last() == positions@[i as int]);
        }
        let text = Object::from_int(ids[i] as i128).to_string();
        let ghost before = strings_view(row@);
        let p = positions[i];
        row.set(p, text);
        proof {
            assert(strings_view(row@) =~= before.update(p as int, id_text(ids@[i as int])));
        }
        i += 1;
    }
    proof {
        assert(positions@.take(i as int) =~= positions@);
    }
}

/// The row of default values of a header row.
pub open spec fn default_row(hs: Seq<Seq<char>>) -> Result<Seq<Seq<char>>, ErrorKind> {
    match header_types(hs) {
        Err(k) => Err(k),
        Ok(ts) => default_texts(ts),
    }
}

/// The texts of the values in each pair of brackets; the first value that
/// is no literal is an error.
pub open spec fn values_texts(ns: Seq<Box<ParenValuesNode>>) -> Result<Seq<Seq<Seq<char>>>, ErrorKind>
    decreases ns.len(),
{
    if ns.len() == 0 {
        Ok(Seq::empty())
    } else {
        match values_texts(ns.drop_last()) {
            Err(k) => Err(k),
            Ok(ls) => match literal_objects(sv(ns.last().values@)) {
                Err(k) => Err(k),
                Ok(os) => Ok(ls.push(os.map_values(|o: ObjectV| object_text(o)))),
            },
        }
    }
}

/// The names in the brackets of an add statement.
pub open spec fn idents_texts(pi: ParenIdentsNode) -> Seq<Seq<char>> {
    pi.idents@.map_values(|b: Box<crate::parser::IdentNode>| b.value@)
}

/// The first position of each name among the column names.
pub open spec fn name_positions(hids: Seq<Seq<char>>, names: Seq<Seq<char>>) -> Seq<usize> {
    Seq::new(names.len(), |k: int| first_index(hids, names[k]) as usize)
}

/// Whether every list has one value per name and every name is a column.
pub open spec fn names_fit(hids: Seq<Seq<char>>, names: Seq<Seq<char>>, ls: Seq<Seq<Seq<char>>>) -> bool {
    &&& forall|k: int| 0 <= k < ls.len() ==> #[trigger] ls[k].len() == names.len()
    &&& forall|k: int| 0 <= k < names.len() ==> hids.contains(#[trigger] names[k])
}

/// The rows made of the value lists in order over the default row `d`, up
/// to the first list longer than the row; whether there is one.
pub open spec fn in_order_rows(d: Seq<Seq<char>>, ls: Seq<Seq<Seq<char>>>) -> (Seq<Seq<Seq<char>>>, bool)
    decreases ls.len(),
{
    if ls.len() == 0 {
        (Seq::empty(), false)
    } else {
        let (rs, stop) = in_order_rows(d, ls.drop_last());
        if stop || ls.last().len() > d.len() {
            (rs, true)
        } else {
            (rs.push(ls.last() + d.skip(ls.last().len() as int)), false)
        }
    }
}

/// What an add statement makes: its new rows before their ids, and the
/// error after them where one stops the statement midway; an error before
/// any row, an overflow, or a question of the host without an answer.
pub enum OutAppend {
    Rows(Seq<Seq<Seq<char>>>, Option<ErrorKind>),
    Fail(ErrorKind),
    Overflow,
    Asks(QuestionV),
}

/// The new rows of an add statement, whose table has the header row `hs`:
/// one row with the values of the names its list assigns; one row per pair
/// of brackets, its values put at the columns that the names in brackets
/// give, or in order from the first column; or one row of default values.
pub open spec fn append_outcome(ans: AnswersV, hs: Seq<Seq<char>>, vs: Seq<(Seq<char>, ObjectV)>, node: CsvFileAppendNode) -> OutAppend {
    let hids = header_idents(hs);
    match node.expr_list {
        Some(el) => match default_row(hs) {
            Err(k) => OutAppend::Fail(k),
            Ok(d) => match ev_list_from(empty_scope_view(ans), vs, el.exprs@, Seq::empty()) {
                OutList::Vals(keys, vs1) => if hids.len() > d.len() {
                    OutAppend::Fail(ErrorKind::Runtime)
                } else {
                    match vars_written(hids, d, var_values(keys, vs1)) {
                        Ok(row) => OutAppend::Rows(seq![row], None),
                        Err(k) => OutAppend::Fail(k),
                    }
                },
                OutList::Fail(k) => OutAppend::Fail(k),
                OutList::Overflow => OutAppend::Overflow,
                OutList::Asks(q) => OutAppend::Asks(q),
            },
        },
        None => if node.paren_values_list.len() > 0 {
            match values_texts(node.paren_values_list@) {
                Err(k) => OutAppend::Fail(k),
                Ok(ls) => match node.paren_idents {
                    Some(pi) => if !names_fit(hids, idents_texts(*pi), ls) {
                        OutAppend::Fail(ErrorKind::Exec)
                    } else {
                        let ps = name_positions(hids, idents_texts(*pi));
                        match default_row(hs) {
                            Err(k) => OutAppend::Fail(k),
                            Ok(d) => if exists|k: int| 0 <= k < ps.len() && #[trigger] ps[k] >= d.len() {
                                OutAppend::Fail(ErrorKind::Runtime)
                            } else {
                                OutAppend::Rows(ls.map_values(|l: Seq<Seq<char>>| placed(d, ps, l)), None)
                            },
                        }
                    },
                    None => match default_row(hs) {
                        Err(k) => OutAppend::Fail(k),
                        Ok(d) => {
                            let (rs, stop) = in_order_rows(d, ls);
                            OutAppend::Rows(
                                rs,
                                if stop {
                                    Some(ErrorKind::Exec)
                                } else {
                                    None
                                },
                            )
                        },
                    },
                },
            }
        } else {
            match default_row(hs) {
                Err(k) => OutAppend::Fail(k),
                Ok(d) => OutAppend::Rows(seq![d], None),
            }
        },
    }
}

pub open spec fn agrees_append(r: Option<Result<(Vec<Vec<String>>, Option<Error>), Error>>, o: OutAppend) -> bool {
    match o {
        OutAppend::Rows(rs, stop) => r matches Some(Ok((x, s))) && rows_view(x@) == rs && match stop {
            None => s is None,
            Some(k) => s matches Some(e) && e@ == k,
        },
        OutAppend::Fail(k) => r matches Some(Err(e)) && e@ == k,
        OutAppend::Overflow => r is None,
        OutAppend::Asks(q) => r matches Some(Err(e)) && e@ == ErrorKind::Unanswered && e.asked() == Some(q),
    }
}

fn texts_of(objs: &Vec<Object>) -> (r: Vec<String>)
    ensures
        strings_view(r@) == objects_view(objs@).map_values(|o: ObjectV| object_text(o)),
{
    let mut out: Vec<String> = Vec::new();
    let mut i: usize = 0;
    while i < objs.len()
        invariant
            i <= objs@.len(),
            strings_view(out@) == objects_view(objs@).map_values(|o: ObjectV| object_text(o)).take(i as int),
        decreases objs@.len() - i,
    {
        let ghost before = strings_view(out@);
        let t = objs[i].to_string();
        let ghost tv = t@;
        out.push(t);
        proof {
            assert(objects_view(objs@)[i as int] == objs@[i as int]@);
            assert(tv == object_text(objects_view(objs@)[i as int]));
            assert(strings_view(out@) =~= before.push(tv));
            assert(strings_view(out@) =~= objects_view(objs@).map_values(|o: ObjectV| object_text(o)).take(i + 1));
        }
        i += 1;
    }
    proof {
        assert(objects_view(objs@).map_values(|o: ObjectV| object_text(o)).take(i as int) =~= objects_view(
            objs@,
        ).map_values(|o: ObjectV| object_text(o)));
    }
    out
}

proof fn lemma_values_texts_stop(ns: Seq<Box<ParenValuesNode>>, n: int)
    requires
        0 <= n <= ns.len(),
        values_texts(ns.take(n)) is Err,
    ensures
        values_texts(ns) == values_texts(ns.take(n)),
    decreases ns.len(),
{
    if n == ns.len() {
        assert(ns.take(n) =~= ns);
    } else {
        assert(ns.drop_last().take(n) =~= ns.take(n));
        lemma_values_texts_stop(ns.drop_last(), n);
    }
}

/// The texts of the values in each pair of brackets.
pub fn paren_values_texts(nodes: &Vec<Box<ParenValuesNode>>) -> (r: Result<Vec<Vec<String>>, Error>)
    ensures
        match values_texts(nodes@) {
            Ok(ls) => r matches Ok(x) && rows_view(x@) == ls,
            Err(k) => r matches Err(e) && e@ == k,
        },
{
    let ghost ns = nodes@;
    let mut out: Vec<Vec<String>> = Vec::new();
    let mut i: usize = 0;
    proof {
        assert(ns.take(0) =~= Seq::<Box<ParenValuesNode>>::empty());
        assert(rows_view(out@) =~= Seq::<Seq<Seq<char>>>::empty());
    }
    while i < nodes.len()
        invariant
            ns == nodes@,
            i <= ns.len(),
            values_texts(ns.take(i as int)) == Ok::<Seq<Seq<Seq<char>>>, ErrorKind>(rows_view(out@)),
        decreases ns.len() - i,
    {
        proof {
            assert(ns.take(i + 1).drop_last() =~= ns.take(i as int));
            assert(ns.take(i + 1).last() == ns[i as int]);
        }
        let objs = match exec_paren_values(&*nodes[i]) {
            Ok(o) => o,
            Err(e) => {
                proof {
                    lemma_values_texts_stop(ns, i + 1);
                }
                return Err(e);
            },
        };
        proof {
            assert(objects_view(objs@) =~= objs@.map_values(|o: Object| o@));
        }
        let texts = texts_of(&objs);
        let ghost before = rows_view(out@);
        out.push(texts);
        proof {
            assert(rows_view(out@) =~= before.push(strings_view(texts@)));
        }
        i += 1;
    }
    proof {
        assert(ns.take(i as int) =~= ns);
    }
    Ok(out)
}

/// The names in the brackets of an add statement.
pub fn ident_names(pi: &ParenIdentsNode) -> (r: Vec<String>)
    ensures
        strings_view(r@) == idents_texts(*pi),
{
    let mut out: Vec<String> = Vec::new();
    let mut i: usize = 0;
    while i < pi.idents.len()
        invariant
            i <= pi.idents@.len(),
            strings_view(out@) == idents_texts(*pi).take(i as int),
        decreases pi.idents@.len() - i,
    {
        let ghost before = strings_view(out@);
        let name = pi.idents[i].value.clone();
        let ghost nv = name@;
        out.push(name);
        proof {
            assert(idents_texts(*pi)[i as int] == nv);
            assert(strings_view(out@) =~= before.push(nv));
            assert(strings_view(out@) =~= idents_texts(*pi).take(i + 1));
        }
        i += 1;
    }
    proof {
        assert(idents_texts(*pi).take(i as int) =~= idents_texts(*pi));
    }
    out
}

proof fn lemma_in_order_stop(d: Seq<Seq<char>>, ls: Seq<Seq<Seq<char>>>, n: int)
    requires
        0 <= n <= ls.len(),
        in_order_rows(d, ls.take(n)).1,
    ensures
        in_order_rows(d, ls) == in_order_rows(d, ls.take(n)),
    decreases ls.len(),
{
    if n == ls.len() {
        assert(ls.take(n) =~= ls);
    } else {
        assert(ls.drop_last().take(n) =~= ls.take(n));
        lemma_in_order_stop(d, ls.drop_last(), n);
    }
}

proof fn lemma_vars_written_len(hids: Seq<Seq<char>>, row: Seq<Seq<char>>, ups: Seq<(Seq<char>, Option<Seq<char>>)>)
    requires
        hids.len() <= row.len(),
    ensures
        vars_written(hids, row, ups) matches Ok(w) ==> w.len() == row.len(),
    decreases ups.len(),
{
    if ups.len() > 0 {
        lemma_vars_written_len(hids, row, ups.drop_last());
        if hids.contains(ups.last().0) {
            lemma_first_index_exists(hids, ups.last().0);
        }
    }
}

/// The new rows of an add statement, before their generated ids, and the
/// error that stops the statement after them, if one does; `vars` holds
/// the names assigned so far.
pub fn append_rows(answers: &Answers, vars: &mut Vars, headers: &Vec<String>, node: &CsvFileAppendNode) -> (r: Option<
    Result<(Vec<Vec<String>>, Option<Error>), Error>,
>)
    requires
        headers_readable(strings_view(headers@)),
    ensures
        agrees_append(r, append_outcome(answers@, strings_view(headers@), old(vars)@, *node)),
{
    let ghost hs = strings_view(headers@);
    let hids = match parse_header_idents(headers) {
        Ok(h) => h,
        Err(e) => return Some(Err(e)),
    };
    let ghost ids = strings_view(hids@);
    if let Some(list) = &node.expr_list {
        let mut row = match gen_default_record(headers) {
            Ok(d) => d,
            Err(e) => return Some(Err(e)),
        };
        let sc = RecordScope {
        headers: Vec::new(),
        header_idents: Vec::new(),
        record: Vec::new(),
        counting: false,
        taken_idents: Vec::new(),
        taken: Vec::new(),
        answers,
    };
        proof {
            assert(sc@.headers =~= Seq::<Seq<char>>::empty());
            assert(sc@.header_idents =~= Seq::<Seq<char>>::empty());
            assert(sc@.record =~= Seq::<Seq<char>>::empty());
            assert(sc@.taken_idents =~= Seq::<Seq<char>>::empty());
            assert(sc@.taken =~= Seq::<Seq<Seq<char>>>::empty());
        }
        let keys = match exec_expr_list(&sc, vars, &**list) {
            Some(Ok(k)) => k,
            Some(Err(e)) => return Some(Err(e)),
            None => return None,
        };
        if hids.len() > row.len() {
            return Some(Err(make_error(ErrorKind::Runtime, "header row longer than its record")));
        }
        let updates = var_values_exec(&keys, vars);
        proof {
            assert forall|k: int|
                0 <= k < updates@.len() && ids.contains(#[trigger] updates@[k].0@) implies first_index(
                ids,
                updates@[k].0@,
            ) < row@.len() by {
                lemma_first_index_exists(ids, updates@[k].0@);
            }
        }
        let ghost d0 = strings_view(row@);
        proof {
            lemma_vars_written_len(ids, d0, crate::rows::var_pairs_view(updates@));
        }
        match rewrite_append_record_by_vars(headers, &mut row, &updates) {
            Ok(()) => {},
            Err(e) => return Some(Err(e)),
        }
        let mut rows: Vec<Vec<String>> = Vec::new();
        let ghost rv = strings_view(row@);
        rows.push(row);
        proof {
            assert(rows_view(rows@) =~= seq![rv]);
        }
        return Some(Ok((rows, None)));
    }
    if node.paren_values_list.len() == 0 {
        let d = match gen_default_record(headers) {
            Ok(d) => d,
            Err(e) => return Some(Err(e)),
        };
        let mut rows: Vec<Vec<String>> = Vec::new();
        let ghost dv = strings_view(d@);
        rows.push(d);
        proof {
            assert(rows_view(rows@) =~= seq![dv]);
        }
        return Some(Ok((rows, None)));
    }
    let lists = match paren_values_texts(&node.paren_values_list) {
        Ok(l) => l,
        Err(e) => return Some(Err(e)),
    };
    let ghost ls = rows_view(lists@);
    let mut rows: Vec<Vec<String>> = Vec::new();
    proof {
        assert(rows_view(rows@) =~= Seq::<Seq<Seq<char>>>::empty());
    }
    match &node.paren_idents {
        Some(pi) => {
            let names = ident_names(&**pi);
            let ghost nm = strings_view(names@);
            let positions = match append_positions(&hids, &names, &lists) {
                Ok(p) => p,
                Err(e) => {
                    proof {
                        if names_fit(ids, nm, ls) {
                            assert forall|k: int| 0 <= k < lists@.len() implies #[trigger] lists@[k]@.len()
                                == names@.len() by {
                                assert(ls[k].len() == lists@[k]@.len());
                            }
                            assert forall|k: int| 0 <= k < names@.len() implies ids.contains(
                                #[trigger] names@[k]@,
                            ) by {
                                assert(nm[k] == names@[k]@);
                            }
                        }
                    }
                    return Some(Err(e));
                },
            };
            let ghost ps = name_positions(ids, nm);
            proof {
                assert forall|k: int| 0 <= k < ls.len() implies #[trigger] ls[k].len() == nm.len() by {
                    assert(ls[k].len() == lists@[k]@.len());
                }
                assert forall|k: int| 0 <= k < nm.len() implies ids.contains(#[trigger] nm[k]) by {
                    assert(nm[k] == names@[k]@);
                    assert(is_first_index(ids, names@[k]@, positions@[k] as int));
                }
                assert forall|k: int| 0 <= k < nm.len() implies #[trigger] positions@[k] == ps[k] by {
                    assert(nm[k] == names@[k]@);
                    crate::rows::lemma_first_index(ids, names@[k]@, positions@[k] as int);
                }
                assert(positions@ =~= ps);
            }
            let d = match gen_default_record(headers) {
                Ok(d) => d,
                Err(e) => return Some(Err(e)),
            };
            let ghost dv = strings_view(d@);
            let ghost target = append_outcome(answers@, hs, old(vars)@, *node);
            proof {
                assert(target == (if exists|k: int| 0 <= k < ps.len() && #[trigger] ps[k] >= dv.len() {
                    OutAppend::Fail(ErrorKind::Runtime)
                } else {
                    OutAppend::Rows(ls.map_values(|l: Seq<Seq<char>>| placed(dv, ps, l)), None)
                }));
            }
            let mut j: usize = 0;
            while j < positions.len()
                invariant
                    j <= positions@.len(),
                    hs == strings_view(headers@),
                    positions@ == ps,
                    dv == strings_view(d@),
                    target == (if exists|k: int| 0 <= k < ps.len() && #[trigger] ps[k] >= dv.len() {
                        OutAppend::Fail(ErrorKind::Runtime)
                    } else {
                        OutAppend::Rows(ls.map_values(|l: Seq<Seq<char>>| placed(dv, ps, l)), None)
                    }),
                    target == append_outcome(answers@, hs, old(vars)@, *node),
                    forall|k: int| 0 <= k < j ==> #[trigger] positions@[k] < d@.len(),
                decreases positions@.len() - j,
            {
                if positions[j] >= d.len() {
                    proof {
                        assert(ps[j as int] >= dv.len());
                    }
                    return Some(Err(make_error(ErrorKind::Runtime, "header row longer than its record")));
                }
                j += 1;
            }
            let mut i: usize = 0;
            while i < lists.len()
                invariant
                    ls == rows_view(lists@),
                    dv == strings_view(d@),
                    positions@ == ps,
                    forall|k: int| 0 <= k < lists@.len() ==> #[trigger] lists@[k]@.len() == positions@.len(),
                    forall|k: int| 0 <= k < positions@.len() ==> #[trigger] positions@[k] < d@.len(),
                    i <= ls.len(),
                    rows_view(rows@) == ls.take(i as int).map_values(|l: Seq<Seq<char>>| placed(dv, ps, l)),
                decreases ls.len() - i,
            {
                let mut row = copy_row(&d);
                proof {
                    assert(ls[i as int] == strings_view(lists@[i as int]@));
                    assert(strings_view(row@).len() == row@.len());
                    assert(strings_view(d@).len() == d@.len());
                }
                fill_row_at(&mut row, &positions, &lists[i]);
                let ghost before = rows_view(rows@);
                let ghost rv = strings_view(row@);
                rows.push(row);
                proof {
                    assert(rows_view(rows@) =~= before.push(rv));
                    assert(ls.take(i + 1).map_values(|l: Seq<Seq<char>>| placed(dv, ps, l)) =~= ls.take(
                        i as int,
                    ).map_values(|l: Seq<Seq<char>>| placed(dv, ps, l)).push(placed(dv, ps, ls[i as int])));
                }
                i += 1;
            }
            proof {
                assert(ls.take(i as int) =~= ls);
                assert forall|k: int| 0 <= k < lists@.len() implies #[trigger] ls[k].len() == nm.len() by {
                    assert(ls[k].len() == lists@[k]@.len());
                }
            }
            Some(Ok((rows, None)))
        },
        None => {
            let d = match gen_default_record(headers) {
                Ok(d) => d,
                Err(e) => return Some(Err(e)),
            };
            let ghost dv = strings_view(d@);
            let ghost target = append_outcome(answers@, hs, old(vars)@, *node);
            proof {
                assert(target == OutAppend::Rows(
                    in_order_rows(dv, ls).0,
                    if in_order_rows(dv, ls).1 {
                        Some(ErrorKind::Exec)
                    } else {
                        None
                    },
                ));
            }
            let mut i: usize = 0;
            proof {
                assert(ls.take(0) =~= Seq::<Seq<Seq<char>>>::empty());
            }
            while i < lists.len()
                invariant
                    ls == rows_view(lists@),
                    dv == strings_view(d@),
                    hs == strings_view(headers@),
                    target == append_outcome(answers@, hs, old(vars)@, *node),
                    target == OutAppend::Rows(
                        in_order_rows(dv, ls).0,
                        if in_order_rows(dv, ls).1 {
                            Some(ErrorKind::Exec)
                        } else {
                            None
                        },
                    ),
                    i <= ls.len(),
                    in_order_rows(dv, ls.take(i as int)) == (rows_view(rows@), false),
                decreases ls.len() - i,
            {
                proof {
                    assert(ls.take(i + 1).drop_last() =~= ls.take(i as int));
                    assert(ls.take(i + 1).last() == ls[i as int]);
                    assert(ls[i as int] == strings_view(lists@[i as int]@));
                }
                let mut row = copy_row(&d);
                match fill_row_in_order(&mut row, &lists[i]) {
                    Ok(()) => {},
                    Err(e) => {
                        proof {
                            assert(strings_view(d@).len() == d@.len());
                            assert(strings_view(lists@[i as int]@).len() == lists@[i as int]@.len());
                            assert(ls[i as int].len() > dv.len());
                            assert(in_order_rows(dv, ls.take(i + 1)) == (rows_view(rows@), true));
                            lemma_in_order_stop(dv, ls, i + 1);
                        }
                        return Some(Ok((rows, Some(e))));
                    },
                }
                let ghost before = rows_view(rows@);
                let ghost rv = strings_view(row@);
                rows.push(row);
                proof {
                    assert(rows_view(rows@) =~= before.push(rv));
                }
                i += 1;
            }
            proof {
                assert(ls.take(i as int) =~= ls);
            }
            Some(Ok((rows, None)))
        },
    }
}

/// The new rows of an add statement where the default values of the
/// header row read; `None` where one does not.
pub fn try_append_rows(answers: &Answers, vars: &mut Vars, headers: &Vec<String>, node: &CsvFileAppendNode) -> (r:
    Option<Option<Result<(Vec<Vec<String>>, Option<Error>), Error>>>)
    ensures
        r is None <==> !headers_readable(strings_view(headers@)),
        r is None ==> final(vars)@ == old(vars)@,
        r matches Some(res) ==> agrees_append(res, append_outcome(answers@, strings_view(headers@), old(vars)@, *node)),
{
    match try_parse_csv_headers_as_types(headers) {
        None => None,
        Some(_) => Some(append_rows(answers, vars, headers, node)),
    }
}

/// In a row filled from the names in brackets, each value stands in the
/// column that its name gives, where no name is repeated, and every other
/// column keeps its default value.
pub proof fn lemma_named_values_land(d: Seq<Seq<char>>, ps: Seq<usize>, l: Seq<Seq<char>>)
    requires
        l.len() >= ps.len(),
        forall|k: int| 0 <= k < ps.len() ==> #[trigger] ps[k] < d.len(),
        forall|a: int, b: int| 0 <= a < b < ps.len() ==> ps[a] != ps[b],
    ensures
        placed(d, ps, l).len() == d.len(),
        forall|j: int| 0 <= j < ps.len() ==> placed(d, ps, l)[#[trigger] ps[j] as int] == l[j],
        forall|i: int| 0 <= i < d.len() && !ps.contains(i as usize) ==> #[trigger] placed(d, ps, l)[i] == d[i],
    decreases ps.len(),
{
    if ps.len() > 0 {
        let q = ps.drop_last();
        lemma_named_values_land(d, q, l);
        assert forall|j: int| 0 <= j < ps.len() implies placed(d, ps, l)[#[trigger] ps[j] as int] == l[j] by {
            if j < ps.len() - 1 {
                assert(q[j] == ps[j]);
                assert(ps[j] != ps[ps.len() - 1]);
            }
        }
        assert forall|i: int| 0 <= i < d.len() && !ps.contains(i as usize) implies #[trigger] placed(d, ps, l)[i]
            == d[i] by {
            assert(ps[ps.len() - 1] != i as usize);
            if q.contains(i as usize) {
                let k = choose|k: int| 0 <= k < q.len() && q[k] == i as usize;
                assert(ps[k] == i as usize);
            }
        }
    }
}

} // verus!
