//! Statements that change a column of a table: the rows that their scan
//! visits, and the rows that each of them writes back for those.
use vstd::prelude::*;
use crate::host::{Answers, AnswersV, QuestionV};
use crate::error::{Error, ErrorKind, make_error};
use crate::eval::strings_view;
use crate::exprs::{Vars};
use crate::headers::{
    csv_headers_to_idents, default_texts, gen_default_record, header_idents, header_types, headers_readable,
    parse_csv_headers_as_types, same_str, try_gen_default_record, try_parse_csv_headers_as_types, types_view,
};
use crate::objects::{HeaderType, HeaderTypeV, cell_value, header_text, object_text};
use crate::parser::ctv;
use crate::grammar::ColumnType;
use crate::order::{copy_row, rows_view};
use crate::planner::{ColumnAddNode, ColumnAlterTypeNode, ColumnDropNode, ColumnRenameNode, CsvFileRewriteNode, ProjectNode};
use crate::rows::{
    after_retype, alter_field_column_type, alter_headers_column_type, drop_headers_column, drop_record_column, first_index,
    headers_without, is_first_index, lemma_first_index, rename_headers_column, renamed, retyped, type_idents, without,
};
use crate::table::{
    OutCap, OutRows, OutTable, Table, agrees_table, delete_outcome, ev_matches_from, exec_row_delete, exec_row_update,
    filter_rows, lemma_all_match_without_where, lemma_matches_len, limit_of, limit_then, matched_rows, picked,
    update_outcome,
};

verus! {

/// The rows that the scan of a column statement visits: the limit is read
/// first (it stops get statements only), then the where clause on each
/// row; the rows that it matches are visited, in order.
pub open spec fn scan_outcome(ans: AnswersV, hs: Seq<Seq<char>>, recs: Seq<Seq<Seq<char>>>, p: ProjectNode) -> OutTable {
    match limit_then(ans, Seq::empty(), p.limit) {
        OutCap::Val(_, vs1) => match p.filter {
            None => OutTable::Fail(ErrorKind::Exec),
            Some(f) => match ev_matches_from(ans, hs, header_idents(hs), recs, vs1, f.where_clause, Seq::empty()) {
                OutRows::Vals(m, _) => OutTable::Rows(picked(recs, m)),
                OutRows::Fail(k) => OutTable::Fail(k),
                OutRows::Overflow => OutTable::Overflow,
                OutRows::Asks(q) => OutTable::Asks(q),
            },
        },
        OutCap::Fail(k) => OutTable::Fail(k),
        OutCap::Overflow => OutTable::Overflow,
        OutCap::Asks(q) => OutTable::Asks(q),
    }
}

/// Whether every row of `rs` is a row of `recs`.
pub open spec fn rows_of(rs: Seq<Seq<Seq<char>>>, recs: Seq<Seq<Seq<char>>>) -> bool {
    forall|i: int| 0 <= i < rs.len() ==> #[trigger] recs.contains(rs[i])
}

proof fn lemma_picked_rows_of(recs: Seq<Seq<Seq<char>>>, taken: Seq<bool>)
    ensures
        rows_of(picked(recs, taken), recs),
    decreases recs.len(),
{
    if recs.len() > 0 {
        lemma_picked_rows_of(recs.drop_last(), taken);
        let rest = picked(recs.drop_last(), taken);
        assert forall|i: int| 0 <= i < picked(recs, taken).len() implies #[trigger] recs.contains(
            picked(recs, taken)[i],
        ) by {
            if i < rest.len() {
                assert(picked(recs, taken)[i] == rest[i]);
                assert(recs.drop_last().contains(rest[i]));
                let j = choose|j: int| 0 <= j < recs.drop_last().len() && recs.drop_last()[j] == rest[i];
                assert(recs[j] == rest[i]);
            } else {
                assert(recs[recs.len() - 1] == recs.last());
            }
        }
    }
}

proof fn lemma_picked_all(recs: Seq<Seq<Seq<char>>>, taken: Seq<bool>)
    requires
        taken.len() >= recs.len(),
        forall|i: int| 0 <= i < recs.len() ==> #[trigger] taken[i],
    ensures
        picked(recs, taken) == recs,
    decreases recs.len(),
{
    if recs.len() > 0 {
        lemma_picked_all(recs.drop_last(), taken);
        assert(taken[recs.len() - 1]);
        assert(recs.drop_last().push(recs.last()) =~= recs);
    }
}

/// A scan with neither a where clause nor a limit, as the planner makes for
/// column statements, visits every row of the table, in order; so a rename
/// writes back every row unchanged.
pub proof fn lemma_full_scan_visits_every_row(
    ans: AnswersV,
    hs: Seq<Seq<char>>,
    recs: Seq<Seq<Seq<char>>>,
    p: ProjectNode,
    node: ColumnRenameNode,
)
    requires
        p.limit is None,
        p.filter matches Some(f) && f.where_clause is None,
        node.project == Some(Box::new(p)),
    ensures
        scan_outcome(ans, hs, recs, p) == OutTable::Rows(recs),
        rename_outcome(ans, hs, recs, node) == OutTable::Rows(recs),
{
    let all_rows = Seq::new(recs.len(), |i: int| true);
    lemma_all_match_without_where(ans, hs, header_idents(hs), recs, Seq::empty(), Seq::empty());
    assert(Seq::<bool>::empty() + all_rows =~= all_rows);
    lemma_picked_all(recs, all_rows);
}

/// The rows of the table that the scan `project` visits.
pub fn scanned_rows(answers: &Answers, table: &Table, project: &ProjectNode) -> (r: Option<
    Result<Vec<Vec<String>>, Error>,
>)
    ensures
        agrees_table(r, scan_outcome(answers@, strings_view(table.headers@), rows_view(table.records@), *project)),
        r matches Some(Ok(x)) ==> rows_of(rows_view(x@), rows_view(table.records@)),
{
    let mut vars = Vars::new();
    let lim = match limit_of(answers, &mut vars, &project.limit) {
        Some(Ok(l)) => l,
        Some(Err(e)) => return Some(Err(e)),
        None => return None,
    };
    let filter = match &project.filter {
        Some(f) => f,
        None => return Some(Err(make_error(ErrorKind::Exec, "invalid state: filter"))),
    };
    let idents = csv_headers_to_idents(&table.headers);
    let ghost vs1 = vars@;
    let matches = match matched_rows(answers, &mut vars, table, &idents, &filter.where_clause) {
        Some(Ok(m)) => m,
        Some(Err(e)) => return Some(Err(e)),
        None => return None,
    };
    proof {
        lemma_matches_len(answers@, 
            strings_view(table.headers@),
            strings_view(idents@),
            rows_view(table.records@),
            vs1,
            filter.where_clause,
            Seq::empty(),
        );
    }
    if matches.len() != table.records.len() {
        return Some(Err(make_error(ErrorKind::Runtime, "rows and flags differ")));
    }
    let out = filter_rows(&table.records, &matches, true);
    proof {
        lemma_picked_rows_of(rows_view(table.records@), matches@);
    }
    Some(Ok(out))
}

/// The rows that a rename statement writes back: those its scan visits,
/// unchanged; none without a scan.
pub open spec fn rename_outcome(ans: AnswersV, hs: Seq<Seq<char>>, recs: Seq<Seq<Seq<char>>>, node: ColumnRenameNode) -> OutTable {
    match node.project {
        None => OutTable::Rows(Seq::empty()),
        Some(p) => scan_outcome(ans, hs, recs, *p),
    }
}

/// The rows of a table after a column is renamed.
pub fn exec_column_rename(answers: &Answers, table: &Table, node: &ColumnRenameNode) -> (r: Option<
    Result<Vec<Vec<String>>, Error>,
>)
    ensures
        agrees_table(r, rename_outcome(answers@, strings_view(table.headers@), rows_view(table.records@), *node)),
{
    match &node.project {
        Some(p) => scanned_rows(answers, table, &**p),
        None => {
            let none: Vec<Vec<String>> = Vec::new();
            proof {
                assert(rows_view(none@) =~= Seq::<Seq<Seq<char>>>::empty());
            }
            Some(Ok(none))
        },
    }
}

/// The default value that a new column gives every row: the last of the
/// default values of the new header row.
pub open spec fn added_default(new_hs: Seq<Seq<char>>) -> Result<Seq<char>, ErrorKind> {
    match header_types(new_hs) {
        Err(k) => Err(k),
        Ok(ts) => match default_texts(ts) {
            Err(k) => Err(k),
            Ok(ds) => Ok(ds.last()),
        },
    }
}

/// Whether the new header row gives at least one default value where it
/// reads.
pub open spec fn defaults_not_empty(new_hs: Seq<Seq<char>>) -> bool {
    match header_types(new_hs) {
        Ok(ts) => match default_texts(ts) {
            Ok(ds) => ds.len() > 0,
            Err(_) => true,
        },
        Err(_) => true,
    }
}

/// The rows that an add statement writes back: each row its scan visits,
/// with the new column's default value at its end; none without a scan.
pub open spec fn add_outcome(
    ans: AnswersV,
    hs: Seq<Seq<char>>,
    recs: Seq<Seq<Seq<char>>>,
    node: ColumnAddNode,
    new_hs: Seq<Seq<char>>,
) -> OutTable {
    match node.project {
        None => OutTable::Rows(Seq::empty()),
        Some(p) => match added_default(new_hs) {
            Err(k) => OutTable::Fail(k),
            Ok(d) => match scan_outcome(ans, hs, recs, *p) {
                OutTable::Rows(rs) => OutTable::Rows(rs.map_values(|r: Seq<Seq<char>>| r.push(d))),
                o => o,
            },
        },
    }
}

/// The rows of a table after a column is added; `headers` is the new
/// header row, with the column's definition at its end.
pub fn exec_column_add(answers: &Answers, table: &Table, node: &ColumnAddNode, headers: &Vec<String>) -> (r: Option<
    Result<Vec<Vec<String>>, Error>,
>)
    requires
        node.project is Some ==> headers_readable(strings_view(headers@)) && defaults_not_empty(strings_view(headers@)),
    ensures
        agrees_table(r, add_outcome(answers@, strings_view(table.headers@), rows_view(table.records@), *node, strings_view(headers@))),
{
    let project = match &node.project {
        Some(p) => p,
        None => {
            let none: Vec<Vec<String>> = Vec::new();
            proof {
                assert(rows_view(none@) =~= Seq::<Seq<Seq<char>>>::empty());
            }
            return Some(Ok(none));
        },
    };
    let def_row = match gen_default_record(headers) {
        Ok(v) => v,
        Err(e) => return Some(Err(e)),
    };
    let last = def_row[def_row.len() - 1].clone();
    let rows = match scanned_rows(answers, table, &**project) {
        Some(Ok(x)) => x,
        Some(Err(e)) => return Some(Err(e)),
        None => return None,
    };
    let ghost rs = rows_view(rows@);
    let mut out: Vec<Vec<String>> = Vec::new();
    let mut i: usize = 0;
    while i < rows.len()
        invariant
            rs == rows_view(rows@),
            i <= rs.len(),
            rows_view(out@) == rs.take(i as int).map_values(|r: Seq<Seq<char>>| r.push(last@)),
        decreases rs.len() - i,
    {
        let ghost before = rows_view(out@);
        let mut row = copy_row(&rows[i]);
        row.push(last.clone());
        proof {
            assert(rs[i as int] == strings_view(rows@[i as int]@));
            assert(strings_view(row@) =~= rs[i as int].push(last@));
        }
        out.push(row);
        proof {
            assert(rows_view(out@) =~= before.push(rs[i as int].push(last@)));
            assert(rs.take(i + 1).map_values(|r: Seq<Seq<char>>| r.push(last@)) =~= rs.take(i as int).map_values(
                |r: Seq<Seq<char>>| r.push(last@),
            ).push(rs[i as int].push(last@)));
        }
        i += 1;
    }
    proof {
        assert(rs.take(i as int) =~= rs);
    }
    Some(Ok(out))
}

/// The position of the column `ident` among the column types, or `None`.
fn type_position(types: &Vec<HeaderType>, ident: &str) -> (r: Option<usize>)
    ensures
        match r {
            Some(k) => is_first_index(type_idents(types_view(types@)), ident@, k as int),
            None => !type_idents(types_view(types@)).contains(ident@),
        },
{
    let ghost tids = type_idents(types_view(types@));
    let mut i: usize = 0;
    while i < types.len()
        invariant
            tids == type_idents(types_view(types@)),
            i <= types@.len(),
            forall|j: int| 0 <= j < i ==> tids[j] != ident@,
        decreases types@.len() - i,
    {
        proof {
            assert(tids[i as int] == types@[i as int]@.ident);
        }
        if same_str(types[i].ident.as_str(), ident) {
            return Some(i);
        }
        i += 1;
    }
    proof {
        if tids.contains(ident@) {
            let j = choose|j: int| 0 <= j < tids.len() && tids[j] == ident@;
            assert(tids[j] != ident@);
        }
    }
    None
}

/// The rows that a drop statement writes back: each row its scan visits,
/// without the field of the dropped column; an error where the column is
/// not among the column types `ts`; none without a scan.
pub open spec fn drop_outcome(
    ans: AnswersV,
    hs: Seq<Seq<char>>,
    recs: Seq<Seq<Seq<char>>>,
    node: ColumnDropNode,
    ts: Seq<HeaderTypeV>,
) -> OutTable {
    match node.project {
        None => OutTable::Rows(Seq::empty()),
        Some(p) => if node.ident is Some && type_idents(ts).contains(node.ident->0@) {
            let k = first_index(type_idents(ts), node.ident->0@);
            match scan_outcome(ans, hs, recs, *p) {
                OutTable::Rows(rs) => OutTable::Rows(rs.map_values(|r: Seq<Seq<char>>| without(r, k))),
                o => o,
            }
        } else {
            OutTable::Fail(ErrorKind::Exec)
        },
    }
}

/// The rows of a table after a column is dropped; `types` are the column
/// types of its header row.
pub fn exec_column_drop(answers: &Answers, table: &Table, node: &ColumnDropNode, types: &Vec<HeaderType>) -> (r:
    Option<Result<Vec<Vec<String>>, Error>>)
    ensures
        agrees_table(
            r,
            drop_outcome(answers@, strings_view(table.headers@), rows_view(table.records@), *node, types_view(types@)),
        ),
{
    let project = match &node.project {
        Some(p) => p,
        None => {
            let none: Vec<Vec<String>> = Vec::new();
            proof {
                assert(rows_view(none@) =~= Seq::<Seq<Seq<char>>>::empty());
            }
            return Some(Ok(none));
        },
    };
    let index = match &node.ident {
        Some(ident) => type_position(types, ident.as_str()),
        None => None,
    };
    let index = match index {
        Some(k) => k,
        None => return Some(Err(make_error(ErrorKind::Exec, "drop index is none"))),
    };
    proof {
        lemma_first_index(type_idents(types_view(types@)), node.ident->0@, index as int);
    }
    let rows = match scanned_rows(answers, table, &**project) {
        Some(Ok(x)) => x,
        Some(Err(e)) => return Some(Err(e)),
        None => return None,
    };
    let ghost rs = rows_view(rows@);
    let mut out: Vec<Vec<String>> = Vec::new();
    let mut i: usize = 0;
    while i < rows.len()
        invariant
            rs == rows_view(rows@),
            i <= rs.len(),
            rows_view(out@) == rs.take(i as int).map_values(|r: Seq<Seq<char>>| without(r, index as int)),
        decreases rs.len() - i,
    {
        let ghost before = rows_view(out@);
        let row = match drop_record_column(&rows[i], index) {
            Ok(v) => v,
            Err(e) => return Some(Err(e)),
        };
        proof {
            assert(rs[i as int] == strings_view(rows@[i as int]@));
        }
        out.push(row);
        proof {
            assert(rows_view(out@) =~= before.push(without(rs[i as int], index as int)));
            assert(rs.take(i + 1).map_values(|r: Seq<Seq<char>>| without(r, index as int)) =~= rs.take(
                i as int,
            ).map_values(|r: Seq<Seq<char>>| without(r, index as int)).push(without(rs[i as int], index as int)));
        }
        i += 1;
    }
    proof {
        assert(rs.take(i as int) =~= rs);
    }
    Some(Ok(out))
}

/// Each of the rows `rs` with its field of column `id` read as the column's
/// type and written back as the text of what was read; the first row that
/// cannot be read so gives the error: a column that is not among the types
/// `ts`, a row too short for the column, or a field that does not parse.
pub open spec fn altered_rows(ts: Seq<HeaderTypeV>, id: Seq<char>, rs: Seq<Seq<Seq<char>>>) -> Result<
    Seq<Seq<Seq<char>>>,
    ErrorKind,
>
    decreases rs.len(),
{
    if rs.len() == 0 {
        Ok(Seq::empty())
    } else {
        match altered_rows(ts, id, rs.drop_last()) {
            Err(k) => Err(k),
            Ok(done) => if !type_idents(ts).contains(id) {
                Err(ErrorKind::Exec)
            } else {
                let k = first_index(type_idents(ts), id);
                let row = rs.last();
                if k >= row.len() {
                    Err(ErrorKind::Runtime)
                } else {
                    match cell_value(ts[k], row[k]) {
                        Ok(o) => Ok(done.push(row.update(k, object_text(o)))),
                        Err(e) => Err(e),
                    }
                }
            },
        }
    }
}

proof fn lemma_altered_stops(ts: Seq<HeaderTypeV>, id: Seq<char>, rs: Seq<Seq<Seq<char>>>, n: int)
    requires
        0 <= n <= rs.len(),
        altered_rows(ts, id, rs.take(n)) is Err,
    ensures
        altered_rows(ts, id, rs) == altered_rows(ts, id, rs.take(n)),
    decreases rs.len(),
{
    if n == rs.len() {
        assert(rs.take(n) =~= rs);
    } else {
        assert(rs.drop_last().take(n) =~= rs.take(n));
        lemma_altered_stops(ts, id, rs.drop_last(), n);
    }
}

/// The rows that an alter statement writes back: each row its scan visits,
/// with its field of the column read as the column's type (`ts` are the
/// types of the new header row); none without a scan or a column.
pub open spec fn alter_outcome(
    ans: AnswersV,
    hs: Seq<Seq<char>>,
    recs: Seq<Seq<Seq<char>>>,
    node: ColumnAlterTypeNode,
    ts: Seq<HeaderTypeV>,
) -> OutTable {
    match node.project {
        None => OutTable::Rows(Seq::empty()),
        Some(p) => match scan_outcome(ans, hs, recs, *p) {
            OutTable::Rows(rs) => match node.ident {
                None => OutTable::Rows(Seq::empty()),
                Some(id) => match altered_rows(ts, id@, rs) {
                    Ok(x) => OutTable::Rows(x),
                    Err(k) => OutTable::Fail(k),
                },
            },
            o => o,
        },
    }
}

/// The rows of a table after the type of a column is changed; `types` are
/// the column types of the new header row.
pub fn exec_column_alter_type(answers: &Answers, table: &Table,
    types: &Vec<HeaderType>,
    node: &ColumnAlterTypeNode,
) -> (r: Option<Result<Vec<Vec<String>>, Error>>)
    requires
        forall|a: int, f: int|
            0 <= a < table.records@.len() && 0 <= f < table.records@[a]@.len() ==> #[trigger] table.records@[a]@[f]@.len()
                < usize::MAX / 4,
    ensures
        agrees_table(
            r,
            alter_outcome(answers@, strings_view(table.headers@), rows_view(table.records@), *node, types_view(types@)),
        ),
{
    let project = match &node.project {
        Some(p) => p,
        None => {
            let none: Vec<Vec<String>> = Vec::new();
            proof {
                assert(rows_view(none@) =~= Seq::<Seq<Seq<char>>>::empty());
            }
            return Some(Ok(none));
        },
    };
    let rows = match scanned_rows(answers, table, &**project) {
        Some(Ok(x)) => x,
        Some(Err(e)) => return Some(Err(e)),
        None => return None,
    };
    let mut out: Vec<Vec<String>> = Vec::new();
    proof {
        assert(rows_view(out@) =~= Seq::<Seq<Seq<char>>>::empty());
    }
    let ident = match &node.ident {
        Some(i) => i,
        None => return Some(Ok(out)),
    };
    let ghost ts = types_view(types@);
    let ghost id = ident@;
    let ghost rs = rows_view(rows@);
    let ghost recs = rows_view(table.records@);
    let ghost target = alter_outcome(answers@, strings_view(table.headers@), recs, *node, ts);
    proof {
        assert(target == (match altered_rows(ts, id, rs) {
            Ok(x) => OutTable::Rows(x),
            Err(k) => OutTable::Fail(k),
        }));
    }
    let pos = type_position(types, ident.as_str());
    proof {
        if let Some(k) = pos {
            lemma_first_index(type_idents(ts), id, k as int);
        }
        assert(rs.take(0) =~= Seq::<Seq<Seq<char>>>::empty());
    }
    let mut i: usize = 0;
    while i < rows.len()
        invariant
            rs == rows_view(rows@),
            recs == rows_view(table.records@),
            ts == types_view(types@),
            id == ident@,
            rows_of(rs, recs),
            target == alter_outcome(answers@, strings_view(table.headers@), recs, *node, ts),
            target == (match altered_rows(ts, id, rs) {
                Ok(x) => OutTable::Rows(x),
                Err(k) => OutTable::Fail(k),
            }),
            forall|a: int, f: int|
                0 <= a < table.records@.len() && 0 <= f < table.records@[a]@.len() ==> #[trigger] table.records@[a]@[f]@.len()
                    < usize::MAX / 4,
            match pos {
                Some(k) => is_first_index(type_idents(ts), id, k as int) && first_index(type_idents(ts), id) == k,
                None => !type_idents(ts).contains(id),
            },
            i <= rs.len(),
            altered_rows(ts, id, rs.take(i as int)) == Ok::<Seq<Seq<Seq<char>>>, ErrorKind>(rows_view(out@)),
        decreases rs.len() - i,
    {
        let ghost before = rows_view(out@);
        proof {
            assert(rs.take(i + 1).drop_last() =~= rs.take(i as int));
            assert(rs.take(i + 1).last() == rs[i as int]);
            assert(rs[i as int] == strings_view(rows@[i as int]@));
            assert(recs.contains(rs[i as int]));
            let a = choose|a: int| 0 <= a < recs.len() && recs[a] == rs[i as int];
            assert(recs[a] == strings_view(table.records@[a]@));
            assert(rows@[i as int]@.len() == table.records@[a]@.len());
            assert forall|f: int| 0 <= f < rows@[i as int]@.len() implies #[trigger] rows@[i as int]@[f]@.len()
                < usize::MAX / 4 by {
                assert(strings_view(rows@[i as int]@)[f] == rows@[i as int]@[f]@);
                assert(strings_view(table.records@[a]@)[f] == table.records@[a]@[f]@);
            }
        }
        proof {
            assert(rs[i as int].len() == rows@[i as int]@.len());
            if let Some(k) = pos {
                assert(ts[k as int] == types@[k as int]@);
                if k < rs[i as int].len() {
                    assert(rs[i as int][k as int] == rows@[i as int]@[k as int]@);
                }
            }
        }
        match pos {
            Some(k) => {
                if k >= rows[i].len() {
                    proof {
                        lemma_altered_stops(ts, id, rs, i + 1);
                    }
                    return Some(Err(make_error(ErrorKind::Runtime, "record shorter than its header")));
                }
            },
            None => {},
        }
        let row = match alter_field_column_type(types, ident.as_str(), &rows[i]) {
            Ok(v) => v,
            Err(e) => {
                proof {
                    lemma_altered_stops(ts, id, rs, i + 1);
                }
                return Some(Err(e));
            },
        };
        out.push(row);
        proof {
            assert(rows_view(out@) =~= before.push(strings_view(row@)));
        }
        i += 1;
    }
    proof {
        assert(rs.take(i as int) =~= rs);
    }
    Some(Ok(out))
}

/// The header row after the column `from` is renamed `to`.
pub open spec fn renamed_headers(ts: Seq<HeaderTypeV>, from: Seq<char>, to: Seq<char>) -> Seq<Seq<char>> {
    Seq::new(ts.len(), |i: int| header_text(renamed(ts[i], from, to)))
}

/// The header row after the column `id` is given the types `cts`; an error
/// where the column is among `ts` and the types do not make a column type.
pub open spec fn retyped_headers(ts: Seq<HeaderTypeV>, id: Seq<char>, cts: Seq<ColumnType>) -> Result<
    Seq<Seq<char>>,
    ErrorKind,
> {
    if type_idents(ts).contains(id) && retyped(id, cts) is Err {
        Err(retyped(id, cts)->Err_0)
    } else {
        Ok(Seq::new(ts.len(), |i: int| header_text(after_retype(ts[i], id, retyped(id, cts)->Ok_0))))
    }
}

/// The header row after a rewrite statement, whose column types are `ts`:
/// the new column's definition at its end, the dropped column left out, the
/// column renamed or retyped; unchanged for the statements on rows.
pub open spec fn rewritten_headers(ts: Seq<HeaderTypeV>, hs: Seq<Seq<char>>, node: CsvFileRewriteNode) -> Result<
    Seq<Seq<char>>,
    ErrorKind,
> {
    match node.column_add {
        Some(a) => Ok(
            match a.column_definition_string {
                Some(d) => hs.push(d@),
                None => hs,
            },
        ),
        None => match node.column_drop {
            Some(d) => Ok(
                match d.ident {
                    Some(id) => headers_without(ts, hs, id@),
                    None => hs,
                },
            ),
            None => match node.column_rename {
                Some(rn) => Ok(
                    if rn.from_ident is Some && rn.to_ident is Some {
                        renamed_headers(ts, rn.from_ident->0@, rn.to_ident->0@)
                    } else {
                        hs
                    },
                ),
                None => match node.column_alter_type {
                    Some(a) => match a.ident {
                        Some(id) => retyped_headers(ts, id@, ctv(a.column_types@)),
                        None => Ok(hs),
                    },
                    None => Ok(hs),
                },
            },
        },
    }
}

/// The rows that a rewrite statement writes back, in the order in which
/// the statement is looked for: delete, set, then the column statements;
/// `nh` is the new header row and `ts` the column types of the old one.
pub open spec fn rewritten_rows(
    ans: AnswersV,
    hs: Seq<Seq<char>>,
    recs: Seq<Seq<Seq<char>>>,
    node: CsvFileRewriteNode,
    nh: Seq<Seq<char>>,
    ts: Seq<HeaderTypeV>,
) -> OutTable {
    match node.row_delete {
        Some(d) => delete_outcome(ans, hs, recs, *d),
        None => match node.row_update {
            Some(u) => update_outcome(ans, hs, recs, *u),
            None => match node.column_add {
                Some(a) => add_outcome(ans, hs, recs, *a, nh),
                None => match node.column_drop {
                    Some(d) => drop_outcome(ans, hs, recs, *d, ts),
                    None => match node.column_rename {
                        Some(rn) => rename_outcome(ans, hs, recs, *rn),
                        None => match node.column_alter_type {
                            Some(a) => match header_types(nh) {
                                Err(k) => OutTable::Fail(k),
                                Ok(nts) => alter_outcome(ans, hs, recs, *a, nts),
                            },
                            None => OutTable::Fail(ErrorKind::Exec),
                        },
                    },
                },
            },
        },
    }
}

/// Whether a rewrite statement reads the header rows that it needs: the
/// old one, and the new one where a new column's default value or the new
/// column types are read from it.
pub open spec fn rewritable(hs: Seq<Seq<char>>, node: CsvFileRewriteNode) -> bool {
    &&& headers_readable(hs)
    &&& header_types(hs) matches Ok(ts) ==> (rewritten_headers(ts, hs, node) matches Ok(nh) ==> {
        &&& node.row_delete is None && node.row_update is None && (node.column_add matches Some(a) && a.project is Some)
            ==> headers_readable(nh) && defaults_not_empty(nh)
        &&& node.row_delete is None && node.row_update is None && node.column_add is None && node.column_drop is None
            && node.column_rename is None && node.column_alter_type is Some ==> headers_readable(nh)
    })
}

proof fn lemma_header_types_len(hs: Seq<Seq<char>>)
    ensures
        header_types(hs) matches Ok(ts) ==> ts.len() == hs.len(),
    decreases hs.len(),
{
    if hs.len() > 0 {
        lemma_header_types_len(hs.drop_last());
    }
}

/// The header row after a rewrite statement; `types` are the column types
/// of `headers`.
pub fn rewrite_headers(types: &Vec<HeaderType>, headers: &Vec<String>, node: &CsvFileRewriteNode) -> (r: Result<
    Vec<String>,
    Error,
>)
    requires
        types@.len() <= headers@.len(),
    ensures
        match rewritten_headers(types_view(types@), strings_view(headers@), *node) {
            Ok(nh) => r matches Ok(v) && strings_view(v@) == nh,
            Err(k) => r matches Err(e) && e@ == k,
        },
{
    let ghost ts = types_view(types@);
    let mut out = copy_row(headers);
    if let Some(add) = &node.column_add {
        if let Some(def) = &add.column_definition_string {
            let ghost before = strings_view(out@);
            out.push(def.clone());
            proof {
                assert(strings_view(out@) =~= before.push(def@));
            }
        }
    } else if let Some(drop) = &node.column_drop {
        if let Some(ident) = &drop.ident {
            out = match drop_headers_column(types, headers, ident.as_str()) {
                Ok(v) => v,
                Err(e) => return Err(e),
            };
        }
    } else if let Some(rename) = &node.column_rename {
        if let (Some(from), Some(to)) = (&rename.from_ident, &rename.to_ident) {
            out = match rename_headers_column(types, from.as_str(), to.as_str()) {
                Ok(v) => v,
                Err(e) => return Err(e),
            };
            proof {
                assert(strings_view(out@) =~= renamed_headers(ts, from@, to@));
            }
        }
    } else if let Some(alter) = &node.column_alter_type {
        if let Some(ident) = &alter.ident {
            out = match alter_headers_column_type(types, ident.as_str(), &alter.column_types) {
                Ok(v) => v,
                Err(e) => return Err(e),
            };
            proof {
                assert(strings_view(out@) =~= Seq::new(
                    ts.len(),
                    |i: int| header_text(after_retype(ts[i], ident@, retyped(ident@, ctv(alter.column_types@))->Ok_0)),
                ));
            }
        }
    }
    Ok(out)
}

/// A table after a rewrite statement: its new header row and the rows that
/// the statement writes back.
pub fn exec_csv_file_rewrite(answers: &Answers, table: &Table, node: &CsvFileRewriteNode) -> (r: Option<
    Result<Table, Error>,
>)
    requires
        rewritable(strings_view(table.headers@), *node),
        forall|a: int, f: int|
            0 <= a < table.records@.len() && 0 <= f < table.records@[a]@.len() ==> #[trigger] table.records@[a]@[f]@.len()
                < usize::MAX / 4,
    ensures
        match header_types(strings_view(table.headers@)) {
            Err(k) => r matches Some(Err(e)) && e@ == k,
            Ok(ts) => match rewritten_headers(ts, strings_view(table.headers@), *node) {
                Err(k) => r matches Some(Err(e)) && e@ == k,
                Ok(nh) => match rewritten_rows(answers@, strings_view(table.headers@), rows_view(table.records@), *node, nh, ts) {
                    OutTable::Rows(rs) => r matches Some(Ok(t)) && strings_view(t.headers@) == nh && rows_view(
                        t.records@,
                    ) == rs,
                    OutTable::Fail(k) => r matches Some(Err(e)) && e@ == k,
                    OutTable::Overflow => r is None,
                    OutTable::Asks(q) => r matches Some(Err(e)) && e@ == ErrorKind::Unanswered && e.asked() == Some(q),
                },
            },
        },
        r matches Some(Ok(t)) ==> header_types(strings_view(table.headers@)) matches Ok(ts) && rewritten_headers(
            ts,
            strings_view(table.headers@),
            *node,
        ) matches Ok(nh) && strings_view(t.headers@) == nh,
{
    let ghost hs = strings_view(table.headers@);
    let types = match parse_csv_headers_as_types(&table.headers) {
        Ok(t) => t,
        Err(e) => return Some(Err(e)),
    };
    proof {
        lemma_header_types_len(hs);
    }
    let headers = match rewrite_headers(&types, &table.headers, node) {
        Ok(h) => h,
        Err(e) => return Some(Err(e)),
    };
    let rows = if let Some(d) = &node.row_delete {
        exec_row_delete(answers, table, &**d)
    } else if let Some(u) = &node.row_update {
        exec_row_update(answers, table, &**u)
    } else if let Some(a) = &node.column_add {
        exec_column_add(answers, table, &**a, &headers)
    } else if let Some(d) = &node.column_drop {
        exec_column_drop(answers, table, &**d, &types)
    } else if let Some(rn) = &node.column_rename {
        exec_column_rename(answers, table, &**rn)
    } else if let Some(a) = &node.column_alter_type {
        let new_types = match parse_csv_headers_as_types(&headers) {
            Ok(t) => t,
            Err(e) => return Some(Err(e)),
        };
        exec_column_alter_type(answers, table, &new_types, &**a)
    } else {
        Some(Err(make_error(ErrorKind::Exec, "invalid state: csv file rewrite")))
    };
    match rows {
        Some(Ok(records)) => Some(Ok(Table { headers, records })),
        Some(Err(e)) => Some(Err(e)),
        None => None,
    }
}

/// Whether the default values of a header row read and, where they make a
/// row, the row is not empty.
fn defaults_read(headers: &Vec<String>) -> (b: bool)
    ensures
        b == (headers_readable(strings_view(headers@)) && defaults_not_empty(strings_view(headers@))),
{
    match try_gen_default_record(headers) {
        None => false,
        Some(Ok(d)) => {
            proof {
                assert(strings_view(d@).len() == d@.len());
            }
            d.len() > 0
        },
        Some(Err(_)) => true,
    }
}

/// Whether a rewrite statement reads the new header row `nh` where it needs
/// to: for a new column's default value, or for the new column types.
fn new_headers_read(node: &CsvFileRewriteNode, nh: &Vec<String>) -> (b: bool)
    ensures
        b == ({
            &&& node.row_delete is None && node.row_update is None && (node.column_add matches Some(a)
                && a.project is Some) ==> headers_readable(strings_view(nh@)) && defaults_not_empty(strings_view(nh@))
            &&& node.row_delete is None && node.row_update is None && node.column_add is None && node.column_drop is None
                && node.column_rename is None && node.column_alter_type is Some ==> headers_readable(strings_view(nh@))
        }),
{
    let on_columns = node.row_delete.is_none() && node.row_update.is_none();
    let adds = match &node.column_add {
        Some(a) => a.project.is_some(),
        None => false,
    };
    if on_columns && adds && !defaults_read(nh) {
        return false;
    }
    if on_columns && node.column_add.is_none() && node.column_drop.is_none() && node.column_rename.is_none()
        && node.column_alter_type.is_some() {
        return try_parse_csv_headers_as_types(nh).is_some();
    }
    true
}

/// The rows of a table after a column is added, where the new header row
/// gives the scan a default value to read; `None` where it does not (a
/// default value that does not read, or no default value at all).
pub fn try_exec_column_add(answers: &Answers, table: &Table, node: &ColumnAddNode, headers: &Vec<String>) -> (r:
    Option<Option<Result<Vec<Vec<String>>, Error>>>)
    ensures
        r is None <==> (node.project is Some && !(headers_readable(strings_view(headers@)) && defaults_not_empty(
            strings_view(headers@),
        ))),
        r matches Some(res) ==> agrees_table(
            res,
            add_outcome(answers@, strings_view(table.headers@), rows_view(table.records@), *node, strings_view(headers@)),
        ),
{
    if node.project.is_some() && !defaults_read(headers) {
        return None;
    }
    Some(exec_column_add(answers, table, node, headers))
}

/// A table after a rewrite statement, where the statement reads the header
/// rows it needs; `None` where it does not.
pub fn try_exec_csv_file_rewrite(answers: &Answers, table: &Table, node: &CsvFileRewriteNode) -> (r: Option<
    Option<Result<Table, Error>>,
>)
    requires
        forall|a: int, f: int|
            0 <= a < table.records@.len() && 0 <= f < table.records@[a]@.len() ==> #[trigger] table.records@[a]@[f]@.len()
                < usize::MAX / 4,
    ensures
        r is None <==> !rewritable(strings_view(table.headers@), *node),
        r matches Some(res) ==> match header_types(strings_view(table.headers@)) {
            Err(k) => res matches Some(Err(e)) && e@ == k,
            Ok(ts) => match rewritten_headers(ts, strings_view(table.headers@), *node) {
                Err(k) => res matches Some(Err(e)) && e@ == k,
                Ok(nh) => match rewritten_rows(answers@, strings_view(table.headers@), rows_view(table.records@), *node, nh, ts) {
                    OutTable::Rows(rs) => res matches Some(Ok(t)) && strings_view(t.headers@) == nh && rows_view(
                        t.records@,
                    ) == rs,
                    OutTable::Fail(k) => res matches Some(Err(e)) && e@ == k,
                    OutTable::Overflow => res is None,
                    OutTable::Asks(q) => res matches Some(Err(e)) && e@ == ErrorKind::Unanswered && e.asked() == Some(q),
                },
            },
        },
{
    let ghost hs = strings_view(table.headers@);
    match try_parse_csv_headers_as_types(&table.headers) {
        None => return None,
        Some(Err(_)) => {},
        Some(Ok(types)) => {
            proof {
                lemma_header_types_len(hs);
            }
            match rewrite_headers(&types, &table.headers, node) {
                Err(_) => {},
                Ok(nh) => {
                    if !new_headers_read(node, &nh) {
                        return None;
                    }
                },
            }
        },
    }
    Some(exec_csv_file_rewrite(answers, table, node))
}

} // verus!
