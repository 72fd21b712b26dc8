//! Work on the rows and the header row of a table that needs no file:
//! picking and dropping columns, placing the values of a new row, checking
//! a row against the column types, renaming and retyping a column.
use vstd::prelude::*;
use crate::error::{Error, ErrorKind, make_error};
use crate::eval::{contains_chars, has_sub, strings_view};
use crate::grammar::ColumnType;
use crate::headers::{
    default_texts, find_header_position, header_idents, header_types, headers_readable, parse_csv_headers_as_types, same_str, try_parse_csv_headers_as_types,
    types_view,
};
use crate::objects::{
    HeaderType, HeaderTypeV, Object, ObjectKind, ObjectV, cell_value, default_text, header_text, lemma_default_text_is_a_cell,
    nil_object, object_text,
};
use crate::parser::{ColumnTypeNode, ParenIdentsNode, ParenValuesNode, ValueNode, ctv, sv};
use crate::grammar::Value;
use crate::plan_model::value_object;
use crate::text::chars_of;

verus! {

/// Whether `k` is the first position of `x` in `s`.
pub open spec fn is_first_index(s: Seq<Seq<char>>, x: Seq<char>, k: int) -> bool {
    0 <= k < s.len() && s[k] == x && forall|j: int| 0 <= j < k ==> s[j] != x
}

/// The first position of `x` in `s`, where `s` holds `x`.
pub open spec fn first_index(s: Seq<Seq<char>>, x: Seq<char>) -> int {
    choose|k: int| is_first_index(s, x, k)
}

pub proof fn lemma_first_index(s: Seq<Seq<char>>, x: Seq<char>, k: int)
    requires
        is_first_index(s, x, k),
    ensures
        first_index(s, x) == k,
{
    let c = first_index(s, x);
    assert(is_first_index(s, x, c));
    if c < k {
        assert(s[c] != x);
    } else if k < c {
        assert(s[k] != x);
    }
}

/// Where `s` holds `x`, it has a first position of `x`.
pub proof fn lemma_first_index_exists(s: Seq<Seq<char>>, x: Seq<char>)
    requires
        s.contains(x),
    ensures
        is_first_index(s, x, first_index(s, x)),
    decreases s.len(),
{
    if s.drop_last().contains(x) {
        lemma_first_index_exists(s.drop_last(), x);
        let k = first_index(s.drop_last(), x);
        assert forall|j: int| 0 <= j < k implies s[j] != x by {
            assert(s[j] == s.drop_last()[j]);
        }
        assert(s[k] == s.drop_last()[k]);
        assert(is_first_index(s, x, k));
    } else {
        let j = choose|j: int| 0 <= j < s.len() && s[j] == x;
        if j < s.len() - 1 {
            assert(s.drop_last()[j] == x);
        }
        assert forall|i: int| 0 <= i < s.len() - 1 implies s[i] != x by {
            if s[i] == x {
                assert(s.drop_last()[i] == x);
            }
        }
        assert(is_first_index(s, x, s.len() - 1));
    }
}

/// Every found position is a position of the column names.
pub proof fn lemma_found_positions_in_range(ids: Seq<Seq<char>>, names: Seq<Seq<char>>)
    ensures
        forall|k: int|
            0 <= k < found_positions(ids, names).len() ==> 0 <= #[trigger] found_positions(ids, names)[k] < ids.len(),
    decreases names.len(),
{
    if names.len() > 0 {
        lemma_found_positions_in_range(ids, names.drop_last());
        let fp = found_positions(ids, names);
        let rest = found_positions(ids, names.drop_last());
        if ids.contains(names.last()) {
            lemma_first_index_exists(ids, names.last());
            assert(fp == rest.push(first_index(ids, names.last())));
            assert forall|k: int| 0 <= k < fp.len() implies 0 <= #[trigger] fp[k] < ids.len() by {
                if k < rest.len() {
                    assert(fp[k] == rest[k]);
                }
            }
        } else {
            assert(fp == rest);
        }
    }
}

/// The texts of a list of objects.
pub open spec fn objects_texts(v: Seq<Object>) -> Seq<Seq<char>> {
    v.map_values(|o: Object| object_text(o@))
}

/// The first position of `x` among `ids`, or `None`.
pub(crate) fn position_of(ids: &Vec<String>, x: &str) -> (r: Option<usize>)
    ensures
        match r {
            Some(k) => is_first_index(strings_view(ids@), x@, k as int),
            None => !strings_view(ids@).contains(x@),
        },
{
    let ghost s = strings_view(ids@);
    let mut i: usize = 0;
    while i < ids.len()
        invariant
            s == strings_view(ids@),
            i <= s.len(),
            forall|j: int| 0 <= j < i ==> s[j] != x@,
        decreases s.len() - i,
    {
        proof {
            assert(s[i as int] == ids@[i as int]@);
        }
        if same_str(ids[i].as_str(), x) {
            return Some(i);
        }
        i += 1;
    }
    proof {
        if s.contains(x@) {
            let j = choose|j: int| 0 <= j < s.len() && s[j] == x@;
            assert(s[j] != x@);
        }
    }
    None
}

/// A database name may not lead out of the root directory: one that holds
/// `..` is refused.
pub fn check_db_name(name: &str) -> (r: Result<(), Error>)
    ensures
        r is Err <==> has_sub(name@, seq!['.', '.']),
        r matches Err(e) ==> e@ == ErrorKind::Exec,
{
    let cs = chars_of(name);
    let dots = vec!['.', '.'];
    proof {
        assert(dots@ =~= seq!['.', '.']);
    }
    if contains_chars(&cs, &dots) {
        Err(make_error(ErrorKind::Exec, "directory traversal error"))
    } else {
        Ok(())
    }
}

/// The object that a literal value stands for.
pub fn exec_value(node: &ValueNode) -> (r: Result<Object, Error>)
    ensures
        match value_object(node@) {
            Ok(o) => r is Ok && r->Ok_0@ == o,
            Err(_) => r is Err && r->Err_0@ == ErrorKind::Exec,
        },
{
    if let Some(v) = &node.i64_value {
        Ok(Object::from_int(v.value as i128))
    } else if let Some(v) = &node.f64_value {
        Ok(Object::from_float_text(v.text.clone()))
    } else if let Some(v) = &node.bool_value {
        Ok(Object::from_bool(v.value))
    } else if let Some(v) = &node.string {
        Ok(Object::from_string(v.value.clone()))
    } else {
        Err(make_error(ErrorKind::Exec, "invalid state: value"))
    }
}

/// `s` without the element at `index`; `s` itself where there is none.
pub open spec fn without(s: Seq<Seq<char>>, index: int) -> Seq<Seq<char>> {
    if 0 <= index < s.len() {
        s.remove(index)
    } else {
        s
    }
}

/// A row without the field at `index`.
pub fn drop_record_column(row: &Vec<String>, index: usize) -> (r: Result<Vec<String>, Error>)
    ensures
        r is Ok,
        strings_view(r->Ok_0@) == without(strings_view(row@), index as int),
{
    let ghost s = strings_view(row@);
    let mut dst: Vec<String> = Vec::new();
    let mut i: usize = 0;
    while i < row.len()
        invariant
            s == strings_view(row@),
            i <= s.len(),
            strings_view(dst@) == (if index < i {
                s.take(index as int) + s.subrange(index + 1, i as int)
            } else {
                s.take(i as int)
            }),
        decreases s.len() - i,
    {
        let ghost before = strings_view(dst@);
        if i != index {
            dst.push(row[i].clone());
        }
        proof {
            assert(s[i as int] == row@[i as int]@);
            if i != index {
                assert(strings_view(dst@) =~= before.push(s[i as int]));
            } else {
                assert(strings_view(dst@) =~= before);
            }
            if index < i {
                assert(s.subrange(index + 1, i + 1) =~= s.subrange(index + 1, i as int).push(s[i as int]));
                assert(s.take(index as int) + s.subrange(index + 1, i + 1) =~= (s.take(index as int) + s.subrange(
                    index + 1,
                    i as int,
                )).push(s[i as int]));
            } else if index == i {
                assert(s.subrange(index + 1, i + 1) =~= Seq::<Seq<char>>::empty());
                assert(s.take(index as int) + s.subrange(index + 1, i + 1) =~= s.take(i as int));
            } else {
                assert(s.take(i + 1) =~= s.take(i as int).push(s[i as int]));
            }
        }
        i += 1;
    }
    proof {
        if index < s.len() {
            assert(s.take(index as int) =~= s.subrange(0, index as int));
            assert(strings_view(dst@) =~= s.remove(index as int));
        } else {
            assert(s.take(i as int) =~= s);
        }
    }
    Ok(dst)
}

/// Whether some index points past the end of a row of `n` fields.
pub open spec fn some_index_past(indices: Seq<usize>, n: int) -> bool {
    exists|k: int| 0 <= k < indices.len() && indices[k] > n
}

/// The fields of a row at the given indices, in their order. An index past
/// the end of the row is an error.
pub fn collect_by_indices(row: &Vec<String>, indices: &Vec<usize>) -> (r: Result<Vec<String>, Error>)
    requires
        forall|k: int|
            0 <= k < indices@.len() && indices@[k] == row@.len() ==> exists|j: int|
                0 <= j < k && indices@[j] > row@.len(),
    ensures
        r is Err <==> some_index_past(indices@, row@.len() as int),
        r matches Err(e) ==> e@ == ErrorKind::Exec,
        r matches Ok(v) ==> v@.len() == indices@.len() && forall|k: int|
            0 <= k < indices@.len() ==> #[trigger] v@[k]@ == row@[indices@[k] as int]@,
{
    let mut dst: Vec<String> = Vec::new();
    let mut i: usize = 0;
    while i < indices.len()
        invariant
            i <= indices@.len(),
            forall|k: int|
                0 <= k < indices@.len() && indices@[k] == row@.len() ==> exists|j: int|
                    0 <= j < k && indices@[j] > row@.len(),
            forall|k: int| 0 <= k < i ==> indices@[k] < row@.len(),
            dst@.len() == i,
            forall|k: int| 0 <= k < i ==> #[trigger] dst@[k]@ == row@[indices@[k] as int]@,
        decreases indices@.len() - i,
    {
        let index = indices[i];
        if index > row.len() {
            return Err(make_error(ErrorKind::Exec, "index out of range in collect"));
        }
        if index == row.len() {
            proof {
                let j = choose|j: int| 0 <= j < i && indices@[j] > row@.len();
                assert(indices@[j] < row@.len());
            }
        }
        dst.push(row[index].clone());
        i += 1;
    }
    proof {
        if some_index_past(indices@, row@.len() as int) {
            let k = choose|k: int| 0 <= k < indices@.len() && indices@[k] > row@.len();
            assert(indices@[k] < row@.len());
        }
    }
    Ok(dst)
}

/// The positions, among the column names `ids`, of the names in `names`
/// that occur there, each at its first occurrence, in the order of `names`.
pub open spec fn found_positions(ids: Seq<Seq<char>>, names: Seq<Seq<char>>) -> Seq<int>
    decreases names.len(),
{
    if names.len() == 0 {
        Seq::empty()
    } else {
        let rest = found_positions(ids, names.drop_last());
        if ids.contains(names.last()) {
            rest.push(first_index(ids, names.last()))
        } else {
            rest
        }
    }
}

/// Whether a list of objects is the single `*`.
pub open spec fn is_single_star(objs: Seq<Object>) -> bool {
    objs.len() == 1 && objs[0]@.kind == ObjectKind::Star
}

/// The positions of the selected columns among the column names: every
/// position for a single `*`, else the position of each object's text that
/// names a column, names that match none left out.
pub fn get_indices(idents: &Vec<String>, objs: &Vec<Object>) -> (r: Result<Vec<usize>, Error>)
    ensures
        r is Ok,
        is_single_star(objs@) ==> r->Ok_0@.len() == idents@.len() && forall|k: int|
            0 <= k < idents@.len() ==> #[trigger] r->Ok_0@[k] == k,
        !is_single_star(objs@) ==> r->Ok_0@.map_values(|u: usize| u as int) == found_positions(
            strings_view(idents@),
            objects_texts(objs@),
        ),
{
    let mut indices: Vec<usize> = Vec::new();
    if objs.len() == 1 && objs[0].kind == ObjectKind::Star {
        let mut i: usize = 0;
        while i < idents.len()
            invariant
                i <= idents@.len(),
                indices@.len() == i,
                forall|k: int| 0 <= k < i ==> #[trigger] indices@[k] == k,
            decreases idents@.len() - i,
        {
            indices.push(i);
            i += 1;
        }
    } else {
        let ghost ids = strings_view(idents@);
        let ghost names = objects_texts(objs@);
        let mut i: usize = 0;
        while i < objs.len()
            invariant
                ids == strings_view(idents@),
                names == objects_texts(objs@),
                i <= objs@.len(),
                indices@.map_values(|u: usize| u as int) == found_positions(ids, names.take(i as int)),
            decreases objs@.len() - i,
        {
            let key = objs[i].to_string();
            let ghost before = indices@;
            proof {
                assert(names.take(i + 1).drop_last() =~= names.take(i as int));
                assert(names.take(i + 1).last() == key@);
            }
            match position_of(idents, key.as_str()) {
                Some(k) => {
                    indices.push(k);
                    proof {
                        lemma_first_index(ids, key@, k as int);
                        assert(indices@.map_values(|u: usize| u as int) =~= before.map_values(|u: usize| u as int).push(
                            k as int,
                        ));
                    }
                },
                None => {},
            }
            i += 1;
        }
        proof {
            assert(names.take(i as int) =~= names);
        }
    }
    Ok(indices)
}

/// What checking a new row against the header row gives: the header's own
/// error; an error where the row's length is not the number of columns or
/// a field does not read as its column's type; else success.
pub open spec fn record_check(record: Seq<Seq<char>>, hs: Seq<Seq<char>>) -> Result<(), ErrorKind> {
    match header_types(hs) {
        Err(k) => Err(k),
        Ok(ts) => if ts.len() != record.len() || exists|i: int|
            0 <= i < record.len() && #[trigger] cell_value(ts[i], record[i]) is Err {
            Err(ErrorKind::Exec)
        } else {
            Ok(())
        },
    }
}

/// Checks a new row against the column types of the header row.
pub fn check_invalid_append_record(record: &Vec<String>, headers: &Vec<String>) -> (r: Result<(), Error>)
    requires
        headers_readable(strings_view(headers@)),
        forall|i: int| 0 <= i < record@.len() ==> #[trigger] record@[i]@.len() < usize::MAX / 4,
    ensures
        match record_check(strings_view(record@), strings_view(headers@)) {
            Ok(_) => r is Ok,
            Err(k) => r is Err && r->Err_0@ == k,
        },
{
    let ghost rec = strings_view(record@);
    let types = parse_csv_headers_as_types(headers)?;
    let ghost ts = types_view(types@);
    if types.len() != record.len() {
        return Err(make_error(ErrorKind::Exec, "invalid record length"));
    }
    let mut i: usize = 0;
    while i < record.len()
        invariant
            rec == strings_view(record@),
            ts == types_view(types@),
            ts.len() == rec.len(),
            header_types(strings_view(headers@)) == Ok::<Seq<HeaderTypeV>, ErrorKind>(ts),
            forall|j: int| 0 <= j < record@.len() ==> #[trigger] record@[j]@.len() < usize::MAX / 4,
            i <= rec.len(),
            forall|j: int| 0 <= j < i ==> #[trigger] cell_value(ts[j], rec[j]) is Ok,
        decreases rec.len() - i,
    {
        proof {
            assert(ts[i as int] == types@[i as int]@);
            assert(rec[i as int] == record@[i as int]@);
        }
        match types[i].parse_str(record[i].as_str()) {
            Ok(_) => {},
            Err(_) => {
                return Err(make_error(ErrorKind::Exec, "failed to parse column by type. invalid column found"));
            },
        }
        i += 1;
    }
    Ok(())
}

/// `check_invalid_append_record` where the header row reads; `None` where
/// a default value in it would stop the reader.
pub fn try_check_invalid_append_record(record: &Vec<String>, headers: &Vec<String>) -> (r: Option<Result<(), Error>>)
    requires
        forall|i: int| 0 <= i < record@.len() ==> #[trigger] record@[i]@.len() < usize::MAX / 4,
    ensures
        r is None <==> !headers_readable(strings_view(headers@)),
        r matches Some(res) ==> match record_check(strings_view(record@), strings_view(headers@)) {
            Ok(_) => res is Ok,
            Err(k) => res is Err && res->Err_0@ == k,
        },
{
    match try_parse_csv_headers_as_types(headers) {
        None => None,
        Some(_) => Some(check_invalid_append_record(record, headers)),
    }
}

/// Whether column `t` takes a generated id in a new row: an integer column
/// marked AUTO_INCREMENT does; a column of another type marked so is an
/// error.
pub fn takes_auto_id(t: &HeaderType) -> (r: Result<bool, Error>)
    ensures
        r is Err <==> (t@.is_auto_increment && !t@.is_int),
        r matches Err(e) ==> e@ == ErrorKind::Exec,
        r matches Ok(b) ==> b == t@.is_auto_increment,
{
    if !t.is_auto_increment {
        return Ok(false);
    }
    if !t.is_int {
        return Err(make_error(ErrorKind::Exec, "cannot auto increment. id must be int"));
    }
    Ok(true)
}

/// The positions, among the column names, of the names that an add
/// statement lists before its values. Every list of values must be as long
/// as the list of names, and every name must name a column.
pub fn append_positions(header_idents: &Vec<String>, idents: &Vec<String>, values_list: &Vec<Vec<String>>) -> (r: Result<
    Vec<usize>,
    Error,
>)
    ensures
        r is Ok <==> (forall|k: int| 0 <= k < values_list@.len() ==> #[trigger] values_list@[k]@.len() == idents@.len())
            && (forall|k: int| 0 <= k < idents@.len() ==> strings_view(header_idents@).contains(#[trigger] idents@[k]@)),
        r matches Err(e) ==> e@ == ErrorKind::Exec,
        r matches Ok(ps) ==> ps@.len() == idents@.len() && forall|k: int|
            0 <= k < idents@.len() ==> is_first_index(strings_view(header_idents@), idents@[k]@, #[trigger] ps@[k] as int),
{
    let mut i: usize = 0;
    while i < values_list.len()
        invariant
            i <= values_list@.len(),
            forall|k: int| 0 <= k < i ==> #[trigger] values_list@[k]@.len() == idents@.len(),
        decreases values_list@.len() - i,
    {
        if values_list[i].len() != idents.len() {
            return Err(make_error(ErrorKind::Exec, "not same length values list"));
        }
        i += 1;
    }
    let mut positions: Vec<usize> = Vec::new();
    let mut j: usize = 0;
    while j < idents.len()
        invariant
            j <= idents@.len(),
            forall|k: int| 0 <= k < values_list@.len() ==> #[trigger] values_list@[k]@.len() == idents@.len(),
            positions@.len() == j,
            forall|k: int| 0 <= k < j ==> strings_view(header_idents@).contains(#[trigger] idents@[k]@),
            forall|k: int|
                0 <= k < j ==> is_first_index(strings_view(header_idents@), idents@[k]@, #[trigger] positions@[k] as int),
        decreases idents@.len() - j,
    {
        match position_of(header_idents, idents[j].as_str()) {
            Some(p) => {
                positions.push(p);
                proof {
                    assert(strings_view(header_idents@)[p as int] == idents@[j as int]@);
                }
            },
            None => {
                return Err(make_error(ErrorKind::Exec, "not found ident in add stmt"));
            },
        }
        j += 1;
    }
    Ok(positions)
}

/// `row` after the value `vs[k]` is put at position `ps[k]`, for each `k`
/// in order.
pub open spec fn placed(row: Seq<Seq<char>>, ps: Seq<usize>, vs: Seq<Seq<char>>) -> Seq<Seq<char>>
    decreases ps.len(),
{
    if ps.len() == 0 {
        row
    } else {
        placed(row, ps.drop_last(), vs).update(ps.last() as int, vs[ps.len() - 1])
    }
}

/// Puts each value at its position in a new row.
pub fn fill_row_at(row: &mut Vec<String>, positions: &Vec<usize>, values: &Vec<String>)
    requires
        values@.len() >= positions@.len(),
        forall|k: int| 0 <= k < positions@.len() ==> #[trigger] positions@[k] < old(row)@.len(),
    ensures
        strings_view(final(row)@) == placed(strings_view(old(row)@), positions@, strings_view(values@)),
{
    let ghost start = strings_view(row@);
    let ghost vs = strings_view(values@);
    let mut i: usize = 0;
    while i < positions.len()
        invariant
            values@.len() >= positions@.len(),
            vs == strings_view(values@),
            row@.len() == start.len(),
            forall|k: int| 0 <= k < positions@.len() ==> #[trigger] positions@[k] < start.len(),
            i <= positions@.len(),
            strings_view(row@) == placed(start, positions@.take(i as int), vs),
        decreases positions@.len() - i,
    {
        let ghost before = strings_view(row@);
        let p = positions[i];
        row.set(p, values[i].clone());
        proof {
            let t = positions@.take(i + 1);
            assert(t.drop_last() =~= positions@.take(i as int));
            assert(vs[i as int] == values@[i as int]@);
            assert(strings_view(row@) =~= before.update(p as int, vs[i as int]));
        }
        i += 1;
    }
    proof {
        assert(positions@.take(i as int) =~= positions@);
    }
}

/// Puts the values at the first positions of a new row, in order; more
/// values than fields is an error, and leaves the row as it was.
pub fn fill_row_in_order(row: &mut Vec<String>, values: &Vec<String>) -> (r: Result<(), Error>)
    ensures
        r is Err <==> values@.len() > old(row)@.len(),
        r matches Err(e) ==> e@ == ErrorKind::Exec && final(row)@ == old(row)@,
        r is Ok ==> strings_view(final(row)@) == strings_view(values@) + strings_view(old(row)@).skip(
            values@.len() as int,
        ),
{
    if values.len() > row.len() {
        return Err(make_error(ErrorKind::Exec, "does not match length: add stmt"));
    }
    let ghost start = strings_view(row@);
    let ghost vs = strings_view(values@);
    let mut i: usize = 0;
    while i < values.len()
        invariant
            vs == strings_view(values@),
            values@.len() <= start.len(),
            row@.len() == start.len(),
            i <= values@.len(),
            strings_view(row@) == vs.take(i as int) + start.skip(i as int),
        decreases values@.len() - i,
    {
        let ghost before = strings_view(row@);
        row.set(i, values[i].clone());
        proof {
            assert(vs[i as int] == values@[i as int]@);
            assert(strings_view(row@) =~= before.update(i as int, vs[i as int]));
            assert(vs.take(i + 1) + start.skip(i + 1) =~= before.update(i as int, vs[i as int]));
        }
        i += 1;
    }
    proof {
        assert(vs.take(i as int) =~= vs);
    }
    Ok(())
}

pub open spec fn pairs_view(v: Seq<(String, String)>) -> Seq<(Seq<char>, Seq<char>)> {
    v.map_values(|p: (String, String)| (p.0@, p.1@))
}

/// `row` after each update `(name, value)`, in order, has put `value` at
/// the first column called `name`; names of no column change nothing.
pub open spec fn replaced(ids: Seq<Seq<char>>, row: Seq<Seq<char>>, ups: Seq<(Seq<char>, Seq<char>)>) -> Seq<Seq<char>>
    decreases ups.len(),
{
    if ups.len() == 0 {
        row
    } else {
        let r = replaced(ids, row, ups.drop_last());
        if ids.contains(ups.last().0) {
            r.update(first_index(ids, ups.last().0), ups.last().1)
        } else {
            r
        }
    }
}

/// A row of a table after a set statement: each update names a column and
/// gives its new text.
pub fn replace_columns_by_objs(idents: &Vec<String>, cols: &Vec<String>, updates: &Vec<(String, String)>) -> (r: Result<
    Vec<String>,
    Error,
>)
    requires
        forall|k: int|
            0 <= k < updates@.len() && strings_view(idents@).contains(#[trigger] updates@[k].0@) ==> first_index(
                strings_view(idents@),
                updates@[k].0@,
            ) < cols@.len(),
    ensures
        r is Ok,
        strings_view(r->Ok_0@) == replaced(strings_view(idents@), strings_view(cols@), pairs_view(updates@)),
{
    let ghost ids = strings_view(idents@);
    let ghost ups = pairs_view(updates@);
    let mut row: Vec<String> = Vec::new();
    let mut i: usize = 0;
    while i < cols.len()
        invariant
            i <= cols@.len(),
            strings_view(row@) == strings_view(cols@).take(i as int),
        decreases cols@.len() - i,
    {
        let ghost before = strings_view(row@);
        row.push(cols[i].clone());
        proof {
            assert(strings_view(row@) =~= before.push(cols@[i as int]@));
            assert(strings_view(cols@).take(i + 1) =~= strings_view(cols@).take(i as int).push(cols@[i as int]@));
        }
        i += 1;
    }
    proof {
        assert(strings_view(cols@).take(i as int) =~= strings_view(cols@));
    }
    let mut j: usize = 0;
    while j < updates.len()
        invariant
            ids == strings_view(idents@),
            ups == pairs_view(updates@),
            forall|k: int|
                0 <= k < updates@.len() && ids.contains(#[trigger] updates@[k].0@) ==> first_index(ids, updates@[k].0@)
                    < cols@.len(),
            row@.len() == cols@.len(),
            j <= updates@.len(),
            strings_view(row@) == replaced(ids, strings_view(cols@), ups.take(j as int)),
        decreases updates@.len() - j,
    {
        let ghost before = strings_view(row@);
        proof {
            assert(ups.take(j + 1).drop_last() =~= ups.take(j as int));
            assert(ups.take(j + 1).last() == (updates@[j as int].0@, updates@[j as int].1@));
        }
        match position_of(idents, updates[j].0.as_str()) {
            Some(p) => {
                proof {
                    lemma_first_index(ids, updates@[j as int].0@, p as int);
                }
                row.set(p, updates[j].1.clone());
                proof {
                    assert(strings_view(row@) =~= before.update(p as int, updates@[j as int].1@));
                }
            },
            None => {},
        }
        j += 1;
    }
    proof {
        assert(ups.take(j as int) =~= ups);
    }
    Ok(row)
}

/// The column names of a list of column types.
pub open spec fn type_idents(ts: Seq<HeaderTypeV>) -> Seq<Seq<char>> {
    ts.map_values(|t: HeaderTypeV| t.ident)
}

/// A column type under another name where it is called `from`.
pub open spec fn renamed(t: HeaderTypeV, from: Seq<char>, to: Seq<char>) -> HeaderTypeV {
    if t.ident == from {
        HeaderTypeV { ident: to, ..t }
    } else {
        t
    }
}

/// The header row after the column `from_ident` is renamed `to_ident`.
pub fn rename_headers_column(types: &Vec<HeaderType>, from_ident: &str, to_ident: &str) -> (r: Result<Vec<String>, Error>)
    ensures
        r is Ok,
        r->Ok_0@.len() == types@.len(),
        forall|i: int|
            0 <= i < types@.len() ==> #[trigger] r->Ok_0@[i]@ == header_text(renamed(types@[i]@, from_ident@, to_ident@)),
{
    let mut dst: Vec<String> = Vec::new();
    let mut i: usize = 0;
    while i < types.len()
        invariant
            i <= types@.len(),
            dst@.len() == i,
            forall|k: int|
                0 <= k < i ==> #[trigger] dst@[k]@ == header_text(renamed(types@[k]@, from_ident@, to_ident@)),
        decreases types@.len() - i,
    {
        let mut typ = types[i].clone();
        if same_str(typ.ident.as_str(), from_ident) {
            typ.ident = to_ident.to_string();
        }
        proof {
            assert(typ@ == renamed(types@[i as int]@, from_ident@, to_ident@));
        }
        dst.push(typ.to_string());
        i += 1;
    }
    Ok(dst)
}

/// The header fields of the columns not called `ident`.
pub open spec fn headers_without(ts: Seq<HeaderTypeV>, hs: Seq<Seq<char>>, ident: Seq<char>) -> Seq<Seq<char>>
    decreases ts.len(),
{
    if ts.len() == 0 {
        Seq::empty()
    } else {
        let rest = headers_without(ts.drop_last(), hs, ident);
        if ts.last().ident != ident {
            rest.push(hs[ts.len() - 1])
        } else {
            rest
        }
    }
}

/// The header row without the column `ident`.
pub fn drop_headers_column(types: &Vec<HeaderType>, headers: &Vec<String>, ident: &str) -> (r: Result<Vec<String>, Error>)
    requires
        forall|i: int| headers@.len() <= i < types@.len() ==> #[trigger] types@[i]@.ident == ident@,
    ensures
        r is Ok,
        strings_view(r->Ok_0@) == headers_without(types_view(types@), strings_view(headers@), ident@),
{
    let ghost ts = types_view(types@);
    let ghost hs = strings_view(headers@);
    let mut row: Vec<String> = Vec::new();
    let mut i: usize = 0;
    while i < types.len()
        invariant
            ts == types_view(types@),
            hs == strings_view(headers@),
            forall|k: int| headers@.len() <= k < types@.len() ==> #[trigger] types@[k]@.ident == ident@,
            i <= ts.len(),
            strings_view(row@) == headers_without(ts.take(i as int), hs, ident@),
        decreases ts.len() - i,
    {
        let ghost before = strings_view(row@);
        proof {
            assert(ts.take(i + 1).drop_last() =~= ts.take(i as int));
            assert(ts[i as int] == types@[i as int]@);
        }
        if !same_str(types[i].ident.as_str(), ident) {
            proof {
                if i >= headers@.len() {
                    assert(types@[i as int]@.ident == ident@);
                }
            }
            row.push(headers[i].clone());
            proof {
                assert(strings_view(row@) =~= before.push(hs[i as int]));
            }
        }
        i += 1;
    }
    proof {
        assert(ts.take(i as int) =~= ts);
    }
    Ok(row)
}

/// A row after the field of column `ident` is read as its type and written
/// back as the text of what it read.
pub fn alter_field_column_type(types: &Vec<HeaderType>, ident: &str, row: &Vec<String>) -> (r: Result<Vec<String>, Error>)
    requires
        type_idents(types_view(types@)).contains(ident@) ==> first_index(type_idents(types_view(types@)), ident@)
            < row@.len(),
        forall|i: int| 0 <= i < row@.len() ==> #[trigger] row@[i]@.len() < usize::MAX / 4,
    ensures
        !type_idents(types_view(types@)).contains(ident@) ==> r is Err && r->Err_0@ == ErrorKind::Exec,
        type_idents(types_view(types@)).contains(ident@) ==> ({
            let k = first_index(type_idents(types_view(types@)), ident@);
            match cell_value(types@[k]@, row@[k]@) {
                Ok(o) => r is Ok && strings_view(r->Ok_0@) == strings_view(row@).update(k, object_text(o)),
                Err(e) => r is Err && r->Err_0@ == e,
            }
        }),
{
    let ghost tids = type_idents(types_view(types@));
    let mut index: usize = 0;
    let mut found = false;
    while index < types.len()
        invariant_except_break
            !found,
        invariant
            tids == type_idents(types_view(types@)),
            index <= types@.len(),
            forall|j: int| 0 <= j < index ==> tids[j] != ident@,
        ensures
            found ==> is_first_index(tids, ident@, index as int),
            !found ==> index == types@.len(),
            forall|j: int| 0 <= j < index ==> tids[j] != ident@,
        decreases types@.len() - index,
    {
        proof {
            assert(tids[index as int] == types@[index as int]@.ident);
        }
        if same_str(types[index].ident.as_str(), ident) {
            found = true;
            break;
        }
        index += 1;
    }
    if !found {
        proof {
            if tids.contains(ident@) {
                let j = choose|j: int| 0 <= j < tids.len() && tids[j] == ident@;
                assert(tids[j] != ident@);
            }
        }
        return Err(make_error(ErrorKind::Exec, "not found ident in column types"));
    }
    proof {
        lemma_first_index(tids, ident@, index as int);
    }
    let obj = types[index].parse_str(row[index].as_str())?;
    let text = obj.to_string();
    let mut dst: Vec<String> = Vec::new();
    let mut i: usize = 0;
    while i < row.len()
        invariant
            i <= row@.len(),
            index < row@.len(),
            text@ == object_text(obj@),
            strings_view(dst@) == strings_view(row@).update(index as int, text@).take(i as int),
        decreases row@.len() - i,
    {
        let ghost before = strings_view(dst@);
        if i == index {
            dst.push(text.clone());
        } else {
            dst.push(row[i].clone());
        }
        proof {
            let u = strings_view(row@).update(index as int, text@);
            assert(u.take(i + 1) =~= u.take(i as int).push(u[i as int]));
            assert(strings_view(dst@) =~= before.push(u[i as int]));
        }
        i += 1;
    }
    proof {
        assert(strings_view(row@).update(index as int, text@).take(i as int) =~= strings_view(row@).update(
            index as int,
            text@,
        ));
    }
    Ok(dst)
}

/// The column type that an alter statement gives column `ident`: each type
/// word in order sets its mark; a default value that is not a literal is an
/// error.
pub open spec fn retyped(ident: Seq<char>, cts: Seq<ColumnType>) -> Result<HeaderTypeV, ErrorKind>
    decreases cts.len(),
{
    if cts.len() == 0 {
        Ok(
            HeaderTypeV {
                ident,
                is_int: false,
                is_float: false,
                is_bool: false,
                is_char: false,
                char_size: 0,
                is_primary_key: false,
                is_auto_increment: false,
                is_default: false,
                default_value: None,
            },
        )
    } else {
        match retyped(ident, cts.drop_last()) {
            Err(k) => Err(k),
            Ok(t) => match cts.last() {
                ColumnType::I64 => Ok(HeaderTypeV { is_int: true, ..t }),
                ColumnType::F64 => Ok(HeaderTypeV { is_float: true, ..t }),
                ColumnType::Bool => Ok(HeaderTypeV { is_bool: true, ..t }),
                ColumnType::Char(n) => Ok(HeaderTypeV { is_char: true, char_size: n, ..t }),
                ColumnType::PrimaryKey => Ok(HeaderTypeV { is_primary_key: true, ..t }),
                ColumnType::AutoIncrement => Ok(HeaderTypeV { is_auto_increment: true, ..t }),
                ColumnType::Default(v) => match value_object(v) {
                    Ok(o) => Ok(HeaderTypeV { is_default: true, default_value: Some(o), ..t }),
                    Err(_) => Err(ErrorKind::Exec),
                },
            },
        }
    }
}

proof fn lemma_retyped_err_stays(ident: Seq<char>, cts: Seq<ColumnType>, i: int)
    requires
        0 <= i <= cts.len(),
        retyped(ident, cts.take(i)) is Err,
    ensures
        retyped(ident, cts) == retyped(ident, cts.take(i)),
    decreases cts.len() - i,
{
    if i == cts.len() {
        assert(cts.take(i) =~= cts);
    } else {
        assert(cts.take(i + 1).drop_last() =~= cts.take(i));
        lemma_retyped_err_stays(ident, cts, i + 1);
    }
}

/// The column type built from the type words of an alter statement.
fn build_header_type(ident: &str, column_types: &Vec<ColumnTypeNode>) -> (r: Result<HeaderType, Error>)
    ensures
        match retyped(ident@, ctv(column_types@)) {
            Ok(t) => r is Ok && r->Ok_0@ == t,
            Err(k) => r is Err && r->Err_0@ == k,
        },
{
    let ghost cts = ctv(column_types@);
    let mut typ = HeaderType::new();
    typ.ident = ident.to_string();
    let mut i: usize = 0;
    proof {
        assert(cts.take(0) =~= Seq::<ColumnType>::empty());
    }
    while i < column_types.len()
        invariant
            cts == ctv(column_types@),
            i <= cts.len(),
            retyped(ident@, cts.take(i as int)) == Ok::<HeaderTypeV, ErrorKind>(typ@),
        decreases cts.len() - i,
    {
        proof {
            assert(cts.take(i + 1).drop_last() =~= cts.take(i as int));
            assert(cts.take(i + 1).last() == column_types@[i as int]@);
        }
        match &column_types[i] {
            ColumnTypeNode::I64 => {
                typ.is_int = true;
            },
            ColumnTypeNode::F64 => {
                typ.is_float = true;
            },
            ColumnTypeNode::Bool => {
                typ.is_bool = true;
            },
            ColumnTypeNode::Char(size) => {
                typ.is_char = true;
                typ.char_size = *size;
            },
            ColumnTypeNode::PrimaryKey => {
                typ.is_primary_key = true;
            },
            ColumnTypeNode::AutoIncrement => {
                typ.is_auto_increment = true;
            },
            ColumnTypeNode::Default(value) => {
                typ.is_default = true;
                match exec_value(value) {
                    Ok(o) => {
                        typ.default_value = Some(o);
                    },
                    Err(e) => {
                        proof {
                            lemma_retyped_err_stays(ident@, cts, i + 1);
                        }
                        return Err(e);
                    },
                }
            },
        }
        i += 1;
    }
    proof {
        assert(cts.take(i as int) =~= cts);
    }
    Ok(typ)
}

/// A column type after an alter statement retypes column `ident` as `nt`.
pub open spec fn after_retype(t: HeaderTypeV, ident: Seq<char>, nt: HeaderTypeV) -> HeaderTypeV {
    if t.ident == ident {
        nt
    } else {
        t
    }
}

/// The header row after an alter statement gives column `column_ident` the
/// types `column_types`; the other columns keep theirs.
pub fn alter_headers_column_type(types: &Vec<HeaderType>, column_ident: &str, column_types: &Vec<ColumnTypeNode>) -> (r:
    Result<Vec<String>, Error>)
    ensures
        r is Err <==> type_idents(types_view(types@)).contains(column_ident@) && retyped(
            column_ident@,
            ctv(column_types@),
        ) is Err,
        r matches Err(e) ==> retyped(column_ident@, ctv(column_types@)) == Err::<HeaderTypeV, ErrorKind>(e@),
        r matches Ok(v) ==> v@.len() == types@.len() && forall|i: int|
            0 <= i < types@.len() ==> #[trigger] v@[i]@ == header_text(
                after_retype(types@[i]@, column_ident@, retyped(column_ident@, ctv(column_types@))->Ok_0),
            ),
{
    let ghost tids = type_idents(types_view(types@));
    let ghost nt = retyped(column_ident@, ctv(column_types@));
    let mut headers: Vec<String> = Vec::new();
    let mut i: usize = 0;
    while i < types.len()
        invariant
            tids == type_idents(types_view(types@)),
            nt == retyped(column_ident@, ctv(column_types@)),
            i <= types@.len(),
            forall|j: int| 0 <= j < i ==> tids[j] != column_ident@ || nt is Ok,
            headers@.len() == i,
            forall|j: int|
                0 <= j < i ==> #[trigger] headers@[j]@ == header_text(after_retype(types@[j]@, column_ident@, nt->Ok_0)),
        decreases types@.len() - i,
    {
        proof {
            assert(tids[i as int] == types@[i as int]@.ident);
        }
        if same_str(types[i].ident.as_str(), column_ident) {
            let typ = build_header_type(types[i].ident.as_str(), column_types)?;
            headers.push(typ.to_string());
        } else {
            headers.push(types[i].to_string());
        }
        i += 1;
    }
    proof {
        if tids.contains(column_ident@) {
            let j = choose|j: int| 0 <= j < tids.len() && tids[j] == column_ident@;
            assert(nt is Ok);
        }
    }
    Ok(headers)
}

pub open spec fn var_pairs_view(v: Seq<(String, Option<String>)>) -> Seq<(Seq<char>, Option<Seq<char>>)> {
    v.map_values(
        |p: (String, Option<String>)|
            (
                p.0@,
                match p.1 {
                    Some(x) => Some(x@),
                    None => None,
                },
            ),
    )
}

/// A new row after each `(name, value)` of an add statement, in order, has
/// put its value at the column `name`: a name without a value, or one that
/// names no column, is an error.
pub open spec fn vars_written(hids: Seq<Seq<char>>, row: Seq<Seq<char>>, ups: Seq<(Seq<char>, Option<Seq<char>>)>) -> Result<
    Seq<Seq<char>>,
    ErrorKind,
>
    decreases ups.len(),
{
    if ups.len() == 0 {
        Ok(row)
    } else {
        match vars_written(hids, row, ups.drop_last()) {
            Err(k) => Err(k),
            Ok(r) => match ups.last().1 {
                None => Err(ErrorKind::Exec),
                Some(v) => if hids.contains(ups.last().0) {
                    Ok(r.update(first_index(hids, ups.last().0), v))
                } else {
                    Err(ErrorKind::Exec)
                },
            },
        }
    }
}

proof fn lemma_vars_err_stays(
    hids: Seq<Seq<char>>,
    row: Seq<Seq<char>>,
    ups: Seq<(Seq<char>, Option<Seq<char>>)>,
    i: int,
)
    requires
        0 <= i <= ups.len(),
        vars_written(hids, row, ups.take(i)) is Err,
    ensures
        vars_written(hids, row, ups) == vars_written(hids, row, ups.take(i)),
    decreases ups.len() - i,
{
    if i == ups.len() {
        assert(ups.take(i) =~= ups);
    } else {
        assert(ups.take(i + 1).drop_last() =~= ups.take(i));
        lemma_vars_err_stays(hids, row, ups, i + 1);
    }
}

/// Writes the values that an add statement assigns by name into a new row.
pub fn rewrite_append_record_by_vars(headers: &Vec<String>, row: &mut Vec<String>, updates: &Vec<(String, Option<String>)>) -> (r:
    Result<(), Error>)
    requires
        forall|k: int|
            0 <= k < updates@.len() && header_idents(strings_view(headers@)).contains(#[trigger] updates@[k].0@)
                ==> first_index(header_idents(strings_view(headers@)), updates@[k].0@) < old(row)@.len(),
    ensures
        match vars_written(header_idents(strings_view(headers@)), strings_view(old(row)@), var_pairs_view(updates@)) {
            Ok(w) => r is Ok && strings_view(final(row)@) == w,
            Err(k) => r is Err && r->Err_0@ == k,
        },
{
    let ghost hids = header_idents(strings_view(headers@));
    let ghost start = strings_view(row@);
    let ghost ups = var_pairs_view(updates@);
    let mut i: usize = 0;
    proof {
        assert(ups.take(0) =~= Seq::<(Seq<char>, Option<Seq<char>>)>::empty());
    }
    while i < updates.len()
        invariant
            hids == header_idents(strings_view(headers@)),
            ups == var_pairs_view(updates@),
            start == strings_view(old(row)@),
            row@.len() == start.len(),
            forall|k: int|
                0 <= k < updates@.len() && hids.contains(#[trigger] updates@[k].0@) ==> first_index(hids, updates@[k].0@)
                    < start.len(),
            i <= ups.len(),
            vars_written(hids, start, ups.take(i as int)) == Ok::<Seq<Seq<char>>, ErrorKind>(strings_view(row@)),
        decreases ups.len() - i,
    {
        let ghost before = strings_view(row@);
        proof {
            assert(ups.take(i + 1).drop_last() =~= ups.take(i as int));
            assert(ups.take(i + 1).last() == ups[i as int]);
        }
        match &updates[i].1 {
            Some(value) => {
                let pos = find_header_position(headers, updates[i].0.as_str());
                match pos {
                    Ok(Some(index)) => {
                        proof {
                            lemma_first_index(hids, updates@[i as int].0@, index as int);
                        }
                        row.set(index, value.clone());
                        proof {
                            assert(strings_view(row@) =~= before.update(index as int, value@));
                        }
                    },
                    _ => {
                        proof {
                            assert(ups[i as int].0 == updates@[i as int].0@);
                            assert(ups[i as int].1 == Some(value@));
                            assert(!hids.contains(ups[i as int].0));
                            assert(vars_written(hids, start, ups.take(i + 1)) is Err);
                            lemma_vars_err_stays(hids, start, ups, i + 1);
                        }
                        return Err(make_error(ErrorKind::Exec, "invalid column in append record"));
                    },
                }
            },
            None => {
                proof {
                    assert(ups[i as int].1 is None);
                    assert(vars_written(hids, start, ups.take(i + 1)) == Err::<Seq<Seq<char>>, ErrorKind>(ErrorKind::Exec));
                    lemma_vars_err_stays(hids, start, ups, i + 1);

                }
                return Err(make_error(ErrorKind::Exec, "failed to get value of vars"));
            },
        }
        i += 1;
    }
    proof {
        assert(ups.take(i as int) =~= ups);
    }
    Ok(())
}

/// How many of the flags are set.
pub open spec fn count_true(s: Seq<bool>) -> int
    decreases s.len(),
{
    if s.len() == 0 {
        0
    } else {
        count_true(s.drop_last()) + if s.last() {
            1int
        } else {
            0int
        }
    }
}

/// How many matching rows a statement takes: with `ALL`, as many as the
/// limit allows (all of them without a limit); without it, the first one
/// only. A limit below zero takes none.
pub open spec fn row_cap(all: bool, limit: Option<i128>) -> Option<int> {
    match limit {
        None => if all {
            None
        } else {
            Some(1int)
        },
        Some(l) => {
            let c: int = if l < 0 {
                0
            } else {
                l as int
            };
            if all {
                Some(c)
            } else if c < 1 {
                Some(c)
            } else {
                Some(1int)
            }
        },
    }
}

pub open spec fn under_cap(n: int, cap: Option<int>) -> bool {
    match cap {
        None => true,
        Some(c) => n < c,
    }
}

/// The rows that a get, set or delete statement acts on, given which rows
/// its where clause matches (every row, without one): the matching rows in
/// order, as many as `row_cap` allows.
pub fn chosen_rows(matches: &Vec<bool>, all: bool, limit: Option<i128>) -> (r: Vec<bool>)
    ensures
        r@ == chosen(matches@, row_cap(all, limit)),
{
    let cap: Option<i128> = match limit {
        None => if all {
            None
        } else {
            Some(1)
        },
        Some(l) => {
            let c: i128 = if l < 0 {
                0
            } else {
                l
            };
            if all {
                Some(c)
            } else if c < 1 {
                Some(c)
            } else {
                Some(1)
            }
        },
    };
    let mut taken: Vec<bool> = Vec::new();
    let mut n: usize = 0;
    let mut i: usize = 0;
    while i < matches.len()
        invariant
            i <= matches@.len(),
            n <= i,
            n == count_true(matches@.take(i as int)),
            match cap {
                None => row_cap(all, limit) is None,
                Some(c) => row_cap(all, limit) == Some(c as int),
            },
            taken@.len() == i,
            forall|k: int|
                0 <= k < i ==> #[trigger] taken@[k] == (matches@[k] && under_cap(
                    count_true(matches@.take(k)),
                    row_cap(all, limit),
                )),
        decreases matches@.len() - i,
    {
        let room = match cap {
            None => true,
            Some(c) => (n as i128) < c,
        };
        taken.push(matches[i] && room);
        proof {
            assert(matches@.take(i + 1).drop_last() =~= matches@.take(i as int));
        }
        if matches[i] {
            n += 1;
        }
        i += 1;
    }
    proof {
        assert(taken@ =~= chosen(matches@, row_cap(all, limit)));
    }
    taken
}

/// Which rows are taken: each matching row while fewer than the cap have
/// been taken before it.
pub open spec fn chosen(matches: Seq<bool>, cap: Option<int>) -> Seq<bool> {
    Seq::new(matches.len(), |i: int| matches[i] && under_cap(count_true(matches.take(i)), cap))
}

/// `n`, but no more than the cap.
pub open spec fn capped(n: int, cap: Option<int>) -> int {
    match cap {
        None => n,
        Some(c) => if n < c {
            n
        } else {
            c
        },
    }
}

proof fn lemma_chosen_prefix(m: Seq<bool>, cap: Option<int>, k: int)
    requires
        0 <= k <= m.len(),
        cap matches Some(c) ==> c >= 0,
    ensures
        count_true(chosen(m, cap).take(k)) == capped(count_true(m.take(k)), cap),
    decreases k,
{
    if k == 0 {
        assert(chosen(m, cap).take(0) =~= Seq::<bool>::empty());
        assert(m.take(0) =~= Seq::<bool>::empty());
    } else {
        lemma_chosen_prefix(m, cap, k - 1);
        assert(chosen(m, cap).take(k).drop_last() =~= chosen(m, cap).take(k - 1));
        assert(m.take(k).drop_last() =~= m.take(k - 1));
    }
}

/// A get, set or delete statement acts only on rows that its where clause
/// matches, and on as many of them as its cap allows: all of them with
/// `ALL` and no limit, at most one without `ALL`, at most the limit with
/// one.
pub proof fn lemma_chosen_rows_count(matches: Seq<bool>, all: bool, limit: Option<i128>)
    ensures
        forall|i: int| 0 <= i < matches.len() ==> #[trigger] chosen(matches, row_cap(all, limit))[i] ==> matches[i],
        count_true(chosen(matches, row_cap(all, limit))) == capped(count_true(matches), row_cap(all, limit)),
        all && limit is None ==> chosen(matches, row_cap(all, limit)) == matches,
        !all ==> count_true(chosen(matches, row_cap(all, limit))) <= 1,
{
    let cap = row_cap(all, limit);
    let c = chosen(matches, cap);
    lemma_chosen_prefix(matches, cap, matches.len() as int);
    assert(c.take(matches.len() as int) =~= c);
    assert(matches.take(matches.len() as int) =~= matches);
    if all && limit is None {
        assert(c =~= matches);
    }
}

/// The objects of a list of literal values, or the error of the first that
/// is no literal.
pub open spec fn literal_objects(vs: Seq<Value>) -> Result<Seq<ObjectV>, ErrorKind>
    decreases vs.len(),
{
    if vs.len() == 0 {
        Ok(Seq::empty())
    } else {
        match literal_objects(vs.drop_last()) {
            Err(k) => Err(k),
            Ok(os) => match value_object(vs.last()) {
                Ok(o) => Ok(os.push(o)),
                Err(_) => Err(ErrorKind::Exec),
            },
        }
    }
}

proof fn lemma_literals_err_stays(vs: Seq<Value>, i: int)
    requires
        0 <= i <= vs.len(),
        literal_objects(vs.take(i)) is Err,
    ensures
        literal_objects(vs) == literal_objects(vs.take(i)),
    decreases vs.len() - i,
{
    if i == vs.len() {
        assert(vs.take(i) =~= vs);
    } else {
        assert(vs.take(i + 1).drop_last() =~= vs.take(i));
        lemma_literals_err_stays(vs, i + 1);
    }
}

/// The objects of the values in brackets of an add statement.
pub fn exec_paren_values(node: &ParenValuesNode) -> (r: Result<Vec<Object>, Error>)
    ensures
        match literal_objects(sv(node.values@)) {
            Ok(os) => r is Ok && r->Ok_0@.map_values(|o: Object| o@) == os,
            Err(k) => r is Err && r->Err_0@ == k,
        },
{
    let ghost vs = sv(node.values@);
    let mut objs: Vec<Object> = Vec::new();
    let mut i: usize = 0;
    proof {
        assert(vs.take(0) =~= Seq::<Value>::empty());
        assert(objs@.map_values(|o: Object| o@) =~= Seq::<ObjectV>::empty());
    }
    while i < node.values.len()
        invariant
            vs == sv(node.values@),
            i <= vs.len(),
            objs@.len() == i,
            literal_objects(vs.take(i as int)) == Ok::<Seq<ObjectV>, ErrorKind>(objs@.map_values(|o: Object| o@)),
        decreases vs.len() - i,
    {
        proof {
            assert(vs.take(i + 1).drop_last() =~= vs.take(i as int));
            assert(vs.take(i + 1).last() == node.values@[i as int]@);
        }
        let ghost before = objs@.map_values(|o: Object| o@);
        match exec_value(&node.values[i]) {
            Ok(o) => {
                objs.push(o);
                proof {
                    assert(objs@.map_values(|o: Object| o@) =~= before.push(objs@[i as int]@));
                }
            },
            Err(e) => {
                proof {
                    lemma_literals_err_stays(vs, i + 1);
                }
                return Err(e);
            },
        }
        i += 1;
    }
    proof {
        assert(vs.take(i as int) =~= vs);
    }
    Ok(objs)
}

/// The names in brackets of an add statement, as objects.
pub fn exec_paren_idents(node: &ParenIdentsNode) -> (r: Result<Vec<Object>, Error>)
    ensures
        r is Ok,
        r->Ok_0@.len() == node.idents@.len(),
        forall|i: int|
            0 <= i < node.idents@.len() ==> #[trigger] r->Ok_0@[i]@ == (ObjectV {
                kind: ObjectKind::Ident,
                ident: node.idents@[i]@,
                ..nil_object()
            }),
{
    let mut objs: Vec<Object> = Vec::new();
    let mut i: usize = 0;
    while i < node.idents.len()
        invariant
            i <= node.idents@.len(),
            objs@.len() == i,
            forall|k: int|
                0 <= k < i ==> #[trigger] objs@[k]@ == (ObjectV {
                    kind: ObjectKind::Ident,
                    ident: node.idents@[k]@,
                    ..nil_object()
                }),
        decreases node.idents@.len() - i,
    {
        objs.push(Object::from_ident(node.idents[i].value.as_str()));
        i += 1;
    }
    Ok(objs)
}

proof fn lemma_drop_prefix(ts: Seq<HeaderTypeV>, hs: Seq<Seq<char>>, ident: Seq<char>, k: int, n: int)
    requires
        ts.len() == hs.len(),
        0 <= k < ts.len(),
        0 <= n <= ts.len(),
        ts[k].ident == ident,
        forall|j: int| 0 <= j < ts.len() && j != k ==> ts[j].ident != ident,
    ensures
        headers_without(ts.take(n), hs, ident) == (if n <= k {
            hs.take(n)
        } else {
            hs.take(k) + hs.subrange(k + 1, n)
        }),
    decreases n,
{
    if n == 0 {
        assert(ts.take(0) =~= Seq::<HeaderTypeV>::empty());
        assert(hs.take(0) =~= Seq::<Seq<char>>::empty());
    } else {
        lemma_drop_prefix(ts, hs, ident, k, n - 1);
        assert(ts.take(n).drop_last() =~= ts.take(n - 1));
        assert(ts.take(n).last() == ts[n - 1]);
        if n <= k {
            assert(hs.take(n) =~= hs.take(n - 1).push(hs[n - 1]));
        } else if n == k + 1 {
            assert(hs.subrange(k + 1, n) =~= Seq::<Seq<char>>::empty());
            assert(hs.take(k) + hs.subrange(k + 1, n) =~= hs.take(k));
            assert(hs.take(n - 1) =~= hs.take(k));
        } else {
            assert(hs.subrange(k + 1, n) =~= hs.subrange(k + 1, n - 1).push(hs[n - 1]));
            assert(hs.take(k) + hs.subrange(k + 1, n) =~= (hs.take(k) + hs.subrange(k + 1, n - 1)).push(hs[n - 1]));
        }
    }
}

/// Dropping a column takes the same field out of the header row as out of
/// each row: where exactly one column is called `ident`, at position `k`,
/// the header row without it is the header row without its field `k`.
pub proof fn lemma_drop_column_aligned(ts: Seq<HeaderTypeV>, hs: Seq<Seq<char>>, ident: Seq<char>, k: int)
    requires
        ts.len() == hs.len(),
        0 <= k < ts.len(),
        ts[k].ident == ident,
        forall|j: int| 0 <= j < ts.len() && j != k ==> ts[j].ident != ident,
    ensures
        headers_without(ts, hs, ident) == without(hs, k),
{
    lemma_drop_prefix(ts, hs, ident, k, ts.len() as int);
    assert(ts.take(ts.len() as int) =~= ts);
    assert(hs.take(k) =~= hs.subrange(0, k));
    assert(hs.take(k) + hs.subrange(k + 1, ts.len() as int) =~= hs.remove(k));
}

/// A column of a type, without a default value, and with AUTO_INCREMENT only
/// on whole numbers.
pub open spec fn plain_column(h: HeaderTypeV) -> bool {
    &&& !h.is_default
    &&& h.is_int || h.is_float || h.is_bool || h.is_char
    &&& !h.is_int ==> !h.is_auto_increment
}

proof fn lemma_default_texts_prefix(ts: Seq<HeaderTypeV>)
    requires
        forall|i: int| 0 <= i < ts.len() ==> plain_column(#[trigger] ts[i]),
    ensures
        default_texts(ts) is Ok,
        default_texts(ts)->Ok_0.len() == ts.len(),
        forall|i: int|
            0 <= i < ts.len() ==> default_text(ts[i]) == Ok::<Seq<char>, ErrorKind>(
                #[trigger] default_texts(ts)->Ok_0[i],
            ),
    decreases ts.len(),
{
    if ts.len() > 0 {
        lemma_default_texts_prefix(ts.drop_last());
        lemma_default_text_is_a_cell(ts.last());
        assert(plain_column(ts[ts.len() - 1]));
    }
}

/// A new row that is given no values, each field the default of its
/// column, passes the check of a new row, where every column is plain.
pub proof fn lemma_default_row_passes(hs: Seq<Seq<char>>)
    requires
        header_types(hs) is Ok,
        forall|i: int|
            0 <= i < header_types(hs)->Ok_0.len() ==> plain_column(#[trigger] header_types(hs)->Ok_0[i]),
    ensures
        default_texts(header_types(hs)->Ok_0) is Ok,
        record_check(default_texts(header_types(hs)->Ok_0)->Ok_0, hs) is Ok,
{
    let ts = header_types(hs)->Ok_0;
    lemma_default_texts_prefix(ts);
    let ds = default_texts(ts)->Ok_0;
    assert forall|i: int| 0 <= i < ds.len() implies #[trigger] cell_value(ts[i], ds[i]) is Ok by {
        lemma_default_text_is_a_cell(ts[i]);
        assert(plain_column(ts[i]));
    }
}

/// Each type word of an alter statement marks exactly its own kind: the
/// column that `retyped` gives keeps its name, and is a whole number, a
/// fraction, a truth value, a character column, a primary key or an auto
/// increment exactly where the type words name `INT`, `FLOAT`, `BOOL`,
/// `CHAR[n]`, `PRIMARY_KEY` or `AUTO_INCREMENT` (so `BOOL` alone gives a
/// truth value that is not a whole number).
pub proof fn lemma_type_words_mark_their_kind(ident: Seq<char>, cts: Seq<ColumnType>)
    ensures
        retyped(ident, cts) matches Ok(t) ==> {
            &&& t.ident == ident
            &&& t.is_int <==> cts.contains(ColumnType::I64)
            &&& t.is_float <==> cts.contains(ColumnType::F64)
            &&& t.is_bool <==> cts.contains(ColumnType::Bool)
            &&& t.is_char <==> exists|n: usize| cts.contains(ColumnType::Char(n))
            &&& t.is_primary_key <==> cts.contains(ColumnType::PrimaryKey)
            &&& t.is_auto_increment <==> cts.contains(ColumnType::AutoIncrement)
        },
    decreases cts.len(),
{
    if cts.len() > 0 {
        let init = cts.drop_last();
        lemma_type_words_mark_their_kind(ident, init);
        assert forall|c: ColumnType| cts.contains(c) <==> (init.contains(c) || cts.last() == c) by {
            if cts.contains(c) {
                let k = choose|k: int| 0 <= k < cts.len() && cts[k] == c;
                if k < cts.len() - 1 {
                    assert(init[k] == c);
                }
            }
            if init.contains(c) {
                let k = choose|k: int| 0 <= k < init.len() && init[k] == c;
                assert(cts[k] == c);
            }
            if cts.last() == c {
                assert(cts[cts.len() - 1] == c);
            }
        }
        match cts.last() {
            ColumnType::Char(m) => {
                assert(cts.contains(ColumnType::Char(m)));
            },
            _ => {
                if exists|n: usize| cts.contains(ColumnType::Char(n)) {
                    let n = choose|n: usize| cts.contains(ColumnType::Char(n));
                    assert(init.contains(ColumnType::Char(n)));
                }
                if exists|n: usize| init.contains(ColumnType::Char(n)) {
                    let n = choose|n: usize| init.contains(ColumnType::Char(n));
                    assert(cts.contains(ColumnType::Char(n)));
                }
            },
        }
    }
}

} // verus!
