//! The order of the rows of a get statement with `ORDER BY`: by the text of
//! one column, compared as `str` compares, rising or falling, rows with the
//! same text in the order of the table.
use vstd::prelude::*;
use crate::eval::strings_view;
use crate::text::chars_of;

verus! {

/// Whether text `a` comes before text `b`: at the first character where
/// they differ, the smaller character; where one is the start of the
/// other, the shorter. This is the order of `str::cmp`, whose byte order on
/// UTF-8 is the order of the characters.
pub open spec fn text_lt(a: Seq<char>, b: Seq<char>) -> bool
    decreases a.len(),
{
    if a.len() == 0 {
        b.len() > 0
    } else if b.len() == 0 {
        false
    } else if a[0] != b[0] {
        a[0] < b[0]
    } else {
        text_lt(a.drop_first(), b.drop_first())
    }
}

pub proof fn lemma_text_lt_irreflexive(a: Seq<char>)
    ensures
        !text_lt(a, a),
    decreases a.len(),
{
    if a.len() > 0 {
        lemma_text_lt_irreflexive(a.drop_first());
    }
}

pub proof fn lemma_text_lt_transitive(a: Seq<char>, b: Seq<char>, c: Seq<char>)
    requires
        text_lt(a, b),
        text_lt(b, c),
    ensures
        text_lt(a, c),
    decreases a.len(),
{
    if a.len() > 0 && b.len() > 0 && c.len() > 0 && a[0] == b[0] && b[0] == c[0] {
        lemma_text_lt_transitive(a.drop_first(), b.drop_first(), c.drop_first());
    }
}

pub proof fn lemma_text_lt_total(a: Seq<char>, b: Seq<char>)
    ensures
        a == b || text_lt(a, b) || text_lt(b, a),
    decreases a.len(),
{
    if a.len() == 0 && b.len() == 0 {
        assert(a =~= b);
    } else if a.len() > 0 && b.len() > 0 && a[0] == b[0] {
        lemma_text_lt_total(a.drop_first(), b.drop_first());
        if a.drop_first() == b.drop_first() {
            assert(a.drop_first().len() == a.len() - 1);
            assert(b.drop_first().len() == b.len() - 1);
            assert(a.len() == b.len());
            assert forall|k: int| 0 <= k < a.len() implies a[k] == b[k] by {
                if k > 0 {
                    assert(a[k] == a.drop_first()[k - 1]);
                    assert(b[k] == b.drop_first()[k - 1]);
                }
            }
            assert(a =~= b);
        }
    }
}

/// Whether `a` goes before `b` in a rising order, or in a falling one.
pub open spec fn goes_before(a: Seq<char>, b: Seq<char>, is_asc: bool) -> bool {
    if is_asc {
        text_lt(a, b)
    } else {
        text_lt(b, a)
    }
}

proof fn lemma_before_facts(a: Seq<char>, b: Seq<char>, c: Seq<char>, is_asc: bool)
    ensures
        !goes_before(a, a, is_asc),
        goes_before(a, b, is_asc) && goes_before(b, c, is_asc) ==> goes_before(a, c, is_asc),
        a == b || goes_before(a, b, is_asc) || goes_before(b, a, is_asc),
        goes_before(a, b, is_asc) ==> !goes_before(b, a, is_asc),
{
    lemma_text_lt_irreflexive(a);
    lemma_text_lt_total(a, b);
    if text_lt(a, b) && text_lt(b, c) {
        lemma_text_lt_transitive(a, b, c);
    }
    if text_lt(c, b) && text_lt(b, a) {
        lemma_text_lt_transitive(c, b, a);
    }
    if text_lt(a, b) && text_lt(b, a) {
        lemma_text_lt_transitive(a, b, a);
    }
}

/// Whether text `a` comes before text `b`.
pub fn text_less(a: &str, b: &str) -> (r: bool)
    ensures
        r == text_lt(a@, b@),
{
    let x = chars_of(a);
    let y = chars_of(b);
    let mut i: usize = 0;
    proof {
        assert(a@.skip(0) =~= a@);
        assert(b@.skip(0) =~= b@);
    }
    while i < x.len() && i < y.len()
        invariant
            x@ == a@,
            y@ == b@,
            i <= x@.len(),
            i <= y@.len(),
            text_lt(a@, b@) == text_lt(a@.skip(i as int), b@.skip(i as int)),
        decreases x@.len() - i,
    {
        if x[i] != y[i] {
            return x[i] < y[i];
        }
        proof {
            assert(a@.skip(i as int).drop_first() =~= a@.skip(i + 1));
            assert(b@.skip(i as int).drop_first() =~= b@.skip(i + 1));
        }
        i += 1;
    }
    i == x.len() && i < y.len()
}

/// Whether `order` lists each of `0..n` once.
pub open spec fn is_permutation(order: Seq<usize>, n: int) -> bool {
    &&& order.len() == n
    &&& forall|p: int| 0 <= p < n ==> #[trigger] order[p] < n
    &&& forall|p: int, q: int| 0 <= p < q < n ==> order[p] != order[q]
}

/// Whether the keys, taken in `order`, never fall out of the order, and
/// keys that are the same keep the order of their rows.
pub open spec fn sorted_stably(keys: Seq<Seq<char>>, order: Seq<usize>, is_asc: bool) -> bool {
    forall|p: int, q: int|
        #![trigger order[p], order[q]]
        0 <= p < q < order.len() ==> !goes_before(keys[order[q] as int], keys[order[p] as int], is_asc) && (keys[order[p]
            as int] == keys[order[q] as int] ==> order[p] < order[q])
}

/// The order in which rows with these keys are listed: sorted by key,
/// rising or falling, rows with the same key in their first order.
pub fn sort_order(keys: &Vec<String>, is_asc: bool) -> (order: Vec<usize>)
    ensures
        is_permutation(order@, keys@.len() as int),
        sorted_stably(strings_view(keys@), order@, is_asc),
{
    let ghost ks = strings_view(keys@);
    let mut order: Vec<usize> = Vec::new();
    let mut i: usize = 0;
    while i < keys.len()
        invariant
            ks == strings_view(keys@),
            i <= ks.len(),
            is_permutation(order@, i as int),
            sorted_stably(ks, order@, is_asc),
        decreases ks.len() - i,
    {
        let mut j: usize = order.len();
        while j > 0
            invariant
                ks == strings_view(keys@),
                i < ks.len(),
                order@.len() == i,
                j <= i,
                is_permutation(order@, i as int),
                sorted_stably(ks, order@, is_asc),
                forall|k: int| j <= k < i ==> goes_before(ks[i as int], #[trigger] ks[order@[k] as int], is_asc),
            ensures
                j > 0 ==> !goes_before(ks[i as int], ks[order@[j - 1] as int], is_asc),
            decreases j,
        {
            let prev = order[j - 1];
            proof {
                assert(ks[prev as int] == keys@[prev as int]@);
                assert(ks[i as int] == keys@[i as int]@);
            }
            let moves = if is_asc {
                text_less(keys[i].as_str(), keys[prev].as_str())
            } else {
                text_less(keys[prev].as_str(), keys[i].as_str())
            };
            if !moves {
                break;
            }
            j -= 1;
        }
        proof {
            lemma_insert_keeps_order(ks, order@, i as int, j as int, is_asc);
        }
        order.insert(j, i);
        i += 1;
    }
    order
}

proof fn lemma_insert_keeps_order(ks: Seq<Seq<char>>, order: Seq<usize>, i: int, j: int, is_asc: bool)
    requires
        0 <= j <= i < ks.len(),
        i < usize::MAX,
        is_permutation(order, i),
        sorted_stably(ks, order, is_asc),
        forall|k: int| j <= k < i ==> goes_before(ks[i], #[trigger] ks[order[k] as int], is_asc),
        j > 0 ==> !goes_before(ks[i], ks[order[j - 1] as int], is_asc),
    ensures
        is_permutation(order.insert(j, i as usize), i + 1),
        sorted_stably(ks, order.insert(j, i as usize), is_asc),
{
    let o2 = order.insert(j, i as usize);
    assert(o2.len() == i + 1);
    assert forall|p: int| 0 <= p < i + 1 implies #[trigger] o2[p] < i + 1 by {
        if p < j {
            assert(o2[p] == order[p]);
        } else if p > j {
            assert(o2[p] == order[p - 1]);
        }
    }
    assert forall|p: int, q: int| 0 <= p < q < i + 1 implies o2[p] != o2[q] by {
        if p < j && q < j {
            assert(o2[p] == order[p] && o2[q] == order[q]);
        } else if p < j && q == j {
            assert(o2[p] == order[p]);
        } else if p < j && q > j {
            assert(o2[p] == order[p] && o2[q] == order[q - 1]);
        } else if p == j {
            assert(o2[q] == order[q - 1]);
        } else {
            assert(o2[p] == order[p - 1] && o2[q] == order[q - 1]);
        }
    }
    assert forall|p: int, q: int| 0 <= p < q < o2.len() implies !goes_before(
        ks[o2[q] as int],
        ks[o2[p] as int],
        is_asc,
    ) && (ks[o2[p] as int] == ks[o2[q] as int] ==> o2[p] < o2[q]) by {
        let a = ks[o2[p] as int];
        let b = ks[o2[q] as int];
        if p < j && q < j {
            assert(o2[p] == order[p] && o2[q] == order[q]);
        } else if p > j && q > j {
            assert(o2[p] == order[p - 1] && o2[q] == order[q - 1]);
        } else if q == j {
            assert(o2[p] == order[p]);
            assert(o2[q] == i);
            let last = ks[order[j - 1] as int];
            if p < j - 1 {
                assert(!goes_before(last, a, is_asc));
            }
            lemma_before_facts(a, last, a, is_asc);
            lemma_before_facts(ks[i], a, last, is_asc);
            assert(!goes_before(ks[i], a, is_asc));
        } else if p == j {
            assert(o2[p] == i);
            assert(o2[q] == order[q - 1]);
            assert(goes_before(ks[i], ks[order[q - 1] as int], is_asc));
            lemma_before_facts(ks[i], b, ks[i], is_asc);
        } else {
            assert(p < j && q > j);
            assert(o2[p] == order[p] && o2[q] == order[q - 1]);
        }
    }
}

pub open spec fn rows_view(v: Seq<Vec<String>>) -> Seq<Seq<Seq<char>>> {
    v.map_values(|r: Vec<String>| strings_view(r@))
}

/// The key of each row: its field at `index`.
pub open spec fn column_keys(rows: Seq<Seq<Seq<char>>>, index: int) -> Seq<Seq<char>> {
    Seq::new(rows.len(), |k: int| rows[k][index])
}

pub(crate) fn copy_row(row: &Vec<String>) -> (r: Vec<String>)
    ensures
        strings_view(r@) == strings_view(row@),
{
    let mut r: Vec<String> = Vec::new();
    let mut i: usize = 0;
    while i < row.len()
        invariant
            i <= row@.len(),
            strings_view(r@) == strings_view(row@).take(i as int),
        decreases row@.len() - i,
    {
        let ghost before = strings_view(r@);
        r.push(row[i].clone());
        proof {
            assert(strings_view(r@) =~= before.push(row@[i as int]@));
            assert(strings_view(row@).take(i + 1) =~= strings_view(row@).take(i as int).push(row@[i as int]@));
        }
        i += 1;
    }
    proof {
        assert(strings_view(row@).take(i as int) =~= strings_view(row@));
    }
    r
}

/// A copy of the rows.
pub(crate) fn copy_rows(rows: &Vec<Vec<String>>) -> (r: Vec<Vec<String>>)
    ensures
        rows_view(r@) == rows_view(rows@),
{
    let mut r: Vec<Vec<String>> = Vec::new();
    let mut i: usize = 0;
    while i < rows.len()
        invariant
            i <= rows@.len(),
            rows_view(r@) == rows_view(rows@).take(i as int),
        decreases rows@.len() - i,
    {
        let ghost before = rows_view(r@);
        let c = copy_row(&rows[i]);
        r.push(c);
        proof {
            assert(rows_view(r@) =~= before.push(strings_view(rows@[i as int]@)));
            assert(rows_view(rows@).take(i + 1) =~= rows_view(rows@).take(i as int).push(strings_view(rows@[i as int]@)));
        }
        i += 1;
    }
    proof {
        assert(rows_view(rows@).take(i as int) =~= rows_view(rows@));
    }
    r
}

/// The rows sorted by their field at `index`, rising or falling; rows with
/// the same field keep their order.
pub fn sort_rows(records: &Vec<Vec<String>>, index: usize, is_asc: bool) -> (r: Vec<Vec<String>>)
    requires
        records@.len() >= 2 ==> forall|k: int| 0 <= k < records@.len() ==> index < #[trigger] records@[k]@.len(),
    ensures
        exists|order: Seq<usize>|
            #![trigger is_permutation(order, records@.len() as int)]
            is_permutation(order, records@.len() as int) && sorted_stably(
                column_keys(rows_view(records@), index as int),
                order,
                is_asc,
            ) && rows_view(r@) == Seq::new(
                records@.len(),
                |p: int| rows_view(records@)[order[p] as int],
            ),
{
    let ghost rows = rows_view(records@);
    let ghost keys_spec = column_keys(rows, index as int);
    let mut keys: Vec<String> = Vec::new();
    let mut order: Vec<usize> = Vec::new();
    if records.len() < 2 {
        let mut i: usize = 0;
        while i < records.len()
            invariant
                i <= records@.len(),
                records@.len() < 2,
                order@.len() == i,
                forall|p: int| 0 <= p < i ==> #[trigger] order@[p] == p,
            decreases records@.len() - i,
        {
            order.push(i);
            i += 1;
        }
    } else {
        let mut i: usize = 0;
        while i < records.len()
            invariant
                rows == rows_view(records@),
                keys_spec == column_keys(rows, index as int),
                forall|k: int| 0 <= k < records@.len() ==> index < #[trigger] records@[k]@.len(),
                i <= records@.len(),
                strings_view(keys@) == keys_spec.take(i as int),
            decreases records@.len() - i,
        {
            let ghost before = strings_view(keys@);
            keys.push(records[i][index].clone());
            proof {
                assert(strings_view(keys@) =~= before.push(records@[i as int]@[index as int]@));
                assert(rows[i as int] == strings_view(records@[i as int]@));
                assert(keys_spec.take(i + 1) =~= keys_spec.take(i as int).push(keys_spec[i as int]));
            }
            i += 1;
        }
        proof {
            assert(keys_spec.take(i as int) =~= keys_spec);
        }
        order = sort_order(&keys, is_asc);
    }
    let mut out: Vec<Vec<String>> = Vec::new();
    let mut p: usize = 0;
    while p < order.len()
        invariant
            rows == rows_view(records@),
            is_permutation(order@, records@.len() as int),
            p <= order@.len(),
            out@.len() == p,
            forall|k: int| 0 <= k < p ==> strings_view(#[trigger] out@[k]@) == rows[order@[k] as int],
        decreases order@.len() - p,
    {
        let row = copy_row(&records[order[p]]);
        out.push(row);
        proof {
            assert(rows[order@[p as int] as int] == strings_view(records@[order@[p as int] as int]@));
        }
        p += 1;
    }
    proof {
        assert forall|q: int| 0 <= q < out@.len() implies rows_view(out@)[q] == rows[order@[q] as int] by {
            assert(rows_view(out@)[q] == strings_view(out@[q]@));
        }
        assert(rows_view(out@) =~= Seq::new(records@.len(), |q: int| rows[order@[q] as int]));
        if records@.len() < 2 {
            assert(sorted_stably(keys_spec, order@, is_asc));
        }
        assert(is_permutation(order@, records@.len() as int));
    }
    out
}

} // verus!
