//! The header row of a table file: each field is `name: TYPE [attributes]`,
//! as `CREATE TABLE` writes it. Reading the column names and types back.
use vstd::prelude::*;
use crate::error::{Error, ErrorKind, make_error};
use crate::eval::{contains_chars, has_sub, strings_view};
use crate::literals::{parse_bool, parse_i128, parsed_bool, parsed_i128};
use crate::objects::{HeaderType, HeaderTypeV, Object, ObjectKind, ObjectV, default_text, nil_object};
use crate::plan_model::spec_to_lowercase;
use crate::planner::str_to_lowercase;
use crate::text::{chars_of, push_char};
use crate::tokenizer::{all_digits, decimal_value, is_digit, lemma_decimal_prefix, lemma_decimal_push};

verus! {

/// Whether a character has the Unicode `White_Space` property: the code
/// points that the Unicode Character Database lists under that name.
pub open spec fn spec_is_whitespace(c: char) -> bool {
    let u = c as u32;
    ||| 0x09 <= u <= 0x0D
    ||| u == 0x20
    ||| u == 0x85
    ||| u == 0xA0
    ||| u == 0x1680
    ||| 0x2000 <= u <= 0x200A
    ||| u == 0x2028
    ||| u == 0x2029
    ||| u == 0x202F
    ||| u == 0x205F
    ||| u == 0x3000
}

/// Whether a character is white space, as `char::is_whitespace` says.
fn char_is_whitespace(c: char) -> (b: bool)
    ensures
        b == spec_is_whitespace(c),
{
    let u = c as u32;
    (0x09 <= u && u <= 0x0D) || u == 0x20 || u == 0x85 || u == 0xA0 || u == 0x1680 || (0x2000 <= u && u <= 0x200A)
        || u == 0x2028 || u == 0x2029 || u == 0x202F || u == 0x205F || u == 0x3000
}

/// The text of group `group` of the first match of `pattern` in `text`;
/// `None` where the pattern does not compile, nothing matches, or the group
/// took no part in the match.
pub uninterp spec fn regex_group(pattern: Seq<char>, text: Seq<char>, group: usize) -> Option<Seq<char>>;

/// The text of the group named `name` of the first match of `pattern` in
/// `text`; `None` where the pattern does not compile, nothing matches, or
/// the group took no part in the match.
pub uninterp spec fn regex_named_group(pattern: Seq<char>, text: Seq<char>, name: Seq<char>) -> Option<Seq<char>>;

/// Compiles `pattern` with `regex::Regex::new` and takes group `group` of
/// the first match in `text` (`Regex::captures`, `Captures::get`). The
/// contract names the result; it says nothing of what the regex matches.
#[verifier::external_body]
fn capture_group(pattern: &str, text: &str, group: usize) -> (r: Option<String>)
    ensures
        match r {
            Some(s) => regex_group(pattern@, text@, group) == Some(s@),
            None => regex_group(pattern@, text@, group) is None,
        },
{
    let re = match regex::Regex::new(pattern) {
        Ok(re) => re,
        Err(_) => return None,
    };
    match re.captures(text) {
        Some(caps) => match caps.get(group) {
            Some(m) => Some(m.as_str().to_string()),
            None => None,
        },
        None => None,
    }
}

/// Compiles `pattern` with `regex::Regex::new` and takes the group named
/// `name` of the first match in `text` (`Regex::captures`,
/// `Captures::name`). The contract names the result; it says nothing of
/// what the regex matches.
#[verifier::external_body]
fn capture_named(pattern: &str, text: &str, name: &str) -> (r: Option<String>)
    ensures
        match r {
            Some(s) => regex_named_group(pattern@, text@, name@) == Some(s@),
            None => regex_named_group(pattern@, text@, name@) is None,
        },
{
    let re = match regex::Regex::new(pattern) {
        Ok(re) => re,
        Err(_) => return None,
    };
    match re.captures(text) {
        Some(caps) => match caps.name(name) {
            Some(m) => Some(m.as_str().to_string()),
            None => None,
        },
        None => None,
    }
}

/// The first position of `c` in `s`.
pub open spec fn first_of(s: Seq<char>, c: char) -> Option<int> {
    if exists|k: int| 0 <= k < s.len() && s[k] == c {
        Some(choose|k: int| 0 <= k < s.len() && s[k] == c && forall|j: int| 0 <= j < k ==> s[j] != c)
    } else {
        None
    }
}

/// `s` split at its first colon, as `str::split_once(':')` does.
pub open spec fn split_colon(s: Seq<char>) -> Option<(Seq<char>, Seq<char>)> {
    match first_of(s, ':') {
        Some(k) => Some((s.subrange(0, k), s.subrange(k + 1, s.len() as int))),
        None => None,
    }
}

pub open spec fn trim_start(s: Seq<char>) -> Seq<char>
    decreases s.len(),
{
    if s.len() > 0 && spec_is_whitespace(s[0]) {
        trim_start(s.drop_first())
    } else {
        s
    }
}

pub open spec fn trim_end(s: Seq<char>) -> Seq<char>
    decreases s.len(),
{
    if s.len() > 0 && spec_is_whitespace(s.last()) {
        trim_end(s.drop_last())
    } else {
        s
    }
}

/// `s` without white space at either end, as `str::trim` gives it.
pub open spec fn trimmed(s: Seq<char>) -> Seq<char> {
    trim_end(trim_start(s))
}

/// The column name of a header field, where it has a colon.
pub open spec fn header_ident(h: Seq<char>) -> Option<Seq<char>> {
    match split_colon(h) {
        Some((left, _)) => Some(trimmed(left)),
        None => None,
    }
}

/// The column names of the header fields that have a colon, in order.
pub open spec fn header_idents(hs: Seq<Seq<char>>) -> Seq<Seq<char>>
    decreases hs.len(),
{
    if hs.len() == 0 {
        Seq::empty()
    } else {
        match header_ident(hs.last()) {
            Some(id) => header_idents(hs.drop_last()).push(id),
            None => header_idents(hs.drop_last()),
        }
    }
}

/// The pattern of a character column's size.
pub open spec fn char_pattern() -> Seq<char> {
    "char\\s*\\[\\s*(\\d+)\\s*\\]"@
}

/// The pattern of a default value.
pub open spec fn default_pattern() -> Seq<char> {
    "default\\s+(?:(?P<float>-?\\d+\\.\\d+)|(?P<int>-?\\d+)|\"(?P<string>[^\"]*)\"|(?P<bool>true|false))"@
}

/// What `str::parse::<usize>` gives for a string of decimal digits.
pub open spec fn parsed_usize(s: Seq<char>) -> Option<usize> {
    if s.len() > 0 && all_digits(s) && decimal_value(s) <= usize::MAX {
        Some(decimal_value(s) as usize)
    } else {
        None
    }
}

pub open spec fn new_header_type(ident: Seq<char>) -> HeaderTypeV {
    HeaderTypeV {
        ident,
        is_int: false,
        is_float: false,
        is_bool: false,
        is_char: false,
        char_size: 0,
        is_primary_key: false,
        is_auto_increment: false,
        is_default: false,
        default_value: None,
    }
}

/// The type that the (lower-cased) type part of a header names.
pub open spec fn typed(t: HeaderTypeV, st: Seq<char>) -> Result<HeaderTypeV, ErrorKind> {
    if has_sub(st, seq!['i', 'n', 't']) {
        Ok(HeaderTypeV { is_int: true, ..t })
    } else if has_sub(st, seq!['f', 'l', 'o', 'a', 't']) {
        Ok(HeaderTypeV { is_float: true, ..t })
    } else if has_sub(st, seq!['b', 'o', 'o', 'l']) {
        Ok(HeaderTypeV { is_bool: true, ..t })
    } else if has_sub(st, seq!['c', 'h', 'a', 'r']) {
        match char_size_given(regex_group(char_pattern(), st, 1)) {
            Err(k) => Err(k),
            Ok(n) => Ok(HeaderTypeV { is_char: true, char_size: n, ..t }),
        }
    } else {
        Ok(t)
    }
}

pub open spec fn default_group(st: Seq<char>, name: Seq<char>) -> Option<Seq<char>> {
    regex_named_group(default_pattern(), st, name)
}

/// The text of a captured group, where the group took part in the match.
pub open spec fn group_text(g: Option<String>) -> Option<Seq<char>> {
    match g {
        Some(s) => Some(s@),
        None => None,
    }
}

/// The size of a character column from the digits that its pattern
/// captured: an error where nothing was captured or the digits do not fit.
pub open spec fn char_size_given(g: Option<Seq<char>>) -> Result<usize, ErrorKind> {
    match g {
        None => Err(ErrorKind::Exec),
        Some(d) => match parsed_usize(d) {
            None => Err(ErrorKind::Exec),
            Some(n) => Ok(n),
        },
    }
}

/// The default value from the groups of a default clause: the first of the
/// whole-number, fraction, text and truth-value groups that took part.
pub open spec fn default_given(
    i: Option<Seq<char>>,
    f: Option<Seq<char>>,
    s: Option<Seq<char>>,
    b: Option<Seq<char>>,
) -> Result<ObjectV, ErrorKind> {
    if i is Some {
        match parsed_i128(i->0) {
            Some(n) => Ok(ObjectV { kind: ObjectKind::Int, int_value: n, ..nil_object() }),
            None => Err(ErrorKind::Exec),
        }
    } else if f is Some {
        Ok(ObjectV { kind: ObjectKind::Float, float_text: f->0, ..nil_object() })
    } else if s is Some {
        Ok(ObjectV { kind: ObjectKind::String, string: s->0, ..nil_object() })
    } else if b is Some {
        match parsed_bool(b->0) {
            Some(v) => Ok(ObjectV { kind: ObjectKind::Bool, bool_value: v, ..nil_object() }),
            None => Err(ErrorKind::Exec),
        }
    } else {
        Err(ErrorKind::Exec)
    }
}

/// The reader stops on these groups: a group took part, yet its value does
/// not read (a whole number that does not fit, or a truth value that does
/// not read).
pub open spec fn default_given_unreadable(
    i: Option<Seq<char>>,
    f: Option<Seq<char>>,
    s: Option<Seq<char>>,
    b: Option<Seq<char>>,
) -> bool {
    default_given(i, f, s, b) is Err && !(i is None && f is None && s is None && b is None)
}

/// The default value that the (lower-cased) type part of a header gives.
pub open spec fn default_of(st: Seq<char>) -> Result<ObjectV, ErrorKind> {
    default_given(
        default_group(st, "int"@),
        default_group(st, "float"@),
        default_group(st, "string"@),
        default_group(st, "bool"@),
    )
}

/// The reader would stop on the default of this header: a whole number
/// that does not fit, or a truth value that does not read.
pub open spec fn default_unreadable(h: Seq<char>) -> bool {
    match split_colon(h) {
        Some((left, right)) => {
            let st = spec_to_lowercase(right);
            typed(new_header_type(trimmed(left)), st) is Ok && has_sub(st, "default"@) && default_given_unreadable(
                default_group(st, "int"@),
                default_group(st, "float"@),
                default_group(st, "string"@),
                default_group(st, "bool"@),
            )
        },
        None => false,
    }
}

/// The column type that one header field gives.
pub open spec fn header_type_of(h: Seq<char>) -> Result<HeaderTypeV, ErrorKind> {
    match split_colon(h) {
        None => Err(ErrorKind::Exec),
        Some((left, right)) => {
            let st = spec_to_lowercase(right);
            match typed(new_header_type(trimmed(left)), st) {
                Err(k) => Err(k),
                Ok(t1) => {
                    let t2 = HeaderTypeV {
                        is_auto_increment: has_sub(st, "auto_increment"@),
                        is_primary_key: has_sub(st, "primary_key"@),
                        ..t1
                    };
                    if has_sub(st, "default"@) {
                        match default_of(st) {
                            Err(k) => Err(k),
                            Ok(v) => Ok(HeaderTypeV { is_default: true, default_value: Some(v), ..t2 }),
                        }
                    } else {
                        Ok(t2)
                    }
                },
            }
        },
    }
}

/// The column types of a header row, or the first error.
pub open spec fn header_types(hs: Seq<Seq<char>>) -> Result<Seq<HeaderTypeV>, ErrorKind>
    decreases hs.len(),
{
    if hs.len() == 0 {
        Ok(Seq::empty())
    } else {
        match header_types(hs.drop_last()) {
            Err(k) => Err(k),
            Ok(ts) => match header_type_of(hs.last()) {
                Err(k) => Err(k),
                Ok(t) => Ok(ts.push(t)),
            },
        }
    }
}

/// No header before the first that fails to read stops the reader.
pub open spec fn headers_readable(hs: Seq<Seq<char>>) -> bool
    decreases hs.len(),
{
    if hs.len() == 0 {
        true
    } else {
        headers_readable(hs.drop_last()) && (header_types(hs.drop_last()) is Ok ==> !default_unreadable(hs.last()))
    }
}

fn is_whitespace_at(cs: &Vec<char>, k: usize) -> (b: bool)
    requires
        k < cs@.len(),
    ensures
        b == spec_is_whitespace(cs@[k as int]),
{
    char_is_whitespace(cs[k])
}

proof fn lemma_trim_start(s: Seq<char>, k: int)
    requires
        0 <= k <= s.len(),
        forall|j: int| 0 <= j < k ==> spec_is_whitespace(s[j]),
        k == s.len() || !spec_is_whitespace(s[k]),
    ensures
        trim_start(s) == s.subrange(k, s.len() as int),
    decreases k,
{
    if k > 0 {
        lemma_trim_start(s.drop_first(), k - 1);
        assert(s.drop_first().subrange(k - 1, s.len() - 1) =~= s.subrange(k, s.len() as int));
    } else {
        assert(s.subrange(0, s.len() as int) =~= s);
    }
}

proof fn lemma_trim_end(s: Seq<char>, e: int)
    requires
        0 <= e <= s.len(),
        forall|j: int| e <= j < s.len() ==> spec_is_whitespace(s[j]),
        e == 0 || !spec_is_whitespace(s[e - 1]),
    ensures
        trim_end(s) == s.subrange(0, e),
    decreases s.len() - e,
{
    if e < s.len() {
        lemma_trim_end(s.drop_last(), e);
        assert(s.drop_last().subrange(0, e) =~= s.subrange(0, e));
    } else {
        assert(s.subrange(0, s.len() as int) =~= s);
    }
}

/// The characters of `cs[from..to]` without white space at either end.
fn trim_range(cs: &Vec<char>, from: usize, to: usize) -> (r: String)
    requires
        from <= to <= cs@.len(),
    ensures
        r@ == trimmed(cs@.subrange(from as int, to as int)),
{
    let ghost s = cs@.subrange(from as int, to as int);
    let mut a = from;
    while a < to && is_whitespace_at(cs, a)
        invariant
            from <= a <= to <= cs@.len(),
            s == cs@.subrange(from as int, to as int),
            forall|j: int| from <= j < a ==> spec_is_whitespace(cs@[j]),
        decreases to - a,
    {
        a += 1;
    }
    proof {
        lemma_trim_start(s, a - from);
    }
    let ghost s2 = cs@.subrange(a as int, to as int);
    assert(trim_start(s) =~= s2);
    let mut e = to;
    while e > a && is_whitespace_at(cs, e - 1)
        invariant
            a <= e <= to <= cs@.len(),
            s2 == cs@.subrange(a as int, to as int),
            forall|j: int| e <= j < to ==> spec_is_whitespace(cs@[j]),
        decreases e - a,
    {
        e -= 1;
    }
    proof {
        lemma_trim_end(s2, e - a);
        assert(s2.subrange(0, e - a) =~= cs@.subrange(a as int, e as int));
    }
    let mut r = String::new();
    let mut k = a;
    while k < e
        invariant
            a <= k <= e <= cs@.len(),
            r@ == cs@.subrange(a as int, k as int),
        decreases e - k,
    {
        push_char(&mut r, cs[k]);
        proof {
            assert(cs@.subrange(a as int, k + 1) =~= cs@.subrange(a as int, k as int).push(cs@[k as int]));
        }
        k += 1;
    }
    r
}

/// The characters of `cs[from..to]`.
fn text_range(cs: &Vec<char>, from: usize, to: usize) -> (r: String)
    requires
        from <= to <= cs@.len(),
    ensures
        r@ == cs@.subrange(from as int, to as int),
{
    let mut r = String::new();
    let mut k = from;
    while k < to
        invariant
            from <= k <= to <= cs@.len(),
            r@ == cs@.subrange(from as int, k as int),
        decreases to - k,
    {
        push_char(&mut r, cs[k]);
        proof {
            assert(cs@.subrange(from as int, k + 1) =~= cs@.subrange(from as int, k as int).push(cs@[k as int]));
        }
        k += 1;
    }
    r
}

/// The position of the first colon in `cs`.
fn find_colon(cs: &Vec<char>) -> (r: Option<usize>)
    ensures
        match r {
            Some(k) => k < cs@.len() && first_of(cs@, ':') == Some(k as int),
            None => first_of(cs@, ':') is None,
        },
{
    let mut k: usize = 0;
    while k < cs.len()
        invariant
            k <= cs@.len(),
            forall|j: int| 0 <= j < k ==> cs@[j] != ':',
        decreases cs@.len() - k,
    {
        if cs[k] == ':' {
            proof {
                let f = first_of(cs@, ':')->0;
                assert(f == k as int) by {
                    if f < k {
                        assert(cs@[f] != ':');
                    }
                    if f > k {
                        assert(cs@[k as int] == ':');
                    }
                }
            }
            return Some(k);
        }
        k += 1;
    }
    None
}

/// The column name of a header field, where it has a colon.
fn ident_of_header(h: &str) -> (r: Option<String>)
    ensures
        match r {
            Some(s) => header_ident(h@) == Some(s@),
            None => header_ident(h@) is None,
        },
{
    let cs = chars_of(h);
    match find_colon(&cs) {
        Some(k) => Some(trim_range(&cs, 0, k)),
        None => None,
    }
}

proof fn lemma_header_idents_push(hs: Seq<Seq<char>>, h: Seq<char>)
    ensures
        header_idents(hs.push(h)) == match header_ident(h) {
            Some(id) => header_idents(hs).push(id),
            None => header_idents(hs),
        },
{
    assert(hs.push(h).drop_last() =~= hs);
}

/// The column names of a header row, from the fields that have a colon.
pub fn csv_headers_to_idents(headers: &Vec<String>) -> (r: Vec<String>)
    ensures
        strings_view(r@) == header_idents(strings_view(headers@)),
{
    let ghost hs = strings_view(headers@);
    let mut idents: Vec<String> = Vec::new();
    let mut i: usize = 0;
    while i < headers.len()
        invariant
            hs == strings_view(headers@),
            i <= headers@.len(),
            strings_view(idents@) == header_idents(hs.take(i as int)),
        decreases headers@.len() - i,
    {
        let id = ident_of_header(headers[i].as_str());
        proof {
            assert(hs.take(i + 1) =~= hs.take(i as int).push(hs[i as int]));
            lemma_header_idents_push(hs.take(i as int), hs[i as int]);
        }
        match id {
            Some(s) => {
                let ghost before = idents@;
                let ghost sv = s@;
                idents.push(s);
                proof {
                    assert(strings_view(idents@) =~= strings_view(before).push(sv));
                }
            },
            None => {},
        }
        i += 1;
    }
    proof {
        assert(hs.take(i as int) =~= hs);
    }
    idents
}

/// The position of the first column named `col_name` in a header row.
pub fn find_header_position(headers: &Vec<String>, col_name: &str) -> (r: Result<Option<usize>, Error>)
    ensures
        r is Ok,
        match r->Ok_0 {
            Some(k) => k < header_idents(strings_view(headers@)).len() && header_idents(strings_view(headers@))[k as int]
                == col_name@ && forall|j: int| 0 <= j < k ==> header_idents(strings_view(headers@))[j] != col_name@,
            None => !header_idents(strings_view(headers@)).contains(col_name@),
        },
{
    let idents = csv_headers_to_idents(headers);
    let ghost ids = strings_view(idents@);
    let mut i: usize = 0;
    while i < idents.len()
        invariant
            ids == strings_view(idents@),
            ids == header_idents(strings_view(headers@)),
            i <= ids.len(),
            forall|j: int| 0 <= j < i ==> ids[j] != col_name@,
        decreases ids.len() - i,
    {
        if same_str(idents[i].as_str(), col_name) {
            proof {
                assert(ids[i as int] == idents@[i as int]@);
            }
            return Ok(Some(i));
        }
        proof {
            assert(ids[i as int] == idents@[i as int]@);
        }
        i += 1;
    }
    proof {
        if ids.contains(col_name@) {
            let j = choose|j: int| 0 <= j < ids.len() && ids[j] == col_name@;
            assert(ids[j] != col_name@);
        }
    }
    Ok(None)
}

/// Whether two texts are equal.
pub(crate) fn same_str(a: &str, b: &str) -> (r: bool)
    ensures
        r == (a@ == b@),
{
    let x = chars_of(a);
    let y = chars_of(b);
    if x.len() != y.len() {
        return false;
    }
    let mut k: usize = 0;
    while k < x.len()
        invariant
            x@ == a@,
            y@ == b@,
            x@.len() == y@.len(),
            k <= x@.len(),
            forall|j: int| 0 <= j < k ==> x@[j] == y@[j],
        decreases x@.len() - k,
    {
        if x[k] != y[k] {
            return false;
        }
        k += 1;
    }
    proof {
        assert(x@ =~= y@);
    }
    true
}

/// The column names of a header row.
pub fn parse_header_idents(headers: &Vec<String>) -> (r: Result<Vec<String>, Error>)
    ensures
        r is Ok,
        strings_view(r->Ok_0@) == header_idents(strings_view(headers@)),
{
    Ok(csv_headers_to_idents(headers))
}

/// The fields of a row joined by commas: the key by which equal rows are
/// found again.
pub open spec fn joined(row: Seq<Seq<char>>) -> Seq<char>
    decreases row.len(),
{
    if row.len() == 0 {
        Seq::empty()
    } else if row.len() == 1 {
        row[0]
    } else {
        joined(row.drop_last()) + seq![','] + row.last()
    }
}

pub fn vec_string_to_hashed_value_string(row: &Vec<String>) -> (s: String)
    ensures
        s@ == joined(strings_view(row@)),
{
    let ghost rv = strings_view(row@);
    let mut s = String::new();
    let mut i: usize = 0;
    while i < row.len()
        invariant
            rv == strings_view(row@),
            i <= rv.len(),
            i > 0 ==> s@ == joined(rv.take(i as int)) + seq![','],
            i == 0 ==> s@.len() == 0,
        decreases rv.len() - i,
    {
        let ghost before = s@;
        crate::text::push_str(&mut s, row[i].as_str());
        push_char(&mut s, ',');
        proof {
            assert(rv.take(i + 1).drop_last() =~= rv.take(i as int));
            assert(rv.take(i + 1).last() == row@[i as int]@);
            if i == 0 {
                assert(rv.take(1) =~= seq![rv[0]]);
                assert(s@ =~= joined(rv.take(1)) + seq![',']);
            } else {
                assert(s@ =~= joined(rv.take(i + 1)) + seq![',']);
            }
        }
        i += 1;
    }
    let _ = crate::text::pop_char(&mut s);
    proof {
        assert(rv.take(i as int) =~= rv);
        if i > 0 {
            assert(s@ =~= joined(rv));
        }
    }
    s
}

/// Reads a string of decimal digits as a `usize`, as `str::parse::<usize>`
/// does for such a string.
fn parse_usize(s: &str) -> (r: Option<usize>)
    ensures
        r == parsed_usize(s@),
{
    let cs = chars_of(s);
    if cs.len() == 0 {
        return None;
    }
    let mut v: usize = 0;
    let mut k: usize = 0;
    while k < cs.len()
        invariant
            cs@ == s@,
            k <= cs@.len(),
            all_digits(cs@.take(k as int)),
            v == decimal_value(cs@.take(k as int)),
        decreases cs@.len() - k,
    {
        let c = cs[k];
        proof {
            assert(cs@.take(k + 1) =~= cs@.take(k as int).push(c));
            lemma_decimal_push(cs@.take(k as int), c);
        }
        if !('0' <= c && c <= '9') {
            proof {
                assert(!is_digit(cs@[k as int]));
            }
            return None;
        }
        let d: usize = (c as u32 - '0' as u32) as usize;
        if v > (usize::MAX - d) / 10 {
            proof {
                assert(v * 10 + d > usize::MAX) by (nonlinear_arith)
                    requires
                        v > (usize::MAX - d) / 10,
                        0 <= d <= 9,
                ;
                if all_digits(cs@) {
                    lemma_decimal_prefix(cs@, k + 1);
                }
            }
            return None;
        }
        proof {
            assert(v * 10 <= usize::MAX - d) by (nonlinear_arith)
                requires
                    v <= (usize::MAX - d) / 10,
                    0 <= d <= 9,
            ;
        }
        v = v * 10 + d;
        k += 1;
    }
    proof {
        assert(cs@.take(k as int) =~= cs@);
    }
    Some(v)
}

/// The size of a character column from the digits that its pattern
/// captured (`None` where the pattern took nothing).
pub fn char_size_from_group(g: Option<String>) -> (r: Result<usize, Error>)
    ensures
        match char_size_given(group_text(g)) {
            Ok(n) => r == Ok::<usize, Error>(n),
            Err(k) => r is Err && r->Err_0@ == k,
        },
{
    match g {
        Some(d) => match parse_usize(d.as_str()) {
            Some(n) => Ok(n),
            None => Err(make_error(ErrorKind::Exec, "failed to parse CHAR[n]")),
        },
        None => Err(make_error(ErrorKind::Exec, "failed to capture stype for char")),
    }
}

/// The default value of a column from the groups that its default clause
/// captured: whole number, fraction, text and truth value, each `None`
/// where it took no part. `None` where a group took part but its value does
/// not read, on which the reader stops.
pub fn default_from_groups(
    i: Option<String>,
    f: Option<String>,
    s: Option<String>,
    b: Option<String>,
) -> (r: Option<Result<Object, Error>>)
    ensures
        r is None <==> default_given_unreadable(group_text(i), group_text(f), group_text(s), group_text(b)),
        r matches Some(res) ==> match default_given(group_text(i), group_text(f), group_text(s), group_text(b)) {
            Ok(v) => res is Ok && res->Ok_0@ == v,
            Err(k) => res is Err && res->Err_0@ == k,
        },
{
    if let Some(v) = i {
        match parse_i128(v.as_str()) {
            Some(n) => Some(Ok(Object::from_int(n))),
            None => None,
        }
    } else if let Some(v) = f {
        Some(Ok(Object::from_float_text(v)))
    } else if let Some(v) = s {
        Some(Ok(Object::from_string(v)))
    } else if let Some(v) = b {
        match parse_bool(v.as_str()) {
            Some(x) => Some(Ok(Object::from_bool(x))),
            None => None,
        }
    } else {
        Some(Err(make_error(ErrorKind::Exec, "invalid default value")))
    }
}

/// The column type that one header field gives; `None` where the reader
/// would stop on its default value.
fn try_parse_header_type(header: &str) -> (r: Option<Result<HeaderType, Error>>)
    ensures
        r is None <==> default_unreadable(header@),
        r matches Some(res) ==> match header_type_of(header@) {
            Ok(t) => res is Ok && res->Ok_0@ == t,
            Err(k) => res is Err && res->Err_0@ == k,
        },
{
    let cs = chars_of(header);
    let k = match find_colon(&cs) {
        Some(k) => k,
        None => return Some(Err(make_error(ErrorKind::Exec, "failed to split header. maybe this is invalid header"))),
    };
    let mut typ = HeaderType::new();
    typ.ident = trim_range(&cs, 0, k);
    let n = cs.len();
    let right = text_range(&cs, k + 1, n);
    let stype = str_to_lowercase(right.as_str());
    let st = chars_of(stype.as_str());
    let ghost t0 = typ@;

    if contains_chars(&st, &vec!['i', 'n', 't']) {
        typ.is_int = true;
    } else if contains_chars(&st, &vec!['f', 'l', 'o', 'a', 't']) {
        typ.is_float = true;
    } else if contains_chars(&st, &vec!['b', 'o', 'o', 'l']) {
        typ.is_bool = true;
    } else if contains_chars(&st, &vec!['c', 'h', 'a', 'r']) {
        typ.is_char = true;
        let g = capture_group("char\\s*\\[\\s*(\\d+)\\s*\\]", stype.as_str(), 1);
        match char_size_from_group(g) {
            Ok(n) => {
                typ.char_size = n;
            },
            Err(e) => return Some(Err(e)),
        }
    }
    proof {
        assert(typed(t0, stype@) == Ok::<HeaderTypeV, ErrorKind>(typ@));
        reveal_strlit("auto_increment");
        reveal_strlit("primary_key");
        reveal_strlit("default");
    }
    let ai = chars_of("auto_increment");
    if contains_chars(&st, &ai) {
        typ.is_auto_increment = true;
    }
    let pk = chars_of("primary_key");
    if contains_chars(&st, &pk) {
        typ.is_primary_key = true;
    }
    let df = chars_of("default");
    if contains_chars(&st, &df) {
        typ.is_default = true;
        let pattern = "default\\s+(?:(?P<float>-?\\d+\\.\\d+)|(?P<int>-?\\d+)|\"(?P<string>[^\"]*)\"|(?P<bool>true|false))";
        let gi = capture_named(pattern, stype.as_str(), "int");
        let gf = capture_named(pattern, stype.as_str(), "float");
        let gs = capture_named(pattern, stype.as_str(), "string");
        let gb = capture_named(pattern, stype.as_str(), "bool");
        match default_from_groups(gi, gf, gs, gb) {
            Some(Ok(v)) => {
                typ.default_value = Some(v);
            },
            Some(Err(e)) => return Some(Err(e)),
            None => return None,
        }
    }

    Some(Ok(typ))
}

proof fn lemma_header_types_push(hs: Seq<Seq<char>>, h: Seq<char>)
    ensures
        header_types(hs.push(h)) == match header_types(hs) {
            Err(k) => Err(k),
            Ok(ts) => match header_type_of(h) {
                Err(k) => Err(k),
                Ok(t) => Ok(ts.push(t)),
            },
        },
        headers_readable(hs.push(h)) == (headers_readable(hs) && (header_types(hs) is Ok ==> !default_unreadable(h))),
{
    assert(hs.push(h).drop_last() =~= hs);
}

pub open spec fn types_view(v: Seq<HeaderType>) -> Seq<HeaderTypeV> {
    v.map_values(|t: HeaderType| t@)
}

/// The column types of a header row: each field is `name: TYPE
/// [PRIMARY_KEY] [AUTO_INCREMENT] [DEFAULT value]`, the type part read in
/// lower case.
pub fn parse_csv_headers_as_types(headers: &Vec<String>) -> (r: Result<Vec<HeaderType>, Error>)
    requires
        headers_readable(strings_view(headers@)),
    ensures
        match header_types(strings_view(headers@)) {
            Ok(ts) => r is Ok && types_view(r->Ok_0@) == ts,
            Err(k) => r is Err && r->Err_0@ == k,
        },
{
    let ghost hs = strings_view(headers@);
    let mut v: Vec<HeaderType> = Vec::new();
    let mut i: usize = 0;
    proof {
        assert(hs.take(0) =~= Seq::<Seq<char>>::empty());
        assert(types_view(v@) =~= Seq::<HeaderTypeV>::empty());
    }
    while i < headers.len()
        invariant
            hs == strings_view(headers@),
            i <= hs.len(),
            headers_readable(hs),
            header_types(hs.take(i as int)) == Ok::<Seq<HeaderTypeV>, ErrorKind>(types_view(v@)),
        decreases hs.len() - i,
    {
        proof {
            assert(hs.take(i + 1) =~= hs.take(i as int).push(hs[i as int]));
            lemma_header_types_push(hs.take(i as int), hs[i as int]);
            lemma_readable_prefix(hs, i + 1);
            assert(hs[i as int] == headers@[i as int]@);
        }
        let typ = match try_parse_header_type(headers[i].as_str()) {
            Some(Ok(t)) => t,
            Some(Err(e)) => {
                proof {
                    lemma_types_err_stays(hs, i as int + 1);
                }
                return Err(e);
            },
            None => {
                proof {
                    assert(false);
                }
                return Err(make_error(ErrorKind::Exec, "invalid default value"));
            },
        };
        let ghost before = v@;
        let ghost tv = typ@;
        v.push(typ);
        proof {
            assert(types_view(v@) =~= types_view(before).push(tv));
        }
        i += 1;
    }
    proof {
        assert(hs.take(i as int) =~= hs);
    }
    Ok(v)
}

proof fn lemma_readable_prefix(hs: Seq<Seq<char>>, k: int)
    requires
        0 <= k <= hs.len(),
        headers_readable(hs),
    ensures
        headers_readable(hs.take(k)),
    decreases hs.len() - k,
{
    if k < hs.len() {
        assert(hs.drop_last() =~= hs.take(hs.len() - 1));
        lemma_readable_prefix(hs.drop_last(), k);
        assert(hs.drop_last().take(k) =~= hs.take(k));
    } else {
        assert(hs.take(k) =~= hs);
    }
}

/// `parse_csv_headers_as_types` where no default value stops the reader;
/// `None` where one would.
pub fn try_parse_csv_headers_as_types(headers: &Vec<String>) -> (r: Option<Result<Vec<HeaderType>, Error>>)
    ensures
        r is None <==> !headers_readable(strings_view(headers@)),
        r matches Some(res) ==> match header_types(strings_view(headers@)) {
            Ok(ts) => res is Ok && types_view(res->Ok_0@) == ts,
            Err(k) => res is Err && res->Err_0@ == k,
        },
{
    let ghost hs = strings_view(headers@);
    let mut v: Vec<HeaderType> = Vec::new();
    let mut failed: Option<Error> = None;
    let mut i: usize = 0;
    proof {
        assert(hs.take(0) =~= Seq::<Seq<char>>::empty());
        assert(types_view(v@) =~= Seq::<HeaderTypeV>::empty());
    }
    while i < headers.len()
        invariant
            hs == strings_view(headers@),
            i <= hs.len(),
            headers_readable(hs.take(i as int)),
            match failed {
                None => header_types(hs.take(i as int)) == Ok::<Seq<HeaderTypeV>, ErrorKind>(types_view(v@)),
                Some(e) => header_types(hs.take(i as int)) == Err::<Seq<HeaderTypeV>, ErrorKind>(e@),
            },
        decreases hs.len() - i,
    {
        proof {
            assert(hs.take(i + 1) =~= hs.take(i as int).push(hs[i as int]));
            lemma_header_types_push(hs.take(i as int), hs[i as int]);
            assert(hs[i as int] == headers@[i as int]@);
        }
        if failed.is_none() {
            match try_parse_header_type(headers[i].as_str()) {
                None => {
                    proof {
                        lemma_unreadable_stays(hs, i as int);
                    }
                    return None;
                },
                Some(Ok(t)) => {
                    let ghost before = v@;
                    let ghost tv = t@;
                    v.push(t);
                    proof {
                        assert(types_view(v@) =~= types_view(before).push(tv));
                    }
                },
                Some(Err(e)) => {
                    failed = Some(e);
                },
            }
        }
        i += 1;
    }
    proof {
        assert(hs.take(i as int) =~= hs);
    }
    match failed {
        Some(e) => Some(Err(e)),
        None => Some(Ok(v)),
    }
}

/// Once a prefix of the row is unreadable, so is the row.
proof fn lemma_unreadable_stays(hs: Seq<Seq<char>>, i: int)
    requires
        0 <= i < hs.len(),
        !headers_readable(hs.take(i + 1)),
    ensures
        !headers_readable(hs),
    decreases hs.len() - i,
{
    if i + 1 < hs.len() {
        assert(hs.take(i + 2).drop_last() =~= hs.take(i + 1));
        lemma_unreadable_stays(hs, i + 1);
    } else {
        assert(hs.take(i + 1) =~= hs);
    }
}

pub open spec fn default_texts(ts: Seq<HeaderTypeV>) -> Result<Seq<Seq<char>>, ErrorKind>
    decreases ts.len(),
{
    if ts.len() == 0 {
        Ok(Seq::empty())
    } else {
        match default_texts(ts.drop_last()) {
            Err(k) => Err(k),
            Ok(ds) => match default_text(ts.last()) {
                Err(k) => Err(k),
                Ok(d) => Ok(ds.push(d)),
            },
        }
    }
}

/// The record that a new row takes where no value is given: the default of
/// each column.
pub fn gen_default_record(headers: &Vec<String>) -> (r: Result<Vec<String>, Error>)
    requires
        headers_readable(strings_view(headers@)),
    ensures
        match header_types(strings_view(headers@)) {
            Err(k) => r is Err && r->Err_0@ == k,
            Ok(ts) => match default_texts(ts) {
                Ok(ds) => r is Ok && strings_view(r->Ok_0@) == ds,
                Err(k) => r is Err && r->Err_0@ == k,
            },
        },
{
    let mut v: Vec<String> = Vec::new();
    let types = parse_csv_headers_as_types(headers)?;
    let ghost ts = types_view(types@);
    let mut i: usize = 0;
    proof {
        assert(ts.take(0) =~= Seq::<HeaderTypeV>::empty());
        assert(strings_view(v@) =~= Seq::<Seq<char>>::empty());
    }
    while i < types.len()
        invariant
            ts == types_view(types@),
            header_types(strings_view(headers@)) == Ok::<Seq<HeaderTypeV>, ErrorKind>(ts),
            i <= ts.len(),
            default_texts(ts.take(i as int)) == Ok::<Seq<Seq<char>>, ErrorKind>(strings_view(v@)),
        decreases ts.len() - i,
    {
        proof {
            assert(ts.take(i + 1).drop_last() =~= ts.take(i as int));
            assert(ts.take(i + 1).last() == types@[i as int]@);
        }
        let typ = &types[i];
        let d = match typ.to_default_value_string() {
            Ok(d) => d,
            Err(e) => {
                proof {
                    assert(default_texts(ts.take(i + 1)) == Err::<Seq<Seq<char>>, ErrorKind>(e@));
                    lemma_defaults_err_stays(ts, i as int + 1);
                }
                return Err(e);
            },
        };
        let ghost before = v@;
        let ghost dv = d@;
        v.push(d);
        proof {
            assert(strings_view(v@) =~= strings_view(before).push(dv));
        }
        i += 1;
    }
    proof {
        assert(ts.take(i as int) =~= ts);
    }
    Ok(v)
}

/// The default record of a header row whose default values read; `None`
/// where one does not.
pub fn try_gen_default_record(headers: &Vec<String>) -> (r: Option<Result<Vec<String>, Error>>)
    ensures
        r is None <==> !headers_readable(strings_view(headers@)),
        r matches Some(res) ==> match header_types(strings_view(headers@)) {
            Err(k) => res is Err && res->Err_0@ == k,
            Ok(ts) => match default_texts(ts) {
                Ok(ds) => res is Ok && strings_view(res->Ok_0@) == ds,
                Err(k) => res is Err && res->Err_0@ == k,
            },
        },
{
    match try_parse_csv_headers_as_types(headers) {
        None => None,
        Some(_) => Some(gen_default_record(headers)),
    }
}

/// An error in reading a prefix of the row is the error of the row.
proof fn lemma_types_err_stays(hs: Seq<Seq<char>>, k: int)
    requires
        0 <= k <= hs.len(),
        header_types(hs.take(k)) is Err,
    ensures
        header_types(hs) == header_types(hs.take(k)),
    decreases hs.len() - k,
{
    if k < hs.len() {
        assert(hs.take(k + 1).drop_last() =~= hs.take(k));
        lemma_types_err_stays(hs, k + 1);
    } else {
        assert(hs.take(k) =~= hs);
    }
}

proof fn lemma_defaults_err_stays(ts: Seq<HeaderTypeV>, k: int)
    requires
        0 <= k <= ts.len(),
        default_texts(ts.take(k)) is Err,
    ensures
        default_texts(ts) == default_texts(ts.take(k)),
    decreases ts.len() - k,
{
    if k < ts.len() {
        assert(ts.take(k + 1).drop_last() =~= ts.take(k));
        lemma_defaults_err_stays(ts, k + 1);
    } else {
        assert(ts.take(k) =~= ts);
    }
}

} // verus!
