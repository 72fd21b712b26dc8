//! The names of a database's files, and the check that keeps a path inside
//! the root directory. The directories themselves are joined by the host,
//! which knows the separator of its file system.
use vstd::prelude::*;
use crate::error::{Error, ErrorKind, make_error};
use crate::eval::{contains_chars, has_sub};
use crate::plan_model::spec_to_lowercase;
use crate::planner::str_to_lowercase;
use crate::text::{chars_of, push_str};

verus! {

/// The file of a table: its name in lower case, then `.csv`.
pub open spec fn table_file_text(table: Seq<char>) -> Seq<char> {
    spec_to_lowercase(table) + ".csv"@
}

/// The file that a rewrite of a table fills before it takes the table's
/// place: its name in lower case, then `.tmp.csv`.
pub open spec fn tmp_table_file_text(table: Seq<char>) -> Seq<char> {
    spec_to_lowercase(table) + ".tmp.csv"@
}

/// The file that keeps the last generated id of a column:
/// `<table>__<column>.txt`.
pub open spec fn id_file_text(table: Seq<char>, ident: Seq<char>) -> Seq<char> {
    table + "__"@ + ident + ".txt"@
}

/// The file name of a table.
pub fn table_file_name(table: &str) -> (r: String)
    ensures
        r@ == table_file_text(table@),
{
    let mut r = str_to_lowercase(table);
    push_str(&mut r, ".csv");
    r
}

/// The file name that a rewrite of a table fills first.
pub fn tmp_table_file_name(table: &str) -> (r: String)
    ensures
        r@ == tmp_table_file_text(table@),
{
    let mut r = str_to_lowercase(table);
    push_str(&mut r, ".tmp.csv");
    r
}

/// The file name that keeps the last id generated for a column.
pub fn id_file_name(table: &str, ident: &str) -> (r: String)
    ensures
        r@ == id_file_text(table@, ident@),
{
    let mut r = String::new();
    push_str(&mut r, table);
    push_str(&mut r, "__");
    push_str(&mut r, ident);
    push_str(&mut r, ".txt");
    r
}

/// Whether the path that the host joined may be used: refused, as a
/// runtime error, where its text holds `..`.
pub fn check_path_text(path: &str) -> (r: Result<(), Error>)
    ensures
        r is Err <==> has_sub(path@, seq!['.', '.']),
        r matches Err(e) ==> e@ == ErrorKind::Runtime,
{
    let cs = chars_of(path);
    let dots = vec!['.', '.'];
    proof {
        assert(dots@ =~= seq!['.', '.']);
    }
    if contains_chars(&cs, &dots) {
        Err(make_error(ErrorKind::Runtime, "directory traversal error"))
    } else {
        Ok(())
    }
}

} // verus!
