//! The options of a run, as the command line gives them.
use vstd::prelude::*;
use crate::text::chars_of;

verus! {

pub struct OptionsV {
    pub is_query: bool,
    pub is_usage: bool,
    pub query_string: Seq<char>,
    pub root_dir_path: Seq<char>,
}

/// What a run is asked to do: show the usage, run one query, or read
/// queries from the terminal; and the directory that holds the databases.
#[derive(Debug)]
pub struct Options {
    pub is_query: bool,
    pub is_usage: bool,
    pub query_string: String,
    pub root_dir_path: String,
}

impl View for Options {
    type V = OptionsV;

    open spec fn view(&self) -> OptionsV {
        OptionsV {
            is_query: self.is_query,
            is_usage: self.is_usage,
            query_string: self.query_string@,
            root_dir_path: self.root_dir_path@,
        }
    }
}

impl Clone for Options {
    fn clone(&self) -> (r: Self)
        ensures
            r@ == self@,
    {
        Options {
            is_query: self.is_query,
            is_usage: self.is_usage,
            query_string: self.query_string.clone(),
            root_dir_path: self.root_dir_path.clone(),
        }
    }
}

pub open spec fn is_help_flag(a: Seq<char>) -> bool {
    a =~= seq!['-', 'h'] || a =~= seq!['-', '-', 'h', 'e', 'l', 'p']
}

pub open spec fn is_query_flag(a: Seq<char>) -> bool {
    a =~= seq!['-', 'q'] || a =~= seq!['-', '-', 'q', 'u', 'e', 'r', 'y']
}

/// The options after the arguments from `i` on: `-h` or `--help` asks for
/// the usage, `-q` or `--query` takes the next argument as the query, any
/// other argument is the directory. `None` where a query flag is last.
pub open spec fn apply_args_from(args: Seq<Seq<char>>, i: int, o: OptionsV) -> Option<OptionsV>
    decreases args.len() - i,
{
    if i < 0 || i >= args.len() {
        Some(o)
    } else if is_help_flag(args[i]) {
        apply_args_from(args, i + 1, OptionsV { is_usage: true, ..o })
    } else if is_query_flag(args[i]) {
        if i + 1 >= args.len() {
            None
        } else {
            apply_args_from(args, i + 2, OptionsV { is_query: true, query_string: args[i + 1], ..o })
        }
    } else {
        apply_args_from(args, i + 1, OptionsV { root_dir_path: args[i], ..o })
    }
}

pub open spec fn args_view(args: Seq<String>) -> Seq<Seq<char>> {
    args.map_values(|a: String| a@)
}

/// Whether the characters of `a` are exactly `w`.
fn chars_are(a: &Vec<char>, w: &Vec<char>) -> (b: bool)
    ensures
        b == (a@ =~= w@),
{
    if a.len() != w.len() {
        return false;
    }
    let mut k: usize = 0;
    while k < w.len()
        invariant
            a@.len() == w@.len(),
            k <= w@.len(),
            forall|j: int| 0 <= j < k ==> a@[j] == w@[j],
        decreases w@.len() - k,
    {
        if a[k] != w[k] {
            return false;
        }
        k += 1;
    }
    true
}

impl Options {
    pub fn new() -> (o: Self)
        ensures
            o@ == (OptionsV {
                is_query: false,
                is_usage: false,
                query_string: Seq::empty(),
                root_dir_path: Seq::empty(),
            }),
    {
        Options { is_query: false, is_usage: false, query_string: String::new(), root_dir_path: String::new() }
    }

    /// Takes the options from the arguments of the command line, the
    /// program's own path first. Returns `false`, and leaves the options
    /// as far as they were taken, where a query flag has no query after it.
    pub fn apply_args(&mut self, args: &Vec<String>) -> (ok: bool)
        ensures
            ok == apply_args_from(args_view(args@), 0, old(self)@) is Some,
            ok ==> final(self)@ == apply_args_from(args_view(args@), 0, old(self)@)->0,
    {
        let ghost a = args_view(args@);
        let mut i: usize = 0;
        while i < args.len()
            invariant
                a == args_view(args@),
                i <= args@.len(),
                apply_args_from(a, 0, old(self)@) == apply_args_from(a, i as int, self@),
            decreases args@.len() - i,
        {
            let arg = chars_of(args[i].as_str());
            proof {
                assert(arg@ == a[i as int]);
            }
            if chars_are(&arg, &vec!['-', 'h']) || chars_are(&arg, &vec!['-', '-', 'h', 'e', 'l', 'p']) {
                self.is_usage = true;
            } else if chars_are(&arg, &vec!['-', 'q']) || chars_are(&arg, &vec!['-', '-', 'q', 'u', 'e', 'r', 'y']) {
                self.is_query = true;
                i += 1;
                if i >= args.len() {
                    return false;
                }
                self.query_string = args[i].clone();
            } else {
                self.root_dir_path = args[i].clone();
            }
            i += 1;
        }
        true
    }
}

} // verus!
