//! Values of the query language and the column types of a table.
use vstd::prelude::*;
use crate::error::{Error, ErrorKind, make_error};
use crate::text::{int_text, int_to_string, nat_text, nat_to_string, push_char, push_str, utf8_len, byte_len};
use crate::literals::{float_text_ok, is_float_text, lemma_int_text_parses, num_run, parse_bool, parse_i128, parsed_bool, parsed_i128};

verus! {

#[derive(Clone, Copy, Debug, PartialEq, Eq, Structural)]
pub enum ObjectKind {
    Nil,
    Bool,
    Int,
    Float,
    String,
    Ident,
    Star,
}

/// What a value is, as the contracts see it.
pub struct ObjectV {
    pub kind: ObjectKind,
    pub bool_value: bool,
    pub int_value: i128,
    pub float_text: Seq<char>,
    pub string: Seq<char>,
    pub ident: Seq<char>,
}

/// A value: a boolean, an integer, a decimal fraction (kept as its text), a
/// string, a name, `*` or nil.
#[derive(Debug)]
pub struct Object {
    pub kind: ObjectKind,
    pub bool_value: bool,
    pub int_value: i128,
    pub float_text: String,
    pub string: String,
    pub ident: String,
}

impl View for Object {
    type V = ObjectV;

    open spec fn view(&self) -> ObjectV {
        ObjectV {
            kind: self.kind,
            bool_value: self.bool_value,
            int_value: self.int_value,
            float_text: self.float_text@,
            string: self.string@,
            ident: self.ident@,
        }
    }
}

impl Clone for Object {
    fn clone(&self) -> (r: Self)
        ensures
            r@ == self@,
    {
        Object {
            kind: self.kind,
            bool_value: self.bool_value,
            int_value: self.int_value,
            float_text: self.float_text.clone(),
            string: self.string.clone(),
            ident: self.ident.clone(),
        }
    }
}

pub open spec fn nil_object() -> ObjectV {
    ObjectV {
        kind: ObjectKind::Nil,
        bool_value: false,
        int_value: 0,
        float_text: Seq::empty(),
        string: Seq::empty(),
        ident: Seq::empty(),
    }
}

/// The text of a value, as `Object::to_string` gives it.
pub open spec fn object_text(o: ObjectV) -> Seq<char> {
    match o.kind {
        ObjectKind::Nil => "nil"@,
        ObjectKind::Bool => if o.bool_value {
            "true"@
        } else {
            "false"@
        },
        ObjectKind::Int => int_text(o.int_value as int),
        ObjectKind::Float => o.float_text,
        ObjectKind::String => o.string,
        ObjectKind::Ident => o.ident,
        ObjectKind::Star => "*"@,
    }
}

/// The text of a value as a column type writes it: strings in double quotes.
pub open spec fn object_column_text(o: ObjectV) -> Seq<char> {
    match o.kind {
        ObjectKind::String => "\""@ + o.string + "\""@,
        _ => object_text(o),
    }
}

impl Object {
    pub fn new() -> (o: Self)
        ensures
            o@ == nil_object(),
    {
        Object {
            kind: ObjectKind::Nil,
            bool_value: false,
            int_value: 0,
            float_text: String::new(),
            string: String::new(),
            ident: String::new(),
        }
    }

    pub fn to_column_string(&self) -> (s: String)
        ensures
            s@ == object_column_text(self@),
    {
        match self.kind {
            ObjectKind::String => {
                let mut s = "\"".to_string();
                push_str(&mut s, self.string.as_str());
                push_str(&mut s, "\"");
                s
            },
            _ => self.to_string(),
        }
    }

    pub fn to_string(&self) -> (s: String)
        ensures
            s@ == object_text(self@),
    {
        match self.kind {
            ObjectKind::Nil => "nil".to_string(),
            ObjectKind::Bool => if self.bool_value {
                "true".to_string()
            } else {
                "false".to_string()
            },
            ObjectKind::Int => int_to_string(self.int_value),
            ObjectKind::Float => self.float_text.clone(),
            ObjectKind::String => self.string.clone(),
            ObjectKind::Ident => self.ident.clone(),
            ObjectKind::Star => "*".to_string(),
        }
    }

    pub fn from_nil() -> (o: Self)
        ensures
            o@ == nil_object(),
    {
        Object::new()
    }

    pub fn from_ident(ident: &str) -> (o: Self)
        ensures
            o@ == (ObjectV { kind: ObjectKind::Ident, ident: ident@, ..nil_object() }),
    {
        Object {
            kind: ObjectKind::Ident,
            bool_value: false,
            int_value: 0,
            float_text: String::new(),
            string: String::new(),
            ident: ident.to_string(),
        }
    }

    pub fn from_star() -> (o: Self)
        ensures
            o@ == (ObjectV { kind: ObjectKind::Star, ..nil_object() }),
    {
        Object {
            kind: ObjectKind::Star,
            bool_value: false,
            int_value: 0,
            float_text: String::new(),
            string: String::new(),
            ident: String::new(),
        }
    }

    pub fn from_bool(b: bool) -> (o: Self)
        ensures
            o@ == (ObjectV { kind: ObjectKind::Bool, bool_value: b, ..nil_object() }),
    {
        Object {
            kind: ObjectKind::Bool,
            bool_value: b,
            int_value: 0,
            float_text: String::new(),
            string: String::new(),
            ident: String::new(),
        }
    }

    pub fn from_int(n: i128) -> (o: Self)
        ensures
            o@ == (ObjectV { kind: ObjectKind::Int, int_value: n, ..nil_object() }),
    {
        Object {
            kind: ObjectKind::Int,
            bool_value: false,
            int_value: n,
            float_text: String::new(),
            string: String::new(),
            ident: String::new(),
        }
    }

    /// A decimal fraction, kept as its text.
    pub fn from_float_text(text: String) -> (o: Self)
        ensures
            o@ == (ObjectV { kind: ObjectKind::Float, float_text: text@, ..nil_object() }),
    {
        Object {
            kind: ObjectKind::Float,
            bool_value: false,
            int_value: 0,
            float_text: text,
            string: String::new(),
            ident: String::new(),
        }
    }

    pub fn from_string(s: String) -> (o: Self)
        ensures
            o@ == (ObjectV { kind: ObjectKind::String, string: s@, ..nil_object() }),
    {
        Object {
            kind: ObjectKind::String,
            bool_value: false,
            int_value: 0,
            float_text: String::new(),
            string: s,
            ident: String::new(),
        }
    }
}

/// What a column's type is, as the contracts see it.
pub struct HeaderTypeV {
    pub ident: Seq<char>,
    pub is_int: bool,
    pub is_float: bool,
    pub is_bool: bool,
    pub is_char: bool,
    pub char_size: usize,
    pub is_primary_key: bool,
    pub is_auto_increment: bool,
    pub is_default: bool,
    pub default_value: Option<ObjectV>,
}

/// The name and type of a column of a table, with its attributes.
#[derive(Debug)]
pub struct HeaderType {
    pub ident: String,
    pub is_int: bool,
    pub is_float: bool,
    pub is_bool: bool,
    pub is_char: bool,
    pub char_size: usize,
    pub is_primary_key: bool,
    pub is_auto_increment: bool,
    pub is_default: bool,
    pub default_value: Option<Object>,
}

impl View for HeaderType {
    type V = HeaderTypeV;

    open spec fn view(&self) -> HeaderTypeV {
        HeaderTypeV {
            ident: self.ident@,
            is_int: self.is_int,
            is_float: self.is_float,
            is_bool: self.is_bool,
            is_char: self.is_char,
            char_size: self.char_size,
            is_primary_key: self.is_primary_key,
            is_auto_increment: self.is_auto_increment,
            is_default: self.is_default,
            default_value: match self.default_value {
                Some(v) => Some(v@),
                None => None,
            },
        }
    }
}

impl Clone for HeaderType {
    fn clone(&self) -> (r: Self)
        ensures
            r@ == self@,
    {
        HeaderType {
            ident: self.ident.clone(),
            is_int: self.is_int,
            is_float: self.is_float,
            is_bool: self.is_bool,
            is_char: self.is_char,
            char_size: self.char_size,
            is_primary_key: self.is_primary_key,
            is_auto_increment: self.is_auto_increment,
            is_default: self.is_default,
            default_value: match &self.default_value {
                Some(v) => Some(v.clone()),
                None => None,
            },
        }
    }
}

/// The type part of a column type's text.
pub open spec fn type_text(h: HeaderTypeV) -> Seq<char> {
    if h.is_int {
        "INT"@
    } else if h.is_float {
        "FLOAT"@
    } else if h.is_bool {
        "BOOL"@
    } else if h.is_char {
        "CHAR["@ + nat_text(h.char_size as nat) + "]"@
    } else {
        Seq::empty()
    }
}

/// A column type as text: `name: TYPE [PRIMARY_KEY] [AUTO_INCREMENT] [DEFAULT [value]]`.
pub open spec fn header_text(h: HeaderTypeV) -> Seq<char> {
    h.ident + ": "@ + type_text(h) + (if h.is_primary_key { " PRIMARY_KEY"@ } else { Seq::empty() }) + (
    if h.is_auto_increment {
        " AUTO_INCREMENT"@
    } else {
        Seq::empty()
    }) + (if h.is_default {
        " DEFAULT"@ + match h.default_value {
            Some(v) => " "@ + object_column_text(v),
            None => Seq::empty(),
        }
    } else {
        Seq::empty()
    })
}

/// The text that a cell of this column takes when no value is given.
pub open spec fn default_text(h: HeaderTypeV) -> Result<Seq<char>, ErrorKind> {
    if h.is_default {
        match h.default_value {
            Some(v) => Ok(object_text(v)),
            None => Err(ErrorKind::Runtime),
        }
    } else if h.is_int {
        Ok("0"@)
    } else if h.is_float {
        Ok("0.0"@)
    } else if h.is_bool {
        Ok("false"@)
    } else if h.is_char {
        Ok(Seq::empty())
    } else {
        Err(ErrorKind::Runtime)
    }
}

/// The value that the text of a cell of this column stands for.
pub open spec fn cell_value(h: HeaderTypeV, s: Seq<char>) -> Result<ObjectV, ErrorKind> {
    if h.is_int {
        match parsed_i128(s) {
            Some(n) => Ok(ObjectV { kind: ObjectKind::Int, int_value: n, ..nil_object() }),
            None => Err(ErrorKind::Parse),
        }
    } else if h.is_float {
        if h.is_auto_increment || !float_text_ok(s) {
            Err(ErrorKind::Parse)
        } else {
            Ok(ObjectV { kind: ObjectKind::Float, float_text: s, ..nil_object() })
        }
    } else if h.is_bool {
        if h.is_auto_increment {
            Err(ErrorKind::Parse)
        } else {
            match parsed_bool(s) {
                Some(b) => Ok(ObjectV { kind: ObjectKind::Bool, bool_value: b, ..nil_object() }),
                None => Err(ErrorKind::Parse),
            }
        }
    } else if h.is_char {
        if h.is_auto_increment || utf8_len(s) > h.char_size {
            Err(ErrorKind::Parse)
        } else {
            Ok(ObjectV { kind: ObjectKind::String, string: s, ..nil_object() })
        }
    } else {
        Err(ErrorKind::Parse)
    }
}

impl HeaderType {
    pub fn new() -> (h: Self)
        ensures
            h@ == (HeaderTypeV {
                ident: Seq::empty(),
                is_int: false,
                is_float: false,
                is_bool: false,
                is_char: false,
                char_size: 0,
                is_primary_key: false,
                is_auto_increment: false,
                is_default: false,
                default_value: None,
            }),
    {
        HeaderType {
            ident: String::new(),
            is_int: false,
            is_float: false,
            is_bool: false,
            is_char: false,
            char_size: 0,
            is_primary_key: false,
            is_auto_increment: false,
            is_default: false,
            default_value: None,
        }
    }

    pub fn to_string(&self) -> (s: String)
        ensures
            s@ == header_text(self@),
    {
        let mut s = String::new();

        push_str(&mut s, self.ident.as_str());
        push_str(&mut s, ": ");
        let ghost after_name = s@;

        if self.is_int {
            push_str(&mut s, "INT");
        } else if self.is_float {
            push_str(&mut s, "FLOAT");
        } else if self.is_bool {
            push_str(&mut s, "BOOL");
        } else if self.is_char {
            push_str(&mut s, "CHAR[");
            let size = nat_to_string(self.char_size as u128);
            push_str(&mut s, size.as_str());
            push_str(&mut s, "]");
        }
        proof {
            assert(s@ =~= after_name + type_text(self@));
        }
        let ghost after_type = s@;
        if self.is_primary_key {
            push_str(&mut s, " PRIMARY_KEY");
        }
        proof {
            assert(s@ =~= after_type + (if self.is_primary_key { " PRIMARY_KEY"@ } else { Seq::empty() }));
        }
        let ghost after_pk = s@;
        if self.is_auto_increment {
            push_str(&mut s, " AUTO_INCREMENT");
        }
        proof {
            assert(s@ =~= after_pk + (if self.is_auto_increment { " AUTO_INCREMENT"@ } else { Seq::empty() }));
        }
        let ghost after_ai = s@;
        if self.is_default {
            push_str(&mut s, " DEFAULT");
            if let Some(default_value) = &self.default_value {
                push_char(&mut s, ' ');
                let t = default_value.to_column_string();
                push_str(&mut s, t.as_str());
                proof {
                    reveal_strlit(" ");
                }
            }
        }
        proof {
            assert(s@ =~= after_ai + (if self.is_default {
                " DEFAULT"@ + match self@.default_value {
                    Some(v) => " "@ + object_column_text(v),
                    None => Seq::empty(),
                }
            } else {
                Seq::empty()
            }));
            assert(s@ =~= header_text(self@));
        }

        s
    }

    pub fn to_default_value_string(&self) -> (r: Result<String, Error>)
        ensures
            match default_text(self@) {
                Ok(t) => r is Ok && r->Ok_0@ == t,
                Err(k) => r is Err && r->Err_0@ == k,
            },
    {
        if self.is_default {
            if let Some(default_value) = &self.default_value {
                return Ok(default_value.to_string());
            } else {
                return Err(make_error(ErrorKind::Runtime, "missing default value"));
            }
        } else {
            if self.is_int {
                return Ok("0".to_string());
            } else if self.is_float {
                return Ok("0.0".to_string());
            } else if self.is_bool {
                return Ok("false".to_string());
            } else if self.is_char {
                return Ok(String::new());
            }
            return Err(make_error(ErrorKind::Runtime, "invalid state: header type"));
        }
    }

    /// The value that the text of a cell of this column stands for; a
    /// decimal fraction keeps its text.
    pub fn parse_str(&self, s: &str) -> (r: Result<Object, Error>)
        requires
            s@.len() < usize::MAX / 4,
        ensures
            match cell_value(self@, s@) {
                Ok(v) => r is Ok && r->Ok_0@ == v,
                Err(k) => r is Err && r->Err_0@ == k,
            },
    {
        if self.is_int {
            let n = match parse_i128(s) {
                Some(v) => v,
                None => return Err(make_error(ErrorKind::Parse, "failed to parse as i64")),
            };
            return Ok(Object::from_int(n));
        } else if self.is_float {
            if self.is_auto_increment {
                return Err(make_error(ErrorKind::Parse, "cannot auto increment f64"));
            }
            if !is_float_text(s) {
                return Err(make_error(ErrorKind::Parse, "failed to parse as f64"));
            }
            return Ok(Object::from_float_text(s.to_string()));
        } else if self.is_bool {
            if self.is_auto_increment {
                return Err(make_error(ErrorKind::Parse, "cannot auto increment bool"));
            }
            let n = match parse_bool(s) {
                Some(v) => v,
                None => return Err(make_error(ErrorKind::Parse, "failed to parse as bool")),
            };
            return Ok(Object::from_bool(n));
        } else if self.is_char {
            if self.is_auto_increment {
                return Err(make_error(ErrorKind::Parse, "cannot auto increment char[]"));
            }
            if byte_len(s) > self.char_size {
                return Err(make_error(ErrorKind::Parse, "size is over char size"));
            }
            return Ok(Object::from_string(s.to_string()));
        }

        Err(make_error(ErrorKind::Parse, "failed to parse str as type"))
    }
}

/// A whole number written into a cell of a whole-number column reads back
/// as the same value.
pub proof fn lemma_int_cell_round_trip(h: HeaderTypeV, n: i128)
    requires
        h.is_int,
    ensures
        cell_value(h, object_text(ObjectV { kind: ObjectKind::Int, int_value: n, ..nil_object() }))
            == Ok::<ObjectV, ErrorKind>(ObjectV { kind: ObjectKind::Int, int_value: n, ..nil_object() }),
{
    lemma_int_text_parses(n);
}

/// A truth value written into a cell of a truth-value column reads back as
/// the same value.
pub proof fn lemma_bool_cell_round_trip(h: HeaderTypeV, b: bool)
    requires
        h.is_bool,
        !h.is_int,
        !h.is_float,
        !h.is_auto_increment,
    ensures
        cell_value(h, object_text(ObjectV { kind: ObjectKind::Bool, bool_value: b, ..nil_object() }))
            == Ok::<ObjectV, ErrorKind>(ObjectV { kind: ObjectKind::Bool, bool_value: b, ..nil_object() }),
{
    reveal_strlit("true");
    reveal_strlit("false");
}

/// A string that fits written into a cell of a character column reads back
/// as the same string.
pub proof fn lemma_string_cell_round_trip(h: HeaderTypeV, s: Seq<char>)
    requires
        h.is_char,
        !h.is_int,
        !h.is_float,
        !h.is_bool,
        !h.is_auto_increment,
        utf8_len(s) <= h.char_size,
    ensures
        cell_value(h, object_text(ObjectV { kind: ObjectKind::String, string: s, ..nil_object() }))
            == Ok::<ObjectV, ErrorKind>(ObjectV { kind: ObjectKind::String, string: s, ..nil_object() }),
{
}

/// The text that a column without a default value takes is a valid cell of
/// that column.
pub proof fn lemma_default_text_is_a_cell(h: HeaderTypeV)
    requires
        !h.is_default,
        h.is_int || h.is_float || h.is_bool || h.is_char,
        !h.is_int ==> !h.is_auto_increment,
    ensures
        default_text(h) is Ok,
        cell_value(h, default_text(h)->Ok_0) is Ok,
{
    reveal_strlit("0");
    reveal_strlit("0.0");
    reveal_strlit("false");
    if h.is_int {
        lemma_int_text_parses(0);
        assert(int_text(0) =~= "0"@) by {
            reveal_strlit("0");
        }
    } else if h.is_float {
        let t = "0.0"@;
        let l = t.map_values(|c: char| crate::tokenizer::lower(c));
        assert(l =~= seq!['0', '.', '0']);
        assert(seq!['0', '.', '0'].drop_last() =~= seq!['0', '.']);
        assert(seq!['0', '.'].drop_last() =~= seq!['0']);
        assert(seq!['0'].drop_last() =~= Seq::<char>::empty());
        assert(num_run(Seq::<char>::empty()) is Start);
        assert(num_run(seq!['0']) is Whole);
        assert(num_run(seq!['0', '.']) is Fraction);
        assert(num_run(seq!['0', '.', '0']) is Fraction);
    } else if h.is_bool {
    } else {
        assert(utf8_len(Seq::<char>::empty()) == 0);
    }
}

} // verus!
