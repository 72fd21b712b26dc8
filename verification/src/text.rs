use vstd::prelude::*;

verus! {

/// Appends one character to a string (std's `String::push`).
#[verifier::external_body]
pub(crate) fn push_char(s: &mut String, c: char)
    ensures
        final(s)@ == old(s)@.push(c),
{
    s.push(c);
}


/// Removes the last character of a string, if any (std's `String::pop`).
#[verifier::external_body]
pub(crate) fn pop_char(s: &mut String) -> (r: Option<char>)
    ensures
        old(s)@.len() > 0 ==> final(s)@ == old(s)@.drop_last() && r == Some(old(s)@.last()),
        old(s)@.len() == 0 ==> final(s)@ == old(s)@ && r is None,
{
    s.pop()
}

/// Appends a string slice to a string.
pub fn push_str(s: &mut String, t: &str)
    ensures
        final(s)@ == old(s)@ + t@,
{
    s.append(t);
}

/// The digit character for `d < 10`.
pub open spec fn digit_char(d: nat) -> char {
    ((48 + d) as u8) as char
}

/// The decimal text of a natural number.
pub open spec fn nat_text(n: nat) -> Seq<char>
    decreases n,
{
    if n < 10 {
        seq![digit_char(n)]
    } else {
        nat_text(n / 10).push(digit_char(n % 10))
    }
}

/// The decimal text of an integer, with a minus sign when negative.
pub open spec fn int_text(n: int) -> Seq<char> {
    if n < 0 {
        seq!['-'] + nat_text((-n) as nat)
    } else {
        nat_text(n as nat)
    }
}

/// Appends the decimal text of `n`.
pub fn push_nat_text(s: &mut String, n: u128)
    ensures
        final(s)@ == old(s)@ + nat_text(n as nat),
    decreases n,
{
    if n >= 10 {
        push_nat_text(s, n / 10);
    }
    let d: u8 = (n % 10) as u8;
    push_char(s, (48u8 + d) as char);
    proof {
        assert(old(s)@ + nat_text(n as nat) =~= if n >= 10 {
            old(s)@ + nat_text((n / 10) as nat)
        } else {
            old(s)@
        }.push(digit_char((n % 10) as nat)));
    }
}

/// The decimal text of a natural number.
pub fn nat_to_string(n: u128) -> (s: String)
    ensures
        s@ == nat_text(n as nat),
{
    let mut s = String::new();
    push_nat_text(&mut s, n);
    proof {
        assert(s@ =~= nat_text(n as nat));
    }
    s
}

/// The decimal text of an integer (as `format!("{}", n)` writes it).
pub fn int_to_string(n: i128) -> (s: String)
    ensures
        s@ == int_text(n as int),
{
    if n < 0 {
        let m: u128 = ((-(n + 1)) as u128) + 1;
        let mut s = "-".to_string();
        proof {
            reveal_strlit("-");
            assert(s@ =~= seq!['-']);
        }
        push_nat_text(&mut s, m);
        s
    } else {
        nat_to_string(n as u128)
    }
}

/// The number of bytes that UTF-8 takes for a character.
pub open spec fn utf8_width(c: char) -> nat {
    if (c as u32) < 0x80 {
        1
    } else if (c as u32) < 0x800 {
        2
    } else if (c as u32) < 0x10000 {
        3
    } else {
        4
    }
}

/// The length in bytes of a text in UTF-8, which is what `str::len` returns.
pub open spec fn utf8_len(s: Seq<char>) -> nat
    decreases s.len(),
{
    if s.len() == 0 {
        0
    } else {
        utf8_len(s.drop_last()) + utf8_width(s.last())
    }
}

/// The length in bytes of a text in UTF-8.
pub fn byte_len(s: &str) -> (n: usize)
    requires
        s@.len() < usize::MAX / 4,
    ensures
        n == utf8_len(s@),
{
    let mut n: usize = 0;
    for c in it: s.chars()
        invariant
            it.seq() == s@,
            s@.len() < usize::MAX / 4,
            n == utf8_len(s@.take(it.index() as int)),
            n <= 4 * it.index(),
    {
        proof {
            assert(s@.take(it.index() + 1).drop_last() =~= s@.take(it.index() as int));
            assert(c == s@[it.index() as int]);
        }
        let u = c as u32;
        let w: usize = if u < 0x80 { 1 } else if u < 0x800 { 2 } else if u < 0x10000 { 3 } else { 4 };
        n = n + w;
    }
    proof {
        assert(s@.take(s@.len() as int) =~= s@);
    }
    n
}

/// The characters of a text.
pub fn chars_of(s: &str) -> (v: Vec<char>)
    ensures
        v@ == s@,
{
    let mut v: Vec<char> = Vec::new();
    for c in it: s.chars()
        invariant
            it.seq() == s@,
            v@ == s@.take(it.index() as int),
    {
        proof {
            assert(c == s@[it.index() as int]);
            assert(s@.take(it.index() + 1) =~= s@.take(it.index() as int).push(c));
        }
        v.push(c);
    }
    proof {
        assert(s@.take(s@.len() as int) =~= s@);
    }
    v
}

} // verus!
