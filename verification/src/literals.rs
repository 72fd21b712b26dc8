//! Reading the text of a table cell as a value of a column type: what std's
//! `str::parse` accepts for `i128`, `bool` and `f64`.
use vstd::prelude::*;
use crate::text::{chars_of, digit_char, int_text, nat_text};
use crate::tokenizer::{
    all_digits, decimal_value, is_digit, lemma_decimal_nonneg, lemma_decimal_prefix, lemma_decimal_push, lower, to_lower,
};

verus! {

pub open spec fn is_sign(c: char) -> bool {
    c == '+' || c == '-'
}

/// The value of an optionally signed string of decimal digits.
pub open spec fn signed_decimal(s: Seq<char>) -> Option<int> {
    if s.len() > 0 && is_sign(s[0]) {
        let d = s.subrange(1, s.len() as int);
        if d.len() > 0 && all_digits(d) {
            Some(if s[0] == '-' { -decimal_value(d) } else { decimal_value(d) })
        } else {
            None
        }
    } else if s.len() > 0 && all_digits(s) {
        Some(decimal_value(s))
    } else {
        None
    }
}

/// What `str::parse::<i128>` gives: a signed decimal that fits.
pub open spec fn parsed_i128(s: Seq<char>) -> Option<i128> {
    match signed_decimal(s) {
        Some(v) => if i128::MIN <= v <= i128::MAX {
            Some(v as i128)
        } else {
            None
        },
        None => None,
    }
}

/// What `str::parse::<bool>` gives: exactly `true` or `false`.
pub open spec fn parsed_bool(s: Seq<char>) -> Option<bool> {
    if s =~= seq!['t', 'r', 'u', 'e'] {
        Some(true)
    } else if s =~= seq!['f', 'a', 'l', 's', 'e'] {
        Some(false)
    } else {
        None
    }
}

/// The states of reading a decimal number `digits [. digits] [e [sign] digits]`.
#[derive(Clone, Copy, PartialEq, Eq, Structural)]
pub enum NumState {
    Start,
    Whole,
    LoneDot,
    Fraction,
    Exp,
    ExpSign,
    ExpDigits,
    Dead,
}

pub open spec fn num_step(q: NumState, c: char) -> NumState {
    match q {
        NumState::Start => if is_digit(c) {
            NumState::Whole
        } else if c == '.' {
            NumState::LoneDot
        } else {
            NumState::Dead
        },
        NumState::Whole => if is_digit(c) {
            NumState::Whole
        } else if c == '.' {
            NumState::Fraction
        } else if c == 'e' {
            NumState::Exp
        } else {
            NumState::Dead
        },
        NumState::LoneDot => if is_digit(c) {
            NumState::Fraction
        } else {
            NumState::Dead
        },
        NumState::Fraction => if is_digit(c) {
            NumState::Fraction
        } else if c == 'e' {
            NumState::Exp
        } else {
            NumState::Dead
        },
        NumState::Exp => if is_digit(c) {
            NumState::ExpDigits
        } else if is_sign(c) {
            NumState::ExpSign
        } else {
            NumState::Dead
        },
        NumState::ExpSign | NumState::ExpDigits => if is_digit(c) {
            NumState::ExpDigits
        } else {
            NumState::Dead
        },
        NumState::Dead => NumState::Dead,
    }
}

pub open spec fn num_run(s: Seq<char>) -> NumState
    decreases s.len(),
{
    if s.len() == 0 {
        NumState::Start
    } else {
        num_step(num_run(s.drop_last()), s.last())
    }
}

pub open spec fn num_accepts(q: NumState) -> bool {
    q is Whole || q is Fraction || q is ExpDigits
}

/// Text that `str::parse::<f64>` reads, as its documentation gives the
/// grammar: an optional sign, then `inf`, `infinity`, `nan` or a decimal
/// number with an optional exponent; letters in any case.
pub open spec fn float_text_ok(s: Seq<char>) -> bool {
    let l = s.map_values(|c: char| lower(c));
    let b = if l.len() > 0 && is_sign(l[0]) { l.subrange(1, l.len() as int) } else { l };
    ||| b =~= seq!['i', 'n', 'f']
    ||| b =~= seq!['i', 'n', 'f', 'i', 'n', 'i', 't', 'y']
    ||| b =~= seq!['n', 'a', 'n']
    ||| num_accepts(num_run(b))
}

fn is_digit_char(c: char) -> (b: bool)
    ensures
        b == is_digit(c),
{
    '0' <= c && c <= '9'
}

/// Reads a text as an `i128`, as `str::parse::<i128>` does.
pub fn parse_i128(s: &str) -> (r: Option<i128>)
    ensures
        r == parsed_i128(s@),
{
    let cs = chars_of(s);
    let n = cs.len();
    if n == 0 {
        return None;
    }
    let signed = cs[0] == '+' || cs[0] == '-';
    let neg = cs[0] == '-';
    let start: usize = if signed { 1 } else { 0 };
    if start == n {
        return None;
    }
    let ghost d = cs@.subrange(start as int, n as int);
    let limit: u128 = if neg { 0x8000_0000_0000_0000_0000_0000_0000_0000u128 } else { 0x7fff_ffff_ffff_ffff_ffff_ffff_ffff_ffffu128 };
    let mut mag: u128 = 0;
    let mut k = start;
    while k < n
        invariant
            cs@ == s@,
            n == cs@.len(),
            start <= k <= n,
            0 < n,
            signed == is_sign(cs@[0]),
            neg == (cs@[0] == '-'),
            start == (if signed { 1usize } else { 0usize }),
            start < n,
            limit == (if neg { 0x8000_0000_0000_0000_0000_0000_0000_0000u128 } else { 0x7fff_ffff_ffff_ffff_ffff_ffff_ffff_ffffu128 }),
            d == cs@.subrange(start as int, n as int),
            all_digits(d.take(k - start)),
            mag == decimal_value(d.take(k - start)),
            mag <= limit,
        decreases n - k,
    {
        let c = cs[k];
        proof {
            assert(d.take(k - start + 1) =~= d.take(k - start).push(c));
            lemma_decimal_push(d.take(k - start), c);
        }
        if !is_digit_char(c) {
            proof {
                assert(!is_digit(d[k - start]));
                if !signed {
                    assert(d =~= s@);
                }
            }
            return None;
        }
        let dg: u128 = (c as u32 - '0' as u32) as u128;
        if mag > (limit - dg) / 10 {
            proof {
                assert(mag * 10 + dg > limit) by (nonlinear_arith)
                    requires
                        mag > (limit - dg) / 10,
                        0 <= dg <= 9,
                ;
                if all_digits(d) {
                    lemma_decimal_prefix(d, k - start + 1);
                }
                if !signed {
                    assert(d =~= s@);
                }
            }
            return None;
        }
        proof {
            assert(mag * 10 <= limit - dg) by (nonlinear_arith)
                requires
                    mag <= (limit - dg) / 10,
                    0 <= dg <= 9,
            ;
        }
        mag = mag * 10 + dg;
        k += 1;
    }
    proof {
        assert(d.take(k - start) =~= d);
        if !signed {
            assert(d =~= s@);
        }
        lemma_decimal_nonneg(d);
    }
    if neg {
        if mag == 0x8000_0000_0000_0000_0000_0000_0000_0000u128 {
            Some(i128::MIN)
        } else {
            Some(-(mag as i128))
        }
    } else {
        Some(mag as i128)
    }
}

/// Reads a text as a `bool`, as `str::parse::<bool>` does.
pub fn parse_bool(s: &str) -> (r: Option<bool>)
    ensures
        r == parsed_bool(s@),
{
    let cs = chars_of(s);
    if cs.len() == 4 && cs[0] == 't' && cs[1] == 'r' && cs[2] == 'u' && cs[3] == 'e' {
        proof {
            assert(cs@ =~= seq!['t', 'r', 'u', 'e']);
        }
        Some(true)
    } else if cs.len() == 5 && cs[0] == 'f' && cs[1] == 'a' && cs[2] == 'l' && cs[3] == 's' && cs[4] == 'e' {
        proof {
            assert(cs@ =~= seq!['f', 'a', 'l', 's', 'e']);
            assert(!(cs@ =~= seq!['t', 'r', 'u', 'e']));
        }
        Some(false)
    } else {
        proof {
            if cs@ =~= seq!['t', 'r', 'u', 'e'] {
                assert(cs@[0] == 't' && cs@[3] == 'e');
            }
            if cs@ =~= seq!['f', 'a', 'l', 's', 'e'] {
                assert(cs@[0] == 'f' && cs@[4] == 'e');
            }
        }
        None
    }
}

fn num_step_exec(q: NumState, c: char) -> (r: NumState)
    ensures
        r == num_step(q, c),
{
    let digit = is_digit_char(c);
    match q {
        NumState::Start => if digit {
            NumState::Whole
        } else if c == '.' {
            NumState::LoneDot
        } else {
            NumState::Dead
        },
        NumState::Whole => if digit {
            NumState::Whole
        } else if c == '.' {
            NumState::Fraction
        } else if c == 'e' {
            NumState::Exp
        } else {
            NumState::Dead
        },
        NumState::LoneDot => if digit {
            NumState::Fraction
        } else {
            NumState::Dead
        },
        NumState::Fraction => if digit {
            NumState::Fraction
        } else if c == 'e' {
            NumState::Exp
        } else {
            NumState::Dead
        },
        NumState::Exp => if digit {
            NumState::ExpDigits
        } else if c == '+' || c == '-' {
            NumState::ExpSign
        } else {
            NumState::Dead
        },
        NumState::ExpSign | NumState::ExpDigits => if digit {
            NumState::ExpDigits
        } else {
            NumState::Dead
        },
        NumState::Dead => NumState::Dead,
    }
}

/// Whether the characters of `l` from `start` on are exactly `w`.
fn tail_is(l: &Vec<char>, start: usize, w: &Vec<char>) -> (b: bool)
    requires
        start <= l@.len(),
    ensures
        b == (l@.subrange(start as int, l@.len() as int) =~= w@),
{
    if l.len() - start != w.len() {
        return false;
    }
    let mut k: usize = 0;
    while k < w.len()
        invariant
            start <= l@.len(),
            l@.len() - start == w@.len(),
            l@.len() <= usize::MAX,
            k <= w@.len(),
            forall|j: int| 0 <= j < k ==> l@[start + j] == w@[j],
        decreases w@.len() - k,
    {
        if l[start + k] != w[k] {
            proof {
                assert(l@.subrange(start as int, l@.len() as int)[k as int] != w@[k as int]);
            }
            return false;
        }
        k += 1;
    }
    true
}

/// Whether `str::parse::<f64>` reads the text.
pub fn is_float_text(s: &str) -> (b: bool)
    ensures
        b == float_text_ok(s@),
{
    let cs = chars_of(s);
    let ghost ls = s@.map_values(|c: char| lower(c));
    let mut l: Vec<char> = Vec::new();
    let mut i: usize = 0;
    while i < cs.len()
        invariant
            cs@ == s@,
            i <= cs@.len(),
            l@ == cs@.take(i as int).map_values(|c: char| lower(c)),
        decreases cs@.len() - i,
    {
        proof {
            assert(cs@.take(i + 1).map_values(|c: char| lower(c)) =~= cs@.take(i as int).map_values(
                |c: char| lower(c),
            ).push(lower(cs@[i as int])));
        }
        l.push(to_lower(cs[i]));
        i += 1;
    }
    proof {
        assert(cs@.take(i as int) =~= s@);
        assert(l@ == ls);
    }
    let n = l.len();
    let start: usize = if n > 0 && (l[0] == '+' || l[0] == '-') { 1 } else { 0 };
    let ghost b = l@.subrange(start as int, n as int);
    proof {
        if start == 0 {
            assert(b =~= ls);
        }
    }
    if tail_is(&l, start, &vec!['i', 'n', 'f']) || tail_is(&l, start, &vec!['i', 'n', 'f', 'i', 'n', 'i', 't', 'y'])
        || tail_is(&l, start, &vec!['n', 'a', 'n']) {
        return true;
    }
    let mut q = NumState::Start;
    let mut k = start;
    while k < n
        invariant
            start <= k <= n,
            n == l@.len(),
            b == l@.subrange(start as int, n as int),
            q == num_run(b.take(k - start)),
        decreases n - k,
    {
        proof {
            assert(b.take(k - start + 1).drop_last() =~= b.take(k - start));
            assert(b.take(k - start + 1).last() == l@[k as int]);
        }
        q = num_step_exec(q, l[k]);
        k += 1;
    }
    proof {
        assert(b.take(k - start) =~= b);
    }
    q == NumState::Whole || q == NumState::Fraction || q == NumState::ExpDigits
}

proof fn lemma_nat_text_value(n: nat)
    ensures
        nat_text(n).len() > 0,
        all_digits(nat_text(n)),
        decimal_value(nat_text(n)) == n,
    decreases n,
{
    if n < 10 {
        assert((((48 + n) as u8) as char) as int == 48 + n);
        lemma_decimal_push(Seq::<char>::empty(), digit_char(n));
        assert(Seq::<char>::empty().push(digit_char(n)) =~= nat_text(n));
        assert(decimal_value(Seq::<char>::empty()) == 0);
    } else {
        lemma_nat_text_value(n / 10);
        let d = (n % 10) as nat;
        assert((((48 + d) as u8) as char) as int == 48 + d);
        lemma_decimal_push(nat_text(n / 10), digit_char(d));
        assert(n == (n / 10) * 10 + d);
    }
}

/// The decimal text of a whole number reads back as that number.
pub proof fn lemma_int_text_parses(n: i128)
    ensures
        parsed_i128(int_text(n as int)) == Some(n),
{
    if n < 0 {
        lemma_nat_text_value((-n) as nat);
        let s = int_text(n as int);
        assert(s.subrange(1, s.len() as int) =~= nat_text((-n) as nat));
    } else {
        lemma_nat_text_value(n as nat);
        assert(is_digit(nat_text(n as nat)[0]));
    }
}

} // verus!
