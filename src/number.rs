//! The text of a floating-point number, as std's `f64` parser accepts it.
//!
//! Grammar, compared case-insensitively:
//! `Sign? ( "inf" | "infinity" | "nan" | Number )`, where
//! `Number ::= ( Digit+ | Digit+ "." Digit* | Digit* "." Digit+ ) Exp?` and
//! `Exp ::= "e" Sign? Digit+`.
use crate::names::{all_digits, chars_of, is_digit, is_digit_char};
use vstd::prelude::*;

verus! {

pub open spec fn is_sign(c: char) -> bool {
    c == '+' || c == '-'
}

pub open spec fn strip_sign(s: Seq<char>) -> Seq<char> {
    if s.len() > 0 && is_sign(s[0]) {
        s.subrange(1, s.len() as int)
    } else {
        s
    }
}

/// `s` spells the word whose lower and upper case forms are given.
pub open spec fn is_word_ci(s: Seq<char>, lower: Seq<char>, upper: Seq<char>) -> bool {
    &&& s.len() == lower.len()
    &&& s.len() == upper.len()
    &&& forall|i: int| 0 <= i < s.len() ==> #[trigger] s[i] == lower[i] || s[i] == upper[i]
}

pub open spec fn is_special_number(s: Seq<char>) -> bool {
    ||| is_word_ci(s, seq!['i', 'n', 'f'], seq!['I', 'N', 'F'])
    ||| is_word_ci(
        s,
        seq!['i', 'n', 'f', 'i', 'n', 'i', 't', 'y'],
        seq!['I', 'N', 'F', 'I', 'N', 'I', 'T', 'Y'],
    )
    ||| is_word_ci(s, seq!['n', 'a', 'n'], seq!['N', 'A', 'N'])
}

/// Digits with at most one point, and at least one digit.
pub open spec fn is_mantissa(m: Seq<char>) -> bool {
    &&& forall|i: int| 0 <= i < m.len() ==> is_digit(#[trigger] m[i]) || m[i] == '.'
    &&& forall|i: int, j: int| 0 <= i < j < m.len() ==> !(#[trigger] m[i] == '.' && #[trigger] m[j] == '.')
    &&& exists|i: int| 0 <= i < m.len() && is_digit(#[trigger] m[i])
}

pub open spec fn is_exp_mark(c: char) -> bool {
    c == 'e' || c == 'E'
}

/// What follows the exponent mark: an optional sign and at least one digit.
pub open spec fn is_exponent(x: Seq<char>) -> bool {
    let d = strip_sign(x);
    d.len() > 0 && all_digits(d, 0, d.len() as int)
}

pub open spec fn is_decimal(s: Seq<char>) -> bool {
    exists|k: int|
        0 <= k <= s.len() && #[trigger] is_mantissa(s.subrange(0, k)) && (k == s.len() || (
        is_exp_mark(s[k]) && is_exponent(s.subrange(k + 1, s.len() as int))))
}

pub open spec fn is_number_text(s: Seq<char>) -> bool {
    let b = strip_sign(s);
    is_special_number(b) || is_decimal(b)
}

fn copy_range(cs: &Vec<char>, lo: usize, hi: usize) -> (r: Vec<char>)
    requires
        lo <= hi <= cs@.len(),
    ensures
        r@ == cs@.subrange(lo as int, hi as int),
{
    let mut r: Vec<char> = Vec::new();
    let mut i = lo;
    while i < hi
        invariant
            lo <= i <= hi <= cs@.len(),
            r@ == cs@.subrange(lo as int, i as int),
        decreases hi - i,
    {
        r.push(cs[i]);
        i = i + 1;
    }
    r
}

fn without_sign(cs: &Vec<char>) -> (r: Vec<char>)
    ensures
        r@ == strip_sign(cs@),
{
    if cs.len() > 0 && (cs[0] == '+' || cs[0] == '-') {
        copy_range(cs, 1, cs.len())
    } else {
        copy_range(cs, 0, cs.len())
    }
}

fn word_ci(s: &Vec<char>, lower: &Vec<char>, upper: &Vec<char>) -> (r: bool)
    ensures
        r == is_word_ci(s@, lower@, upper@),
{
    if s.len() != lower.len() || s.len() != upper.len() {
        return false;
    }
    let mut i: usize = 0;
    while i < s.len()
        invariant
            s@.len() == lower@.len() == upper@.len(),
            i <= s@.len(),
            forall|j: int| 0 <= j < i ==> #[trigger] s@[j] == lower@[j] || s@[j] == upper@[j],
        decreases s@.len() - i,
    {
        if s[i] != lower[i] && s[i] != upper[i] {
            return false;
        }
        i = i + 1;
    }
    true
}

fn special_number(b: &Vec<char>) -> (r: bool)
    ensures
        r == is_special_number(b@),
{
    let inf_l = vec!['i', 'n', 'f'];
    let inf_u = vec!['I', 'N', 'F'];
    let infinity_l = vec!['i', 'n', 'f', 'i', 'n', 'i', 't', 'y'];
    let infinity_u = vec!['I', 'N', 'F', 'I', 'N', 'I', 'T', 'Y'];
    let nan_l = vec!['n', 'a', 'n'];
    let nan_u = vec!['N', 'A', 'N'];
    proof {
        assert(inf_l@ =~= seq!['i', 'n', 'f']);
        assert(inf_u@ =~= seq!['I', 'N', 'F']);
        assert(infinity_l@ =~= seq!['i', 'n', 'f', 'i', 'n', 'i', 't', 'y']);
        assert(infinity_u@ =~= seq!['I', 'N', 'F', 'I', 'N', 'I', 'T', 'Y']);
        assert(nan_l@ =~= seq!['n', 'a', 'n']);
        assert(nan_u@ =~= seq!['N', 'A', 'N']);
    }
    word_ci(b, &inf_l, &inf_u) || word_ci(b, &infinity_l, &infinity_u) || word_ci(
        b,
        &nan_l,
        &nan_u,
    )
}

fn mantissa(m: &Vec<char>) -> (r: bool)
    ensures
        r == is_mantissa(m@),
{
    let mut seen_dot = false;
    let mut seen_digit = false;
    let mut i: usize = 0;
    while i < m.len()
        invariant
            i <= m@.len(),
            forall|j: int| 0 <= j < i ==> is_digit(#[trigger] m@[j]) || m@[j] == '.',
            forall|j: int, k: int| 0 <= j < k < i ==> !(#[trigger] m@[j] == '.' && #[trigger] m@[k] == '.'),
            seen_dot <==> exists|j: int| 0 <= j < i && #[trigger] m@[j] == '.',
            seen_digit <==> exists|j: int| 0 <= j < i && is_digit(#[trigger] m@[j]),
        decreases m@.len() - i,
    {
        let c = m[i];
        if c == '.' {
            if seen_dot {
                proof {
                    let j = choose|j: int| 0 <= j < i && #[trigger] m@[j] == '.';
                    assert(m@[j] == '.' && m@[i as int] == '.');
                }
                return false;
            }
            seen_dot = true;
        } else if is_digit_char(c) {
            seen_digit = true;
        } else {
            return false;
        }
        i = i + 1;
    }
    seen_digit
}

fn exponent(x: &Vec<char>) -> (r: bool)
    ensures
        r == is_exponent(x@),
{
    let d = without_sign(x);
    if d.len() == 0 {
        return false;
    }
    let mut i: usize = 0;
    while i < d.len()
        invariant
            i <= d@.len(),
            d@ == strip_sign(x@),
            all_digits(d@, 0, i as int),
        decreases d@.len() - i,
    {
        if !is_digit_char(d[i]) {
            assert(!is_digit(d@[i as int]));
            return false;
        }
        i = i + 1;
    }
    true
}

fn decimal(b: &Vec<char>) -> (r: bool)
    ensures
        r == is_decimal(b@),
{
    let n = b.len();
    let mut k: usize = 0;
    while k < n && b[k] != 'e' && b[k] != 'E'
        invariant
            k <= n == b@.len(),
            forall|j: int| 0 <= j < k ==> !is_exp_mark(#[trigger] b@[j]),
        decreases n - k,
    {
        k = k + 1;
    }
    let m = copy_range(b, 0, k);
    let r = if k == n {
        mantissa(&m)
    } else {
        let x = copy_range(b, k + 1, n);
        mantissa(&m) && exponent(&x)
    };
    proof {
        if r {
            assert(is_mantissa(b@.subrange(0, k as int)));
        } else if is_decimal(b@) {
            let k2 = choose|k2: int|
                0 <= k2 <= b@.len() && #[trigger] is_mantissa(b@.subrange(0, k2)) && (k2 == b@.len()
                    || (is_exp_mark(b@[k2]) && is_exponent(b@.subrange(k2 + 1, b@.len() as int))));
            if k2 < k {
                assert(!is_exp_mark(b@[k2]));
            } else if k2 > k {
                let m2 = b@.subrange(0, k2);
                assert(is_digit(m2[k as int]) || m2[k as int] == '.');
            }
            assert(k2 == k);
        }
    }
    r
}

/// Whether `cell` is the text of a floating-point number.
pub fn is_number_cell(cell: &str) -> (r: bool)
    ensures
        r == is_number_text(cell@),
{
    let cs = chars_of(cell);
    let b = without_sign(&cs);
    special_number(&b) || decimal(&b)
}

} // verus!
