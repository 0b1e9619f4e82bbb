//! Display formatting for amounts: digits in groups of three from the
//! right, separated by dots, as the currency is customarily written.

use vstd::prelude::*;
use crate::money::{dec_digits, dec_rep, digit_char, digit_char_exec, Money};

verus! {

/// `s` regrouped with a dot before every block of three characters from
/// the right.
pub open spec fn grouped(s: Seq<char>) -> Seq<char>
    decreases s.len(),
{
    if s.len() <= 3 {
        s
    } else {
        grouped(s.take(s.len() - 3)) + seq!['.'] + s.skip(s.len() - 3)
    }
}

/// The grouped display text of an amount, with a leading minus sign when
/// it is negative.
pub open spec fn idr_text(v: int) -> Seq<char> {
    if v < 0 {
        seq!['-'] + grouped(dec_rep(-v))
    } else {
        grouped(dec_rep(v))
    }
}

fn push_digit_chars(v: &mut Vec<char>, n: i64)
    requires
        n > 0,
    ensures
        final(v)@ == old(v)@ + dec_digits(n as int),
    decreases n,
{
    if n >= 10 {
        push_digit_chars(v, n / 10);
    }
    let d: i64 = n % 10;
    v.push(digit_char_exec(d));
    proof {
        if n < 10 {
            assert(dec_digits(0) =~= Seq::empty());
            assert(dec_digits(n as int) =~= Seq::empty().push(digit_char(n as int % 10)));
        }
        assert((old(v)@ + dec_digits(n as int / 10)).push(digit_char(n as int % 10)) =~= old(v)@
            + dec_digits(n as int));
    }
}

fn digit_vec(n: i64) -> (r: Vec<char>)
    requires
        n >= 0,
    ensures
        r@ == dec_rep(n as int),
{
    let mut v: Vec<char> = Vec::new();
    if n == 0 {
        v.push('0');
        proof {
            assert(v@ =~= seq!['0']);
        }
    } else {
        push_digit_chars(&mut v, n);
        proof {
            assert(Seq::<char>::empty() + dec_digits(n as int) =~= dec_digits(n as int));
        }
    }
    v
}

fn push_grouped(out: &mut String, digits: &Vec<char>, end: usize)
    requires
        end <= digits@.len(),
    ensures
        final(out)@ == old(out)@ + grouped(digits@.take(end as int)),
    decreases end,
{
    if end <= 3 {
        if end >= 1 {
            out.push(digits[0]);
        }
        if end >= 2 {
            out.push(digits[1]);
        }
        if end >= 3 {
            out.push(digits[2]);
        }
        proof {
            assert(out@ =~= old(out)@ + grouped(digits@.take(end as int)));
        }
    } else {
        push_grouped(out, digits, end - 3);
        out.push('.');
        out.push(digits[end - 3]);
        out.push(digits[end - 2]);
        out.push(digits[end - 1]);
        proof {
            assert(digits@.take(end as int).take(end - 3) =~= digits@.take(end - 3));
            assert(grouped(digits@.take(end as int)) =~= grouped(digits@.take(end - 3)) + seq!['.']
                + digits@.take(end as int).skip(end - 3));
            assert(out@ =~= old(out)@ + grouped(digits@.take(end as int)));
        }
    }
}

/// The grouped display text of an amount, e.g. one million as
/// "1.000.000".
pub fn format_idr(amount: Money) -> (r: String)
    requires
        amount@ > i64::MIN,
    ensures
        r@ == idr_text(amount@),
{
    let neg: bool = amount.minor < 0;
    let n: i64 = if neg {
        -amount.minor
    } else {
        amount.minor
    };
    let digits: Vec<char> = digit_vec(n);
    let mut out: String = String::new();
    if neg {
        out.push('-');
    }
    push_grouped(&mut out, &digits, digits.len());
    proof {
        assert(digits@.take(digits@.len() as int) =~= digits@);
        if neg {
            assert(Seq::<char>::empty().push('-') + grouped(digits@) =~= idr_text(amount@));
        } else {
            assert(Seq::<char>::empty() + grouped(digits@) =~= idr_text(amount@));
        }
    }
    out
}

} // verus!
