//! The exact fixed-point money type used for every monetary field.
//!
//! Amounts are kept in minor units of a zero-decimal currency, so the scale
//! is 0: one unit of `Money` is one whole unit of currency, and no fractional
//! part is ever stored. Where an operation has to round (parsing a decimal
//! string, taking a percentage of an amount), it rounds half-up at this
//! scale.

use vstd::prelude::*;
use vstd::string::StringSliceAdditionalSpecFns;

verus! {

/// Largest magnitude, in minor units, that the ledger represents. Keeping
/// every stored amount within this bound keeps all of the engine's
/// arithmetic inside `i64`.
pub const MONEY_MAX: i64 = 1_000_000_000_000_000;

/// An exact base-10 fixed-point amount at scale 0, in minor units.
#[derive(Clone, Copy, Debug, PartialEq, Eq, Structural, Hash)]
pub struct Money {
    pub minor: i64,
}

impl View for Money {
    type V = int;

    open spec fn view(&self) -> int {
        self.minor as int
    }
}

/// An amount that the ledger may store: within the representable range and
/// not negative.
pub open spec fn storable(v: int) -> bool {
    0 <= v <= MONEY_MAX
}

/// Relies on `String::push` of std: appends the given character to the end
/// of the string.
pub assume_specification[ String::push ](s: &mut String, ch: char)
    ensures
        final(s)@ == old(s)@.push(ch),
;

/// The character for a single decimal digit.
pub open spec fn digit_char(d: int) -> char {
    if d == 0 {
        '0'
    } else if d == 1 {
        '1'
    } else if d == 2 {
        '2'
    } else if d == 3 {
        '3'
    } else if d == 4 {
        '4'
    } else if d == 5 {
        '5'
    } else if d == 6 {
        '6'
    } else if d == 7 {
        '7'
    } else if d == 8 {
        '8'
    } else {
        '9'
    }
}

/// The decimal digits of `n`, most significant first; empty when `n <= 0`.
pub open spec fn dec_digits(n: int) -> Seq<char>
    decreases n,
{
    if n <= 0 {
        Seq::empty()
    } else {
        dec_digits(n / 10).push(digit_char(n % 10))
    }
}

/// The decimal representation of a non-negative number: its digits, or "0".
pub open spec fn dec_rep(n: int) -> Seq<char> {
    if n == 0 {
        seq!['0']
    } else {
        dec_digits(n)
    }
}

/// The plain decimal text of an amount, with a leading minus sign when it is
/// negative.
pub open spec fn money_text(v: int) -> Seq<char> {
    if v < 0 {
        seq!['-'] + dec_rep(-v)
    } else {
        dec_rep(v)
    }
}

/// Whether a byte is an ASCII decimal digit.
pub open spec fn is_digit_byte(b: u8) -> bool {
    48 <= b <= 57
}

/// Whether every byte of `s` is an ASCII decimal digit.
pub open spec fn all_digit_bytes(s: Seq<u8>) -> bool {
    forall|i: int| 0 <= i < s.len() ==> is_digit_byte(#[trigger] s[i])
}

/// The value of a sequence of ASCII digit bytes, read as a decimal number.
pub open spec fn digits_val(s: Seq<u8>) -> int
    decreases s.len(),
{
    if s.len() == 0 {
        0
    } else {
        digits_val(s.drop_last()) * 10 + (s.last() - 48)
    }
}

/// Whether index `k` splits `s` into an integer part, one ASCII dot, and a
/// fractional part, both parts all digits and at least one digit present.
pub open spec fn dot_split_ok(s: Seq<u8>, k: int) -> bool {
    &&& 0 <= k < s.len()
    &&& s.len() >= 2
    &&& s[k] == 46
    &&& all_digit_bytes(s.take(k))
    &&& all_digit_bytes(s.skip(k + 1))
}

/// The value of `s` split at the dot `k`, rounded half-up at scale 0: the
/// integer part, plus one when the first fractional digit is 5 or more.
pub open spec fn dot_split_val(s: Seq<u8>, k: int) -> int {
    digits_val(s.take(k)) + if k + 1 < s.len() && s[k + 1] >= 53 {
        1int
    } else {
        0int
    }
}

/// `Some(v)` when `v` is representable, `None` otherwise.
pub open spec fn in_range_opt(v: int) -> Option<int> {
    if v <= MONEY_MAX {
        Some(v)
    } else {
        None
    }
}

/// What parsing the UTF-8 bytes of an amount yields: the value of a plain
/// run of digits, or of a run of digits with a single dot, rounded half-up
/// at scale 0; `None` for any other shape, and for a value beyond
/// `MONEY_MAX`.
pub open spec fn parse_val(s: Seq<u8>) -> Option<int> {
    if s.len() >= 1 && all_digit_bytes(s) {
        in_range_opt(digits_val(s))
    } else if exists|k: int| dot_split_ok(s, k) {
        in_range_opt(dot_split_val(s, choose|k: int| dot_split_ok(s, k)))
    } else {
        None
    }
}

/// A dot position that splits `s` into digit runs is unique.
proof fn lemma_dot_split_unique(s: Seq<u8>, k1: int, k2: int)
    requires
        dot_split_ok(s, k1),
        dot_split_ok(s, k2),
    ensures
        k1 == k2,
{
    if k1 < k2 {
        assert(s.take(k2)[k1] == 46);
    }
    if k2 < k1 {
        assert(s.take(k1)[k2] == 46);
    }
}

/// The value of a digit run is never negative.
proof fn lemma_digits_val_nonneg(s: Seq<u8>)
    requires
        all_digit_bytes(s),
    ensures
        digits_val(s) >= 0,
    decreases s.len(),
{
    if s.len() > 0 {
        assert(all_digit_bytes(s.drop_last())) by {
            assert(forall|i: int|
                0 <= i < s.len() - 1 ==> #[trigger] s.drop_last()[i] == s[i]);
        }
        lemma_digits_val_nonneg(s.drop_last());
    }
}

/// Extending a digit run never shrinks its value.
proof fn lemma_digits_val_prefix_le(s: Seq<u8>, i: int, j: int)
    requires
        all_digit_bytes(s),
        0 <= i <= j <= s.len(),
    ensures
        digits_val(s.take(i)) <= digits_val(s.take(j)),
    decreases j - i,
{
    if i < j {
        lemma_digits_val_prefix_le(s, i, j - 1);
        assert(all_digit_bytes(s.take(j - 1))) by {
            assert(forall|m: int|
                0 <= m < j - 1 ==> #[trigger] s.take(j - 1)[m] == s[m]);
        }
        lemma_digits_val_nonneg(s.take(j - 1));
        assert(s.take(j).drop_last() =~= s.take(j - 1));
        assert(digits_val(s.take(j)) == digits_val(s.take(j - 1)) * 10 + (s[j - 1] - 48));
    }
}

pub(crate) fn digit_char_exec(d: i64) -> (c: char)
    requires
        0 <= d <= 9,
    ensures
        c == digit_char(d as int),
{
    match d {
        0 => '0',
        1 => '1',
        2 => '2',
        3 => '3',
        4 => '4',
        5 => '5',
        6 => '6',
        7 => '7',
        8 => '8',
        _ => '9',
    }
}

fn push_digits(out: &mut String, n: i64)
    requires
        n > 0,
    ensures
        final(out)@ == old(out)@ + dec_digits(n as int),
    decreases n,
{
    if n >= 10 {
        push_digits(out, n / 10);
    }
    let d: i64 = n % 10;
    out.push(digit_char_exec(d));
    proof {
        if n < 10 {
            assert(dec_digits(0) =~= Seq::empty());
            assert(dec_digits(n as int) =~= Seq::empty().push(digit_char(n as int % 10)));
        }
        assert(old(out)@ + dec_digits(n as int / 10) + seq![digit_char(n as int % 10)] =~= old(
            out,
        )@ + dec_digits(n as int));
        assert((old(out)@ + dec_digits(n as int / 10)).push(digit_char(n as int % 10)) =~= old(
            out,
        )@ + dec_digits(n as int / 10) + seq![digit_char(n as int % 10)]);
    }
}

impl Money {
    /// The zero amount.
    pub fn zero() -> (r: Money)
        ensures
            r@ == 0,
    {
        Money { minor: 0 }
    }

    /// Wraps a raw count of minor units.
    pub fn from_minor(minor: i64) -> (r: Money)
        ensures
            r@ == minor,
    {
        Money { minor }
    }

    /// Parses the decimal text of an amount: a run of ASCII digits with at
    /// most one dot, rounded half-up at scale 0. Yields `None` for any other
    /// shape and for values beyond `MONEY_MAX`.
    pub fn parse(s: &str) -> (r: Option<Money>)
        ensures
            (match r {
                Some(m) => parse_val(s.spec_bytes()) == Some(m@),
                None => parse_val(s.spec_bytes()) is None,
            }),
    {
        let bytes: &[u8] = s.as_bytes();
        let n: usize = bytes.len();
        let ghost sq: Seq<u8> = s.spec_bytes();
        let mut dot: Option<usize> = None;
        let mut i: usize = 0;
        while i < n
            invariant
                sq == s.spec_bytes(),
                bytes@ == sq,
                n == sq.len(),
                i <= n,
                (match dot {
                    Some(k) => k < i && sq[k as int] == 46 && (forall|j: int|
                        0 <= j < i && j != k ==> is_digit_byte(#[trigger] sq[j])),
                    None => forall|j: int| 0 <= j < i ==> is_digit_byte(#[trigger] sq[j]),
                }),
            decreases n - i,
        {
            let b: u8 = bytes[i];
            if 48 <= b && b <= 57 {
            } else if b == 46 {
                if let Some(k) = dot {
                    proof {
                        assert(!is_digit_byte(46));
                        assert(!all_digit_bytes(sq));
                        assert forall|k2: int| !dot_split_ok(sq, k2) by {
                            if dot_split_ok(sq, k2) {
                                if k2 < k {
                                    assert(is_digit_byte(sq[k2]));
                                } else if k2 == k {
                                    assert(sq.skip(k2 + 1)[i - k2 - 1] == 46);
                                } else {
                                    assert(sq.take(k2)[k as int] == 46);
                                }
                            }
                        }
                    }
                    return None;
                }
                dot = Some(i);
            } else {
                proof {
                    assert(!is_digit_byte(sq[i as int]));
                    assert(!all_digit_bytes(sq));
                    assert forall|k2: int| !dot_split_ok(sq, k2) by {
                        if dot_split_ok(sq, k2) {
                            if (i as int) < k2 {
                                assert(sq.take(k2)[i as int] == sq[i as int]);
                            } else if k2 < (i as int) {
                                assert(sq.skip(k2 + 1)[i - k2 - 1] == sq[i as int]);
                            }
                        }
                    }
                }
                return None;
            }
            i = i + 1;
        }
        match dot {
            None => {
                if n == 0 {
                    proof {
                        assert forall|k2: int| !dot_split_ok(sq, k2) by {}
                    }
                    return None;
                }
                proof {
                    assert(all_digit_bytes(sq));
                }
                let mut acc: i64 = 0;
                let mut j: usize = 0;
                while j < n
                    invariant
                        sq == s.spec_bytes(),
                        bytes@ == sq,
                        n == sq.len(),
                        n >= 1,
                        all_digit_bytes(sq),
                        j <= n,
                        0 <= acc <= MONEY_MAX,
                        acc == digits_val(sq.take(j as int)),
                    decreases n - j,
                {
                    let d: u8 = bytes[j];
                    proof {
                        assert(is_digit_byte(sq[j as int]));
                        assert(sq.take(j + 1).drop_last() =~= sq.take(j as int));
                        assert(digits_val(sq.take(j + 1)) == digits_val(sq.take(j as int)) * 10 + (
                        sq[j as int] - 48));
                    }
                    let next: i64 = acc * 10 + ((d - 48) as i64);
                    if next > MONEY_MAX {
                        proof {
                            lemma_digits_val_prefix_le(sq, j + 1, n as int);
                            assert(sq.take(n as int) =~= sq);
                        }
                        return None;
                    }
                    acc = next;
                    j = j + 1;
                }
                proof {
                    assert(sq.take(n as int) =~= sq);
                }
                Some(Money { minor: acc })
            },
            Some(k) => {
                if n == 1 {
                    proof {
                        assert(!all_digit_bytes(sq));
                        assert forall|k2: int| !dot_split_ok(sq, k2) by {}
                    }
                    return None;
                }
                proof {
                    assert(!is_digit_byte(46));
                    assert(!all_digit_bytes(sq));
                    assert(all_digit_bytes(sq.take(k as int))) by {
                        assert(forall|j: int|
                            0 <= j < k ==> #[trigger] sq.take(k as int)[j] == sq[j]);
                    }
                    assert(all_digit_bytes(sq.skip(k + 1))) by {
                        assert(forall|j: int|
                            0 <= j < sq.len() - k - 1 ==> #[trigger] sq.skip(k + 1)[j] == sq[j + k
                                + 1]);
                    }
                    assert(dot_split_ok(sq, k as int));
                    assert forall|k2: int| dot_split_ok(sq, k2) implies k2 == k as int by {
                        lemma_dot_split_unique(sq, k2, k as int);
                    }
                    assert((choose|k2: int| dot_split_ok(sq, k2)) == k as int);
                }
                let ghost ip: Seq<u8> = sq.take(k as int);
                let mut acc: i64 = 0;
                let mut j: usize = 0;
                while j < k
                    invariant
                        sq == s.spec_bytes(),
                        bytes@ == sq,
                        n == sq.len(),
                        k < n,
                        all_digit_bytes(ip),
                        ip == sq.take(k as int),
                        j <= k,
                        0 <= acc <= MONEY_MAX,
                        acc == digits_val(ip.take(j as int)),
                        dot_split_ok(sq, k as int),
                        (choose|k2: int| dot_split_ok(sq, k2)) == k as int,
                    decreases k - j,
                {
                    let d: u8 = bytes[j];
                    proof {
                        assert(ip[j as int] == sq[j as int]);
                        assert(is_digit_byte(ip[j as int]));
                        assert(ip.take(j + 1).drop_last() =~= ip.take(j as int));
                        assert(digits_val(ip.take(j + 1)) == digits_val(ip.take(j as int)) * 10 + (
                        ip[j as int] - 48));
                    }
                    let next: i64 = acc * 10 + ((d - 48) as i64);
                    if next > MONEY_MAX {
                        proof {
                            lemma_digits_val_prefix_le(ip, j + 1, k as int);
                            assert(ip.take(k as int) =~= ip);
                            lemma_digits_val_nonneg(ip);
                            assert(dot_split_val(sq, k as int) > MONEY_MAX);
                        }
                        return None;
                    }
                    acc = next;
                    j = j + 1;
                }
                proof {
                    assert(ip.take(k as int) =~= ip);
                    assert(digits_val(sq.take(k as int)) == acc);
                }
                let mut v: i64 = acc;
                if k + 1 < n && bytes[k + 1] >= 53 {
                    v = acc + 1;
                }
                if v > MONEY_MAX {
                    return None;
                }
                Some(Money { minor: v })
            },
        }
    }

    /// The plain decimal text of this amount, e.g. for display or for a
    /// storage parameter.
    pub fn to_text(self) -> (r: String)
        requires
            self@ > i64::MIN,
        ensures
            r@ == money_text(self@),
    {
        let mut out = String::new();
        let n: i64 = if self.minor < 0 {
            out.push('-');
            -self.minor
        } else {
            self.minor
        };
        if n == 0 {
            out.push('0');
            proof {
                assert(Seq::<char>::empty().push('0') =~= seq!['0']);
            }
        } else {
            push_digits(&mut out, n);
            proof {
                if self@ < 0 {
                    assert(Seq::<char>::empty().push('-') + dec_digits(n as int) =~= seq!['-']
                        + dec_rep(n as int));
                }
            }
        }
        out
    }
}

} // verus!
