//! Numeric literals.
//!
//! The scanner captures a maximal run of numeric characters, `.` and `,`;
//! this module says what such a run denotes. The `,` is a grouping character
//! and is stripped; what remains must be a nonempty run of ASCII digits with
//! at most one `.`, and denotes an exact [`Decimal`]. A run whose digits do
//! not fit in the `u64` mantissa is not a valid literal.

use vstd::prelude::*;
use vstd::string::StrSliceExecFns;

use crate::ast::Decimal;
use crate::charclass::is_digit_char;

verus! {

/// The numeric value of an ASCII digit character.
pub open spec fn digit_val(c: char) -> int {
    (c as u32) - 48
}

/// Every character of `s` is an ASCII digit.
pub open spec fn all_digits(s: Seq<char>) -> bool {
    forall|k: int| 0 <= k < s.len() ==> is_digit_char(#[trigger] s[k])
}

/// The value of a digit sequence read left to right.
pub open spec fn digits_val(s: Seq<char>) -> int
    decreases s.len(),
{
    if s.len() == 0 {
        0
    } else {
        digits_val(s.drop_last()) * 10 + digit_val(s.last())
    }
}

/// `s` with every `,` grouping character removed.
pub open spec fn strip_grouping(s: Seq<char>) -> Seq<char>
    decreases s.len(),
{
    if s.len() == 0 {
        Seq::empty()
    } else if s.last() == ',' {
        strip_grouping(s.drop_last())
    } else {
        strip_grouping(s.drop_last()).push(s.last())
    }
}

/// The index of the first `.` in `s`, or `s.len()` if there is none.
pub open spec fn dot_index(s: Seq<char>) -> int
    decreases s.len(),
{
    if s.len() == 0 {
        0
    } else if s[0] == '.' {
        0
    } else {
        1 + dot_index(s.skip(1))
    }
}

pub proof fn lemma_dot_index_le(s: Seq<char>)
    ensures
        0 <= dot_index(s) <= s.len(),
    decreases s.len(),
{
    if s.len() != 0 && s[0] != '.' {
        lemma_dot_index_le(s.skip(1));
    }
}

/// The decimal a captured numeric run denotes, if it is a valid literal:
/// after stripping `,`, a nonempty ASCII digit run, optionally followed by
/// `.` and a (possibly empty) digit run. The mantissa is the value of all
/// digits read in order; the scale is the number of fraction digits.
pub open spec fn spec_parse_decimal(run: Seq<char>) -> Option<Decimal> {
    let t = strip_grouping(run);
    let d = dot_index(t);
    let int_part = t.take(d);
    let frac_part = if d == t.len() {
        Seq::<char>::empty()
    } else {
        t.skip(d + 1)
    };
    let digits = int_part + frac_part;
    if int_part.len() > 0 && all_digits(int_part) && all_digits(frac_part) && digits_val(digits)
        <= u64::MAX && frac_part.len() <= usize::MAX {
        Some(
            Decimal {
                mantissa: digits_val(digits) as u64,
                scale: frac_part.len() as usize,
            },
        )
    } else {
        None
    }
}

pub proof fn lemma_digits_val_nonneg(s: Seq<char>)
    requires
        all_digits(s),
    ensures
        digits_val(s) >= 0,
    decreases s.len(),
{
    if s.len() != 0 {
        assert(forall|k: int| 0 <= k < s.drop_last().len() ==> s.drop_last()[k] == s[k]);
        lemma_digits_val_nonneg(s.drop_last());
    }
}

/// Reading further digits never makes the value smaller: the value of a
/// prefix of a digit run is a lower bound for the value of the whole run.
pub proof fn lemma_digits_val_prefix_le(s: Seq<char>, i: int)
    requires
        all_digits(s),
        0 <= i <= s.len(),
    ensures
        digits_val(s.take(i)) <= digits_val(s),
    decreases s.len() - i,
{
    if i < s.len() {
        let t = s.take(i + 1);
        assert(forall|k: int| 0 <= k < t.len() ==> t[k] == s[k]);
        assert(t.drop_last() =~= s.take(i));
        lemma_digits_val_nonneg(t.drop_last());
        assert(digits_val(t) == digits_val(s.take(i)) * 10 + digit_val(s[i]));
        lemma_digits_val_prefix_le(s, i + 1);
    } else {
        assert(s.take(i) =~= s);
    }
}

/// Decide whether a captured numeric run is a valid literal, and compute the
/// decimal it denotes.
#[verifier::loop_isolation(false)]
pub fn parse_decimal(run: &str) -> (r: Option<Decimal>)
    ensures
        r == spec_parse_decimal(run@),
{
    let n = run.unicode_len();
    // Strip the grouping characters.
    let mut t: Vec<char> = Vec::new();
    let mut i: usize = 0;
    while i < n
        invariant
            i <= n,
            n == run@.len(),
            t@ == strip_grouping(run@.take(i as int)),
        decreases n - i,
    {
        let c = run.get_char(i);
        proof {
            assert(run@.take(i + 1).drop_last() =~= run@.take(i as int));
            assert(run@.take(i + 1).last() == run@[i as int]);
        }
        if c != ',' {
            t.push(c);
        }
        i += 1;
    }
    proof {
        assert(run@.take(n as int) =~= run@);
    }
    // Find the first dot, if any.
    let m = t.len();
    let mut d: usize = 0;
    proof {
        assert(t@.skip(0) =~= t@);
    }
    #[verifier::loop_isolation(true)]
    loop
        invariant
            d <= m,
            m == t@.len(),
            t@ == strip_grouping(run@),
            dot_index(t@) == d + dot_index(t@.skip(d as int)),
        ensures
            d <= m,
            d == dot_index(t@),
            d < m ==> t@[d as int] == '.',
        decreases m - d,
    {
        if d >= m {
            break;
        }
        if t[d] == '.' {
            proof {
                assert(t@.skip(d as int)[0] == t@[d as int]);
            }
            break;
        }
        proof {
            assert(t@.skip(d as int)[0] == t@[d as int]);
            assert(t@.skip(d as int).skip(1) =~= t@.skip(d + 1));
        }
        d += 1;
    }
    let ghost int_part = t@.take(d as int);
    let ghost frac_part = if d == m {
        Seq::<char>::empty()
    } else {
        t@.skip(d + 1)
    };
    let ghost digits = int_part + frac_part;
    proof {
        lemma_dot_index_le(t@);
        assert(int_part.len() == d);
    }
    if d == 0 {
        // No integer digits before the dot (or the run was all `,`).
        return None;
    }
    // Accumulate the mantissa over the integer digits, then the fraction
    // digits.
    let mut acc: u64 = 0;
    let mut k: usize = 0;
    while k < d
        invariant
            k <= d,
            d <= m,
            m == t@.len(),
            int_part == t@.take(d as int),
            digits == int_part + frac_part,
            all_digits(digits.take(k as int)),
            acc == digits_val(digits.take(k as int)),
        decreases d - k,
    {
        let c = t[k];
        let v = c as u32;
        if v < 48 || v > 57 {
            proof {
                assert(int_part[k as int] == t@[k as int]);
                assert(!is_digit_char(int_part[k as int]));
            }
            return None;
        }
        let dig = (v - 48) as u64;
        proof {
            assert(digits.take(k + 1).drop_last() =~= digits.take(k as int));
            assert(digits.take(k + 1).last() == int_part[k as int]);
            assert(int_part[k as int] == t@[k as int]);
        }
        match acc.checked_mul(10) {
            Some(a10) => {
                match a10.checked_add(dig) {
                    Some(a) => {
                        acc = a;
                    },
                    None => {
                        proof {
                            overflow_means_invalid(run@, k + 1);
                        }
                        return None;
                    },
                }
            },
            None => {
                proof {
                    lemma_digits_val_nonneg(digits.take(k as int));
                    overflow_means_invalid(run@, k + 1);
                }
                return None;
            },
        }
        k += 1;
    }
    let scale: usize = if d == m {
        0
    } else {
        m - d - 1
    };
    let mut k2: usize = 0;
    proof {
        assert(digits.take(d as int) =~= int_part);
    }
    while k2 < scale
        invariant
            k2 <= scale,
            d < m || k2 == 0,
            scale == if d == m { 0int } else { m - d - 1 },
            d <= m,
            m == t@.len(),
            int_part == t@.take(d as int),
            int_part.len() == d,
            frac_part == if d == m { Seq::<char>::empty() } else { t@.skip(d + 1) },
            digits == int_part + frac_part,
            all_digits(digits.take(d + k2)),
            acc == digits_val(digits.take(d + k2)),
        decreases scale - k2,
    {
        let c = t[d + 1 + k2];
        let v = c as u32;
        proof {
            assert(digits[d + k2] == frac_part[k2 as int]);
            assert(frac_part[k2 as int] == t@[d + 1 + k2]);
        }
        if v < 48 || v > 57 {
            proof {
                assert(!is_digit_char(frac_part[k2 as int]));
            }
            return None;
        }
        let dig = (v - 48) as u64;
        proof {
            assert(digits.take(d + k2 + 1).drop_last() =~= digits.take(d + k2));
            assert(digits.take(d + k2 + 1).last() == digits[d + k2]);
        }
        match acc.checked_mul(10) {
            Some(a10) => {
                match a10.checked_add(dig) {
                    Some(a) => {
                        acc = a;
                    },
                    None => {
                        proof {
                            overflow_means_invalid(run@, d + 1 + k2);
                        }
                        return None;
                    },
                }
            },
            None => {
                proof {
                    lemma_digits_val_nonneg(digits.take(d + k2));
                    overflow_means_invalid(run@, d + 1 + k2);
                }
                return None;
            },
        }
        k2 += 1;
    }
    proof {
        assert(digits.take(d + scale) =~= digits);
        assert forall|k: int| 0 <= k < int_part.len() implies is_digit_char(
            #[trigger] int_part[k],
        ) by {
            assert((int_part + frac_part)[k] == int_part[k]);
            assert(is_digit_char(digits[k]));
        }
        assert forall|k: int| 0 <= k < frac_part.len() implies is_digit_char(
            #[trigger] frac_part[k],
        ) by {
            assert((int_part + frac_part)[int_part.len() + k] == frac_part[k]);
            assert(is_digit_char(digits[int_part.len() + k]));
        }
        assert(frac_part.len() == scale);
        assert(digits_val(digits) == acc);
    }
    Some(Decimal { mantissa: acc, scale })
}

/// If the digits read so far already exceed the mantissa range, the whole
/// run is not a valid literal.
proof fn overflow_means_invalid(run: Seq<char>, p: int)
    requires
        ({
            let t = strip_grouping(run);
            let d = dot_index(t);
            let int_part = t.take(d);
            let frac_part = if d == t.len() {
                Seq::<char>::empty()
            } else {
                t.skip(d + 1)
            };
            let digits = int_part + frac_part;
            0 <= p <= digits.len() && all_digits(digits.take(p)) && digits_val(digits.take(p))
                > u64::MAX
        }),
    ensures
        spec_parse_decimal(run) is None,
{
    let t = strip_grouping(run);
    let d = dot_index(t);
    let int_part = t.take(d);
    let frac_part = if d == t.len() {
        Seq::<char>::empty()
    } else {
        t.skip(d + 1)
    };
    let digits = int_part + frac_part;
    lemma_dot_index_le(t);
    if all_digits(int_part) && all_digits(frac_part) {
        assert forall|k: int| 0 <= k < digits.len() implies is_digit_char(
            #[trigger] digits[k],
        ) by {
            if k < int_part.len() {
                assert((int_part + frac_part)[k] == int_part[k]);
            } else {
                assert((int_part + frac_part)[k] == frac_part[k - int_part.len()]);
            }
        }
        lemma_digits_val_prefix_le(digits, p);
        assert(digits_val(digits) > u64::MAX);
    }
}

} // verus!
