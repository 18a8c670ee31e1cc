use vstd::prelude::*;

use crate::ratelimit::common::RatelimitError;

verus! {

/// A decimal digit, `'0'` through `'9'`.
pub open spec fn is_digit_char(c: char) -> bool {
    48 <= c as int && c as int <= 57
}

/// The numeric value of a decimal digit.
pub open spec fn digit_val(c: char) -> int {
    c as int - 48
}

/// The number denoted by a string of decimal digits, most significant first.
pub open spec fn digits_val(s: Seq<char>) -> int
    decreases s.len(),
{
    if s.len() == 0 {
        0
    } else {
        digits_val(s.drop_last()) * 10 + digit_val(s.last())
    }
}

/// How many milliseconds one unit of the given suffix lasts: `ms`, `s`, `m`,
/// `h` or `d`.  0 marks a suffix that is no unit at all.
pub open spec fn unit_factor(u: Seq<char>) -> int {
    if u.len() == 1 && u[0] == 's' {
        1000
    } else if u.len() == 1 && u[0] == 'm' {
        60000
    } else if u.len() == 1 && u[0] == 'h' {
        3600000
    } else if u.len() == 1 && u[0] == 'd' {
        86400000
    } else if u.len() == 2 && u[0] == 'm' && u[1] == 's' {
        1
    } else {
        0
    }
}

/// The text splits at `k` into a non-empty run of digits and a unit suffix.
pub open spec fn is_duration_shape(s: Seq<char>, k: int) -> bool {
    &&& 1 <= k <= s.len()
    &&& forall|i: int| 0 <= i < k ==> is_digit_char(s[i])
    &&& unit_factor(s.subrange(k, s.len() as int)) > 0
}

/// The index at which a well-shaped duration string splits into digits and
/// unit.  Meaningful only when some split exists; it is then unique, since no
/// unit suffix begins with a digit.
pub open spec fn duration_split(s: Seq<char>) -> int {
    choose|k: int| is_duration_shape(s, k)
}

/// The number of milliseconds a duration string denotes.
pub open spec fn duration_ms_val(s: Seq<char>) -> int {
    let k = duration_split(s);
    digits_val(s.subrange(0, k)) * unit_factor(s.subrange(k, s.len() as int))
}

/// A duration string the parser accepts: digits, then a unit, denoting a
/// count of milliseconds that fits the result type.
pub open spec fn is_valid_duration(s: Seq<char>) -> bool {
    &&& exists|k: int| is_duration_shape(s, k)
    &&& duration_ms_val(s) <= u128::MAX
}

/// No unit suffix begins with a digit, so the split point is unique.
proof fn lemma_split_unique(s: Seq<char>, k1: int, k2: int)
    requires
        is_duration_shape(s, k1),
        is_duration_shape(s, k2),
    ensures
        k1 == k2,
{
    if k1 < k2 {
        assert(is_digit_char(s[k1]));
        assert(unit_factor(s.subrange(k1, s.len() as int)) > 0);
        assert(s.subrange(k1, s.len() as int)[0] == s[k1]);
        assert(false);
    }
    if k2 < k1 {
        assert(is_digit_char(s[k2]));
        assert(s.subrange(k2, s.len() as int)[0] == s[k2]);
        assert(false);
    }
}

/// A run of digits denotes a non-negative number.
proof fn lemma_digits_val_nonneg(s: Seq<char>)
    requires
        forall|i: int| 0 <= i < s.len() ==> is_digit_char(s[i]),
    ensures
        digits_val(s) >= 0,
    decreases s.len(),
{
    if s.len() > 0 {
        lemma_digits_val_nonneg(s.drop_last());
    }
}

/// Converts a human window string such as `"30s"`, `"5m"`, `"2h"`, `"1d"` or
/// `"2000000ms"` into milliseconds.  Rejects, as a configuration error,
/// any text that is not exactly a decimal number followed by one unit, and
/// any count of milliseconds too large for the result type.
pub fn into_milliseconds(duration: &str) -> (r: Result<u128, RatelimitError>)
    ensures
        match r {
            Ok(v) => is_valid_duration(duration@) && v == duration_ms_val(duration@),
            Err(e) => e == RatelimitError::Configuration && !is_valid_duration(duration@),
        },
{
    let n: usize = duration.unicode_len();
    let mut i: usize = 0;
    let mut acc: u128 = 0;
    let mut overflowed: bool = false;
    loop
        invariant
            0 <= i <= n,
            n == duration@.len(),
            forall|p: int| 0 <= p < i ==> is_digit_char(duration@[p]),
            !overflowed ==> acc == digits_val(duration@.subrange(0, i as int)),
            overflowed ==> digits_val(duration@.subrange(0, i as int)) > u128::MAX,
        ensures
            0 <= i <= n,
            i == n || !is_digit_char(duration@[i as int]),
            forall|p: int| 0 <= p < i ==> is_digit_char(duration@[p]),
            !overflowed ==> acc == digits_val(duration@.subrange(0, i as int)),
            overflowed ==> digits_val(duration@.subrange(0, i as int)) > u128::MAX,
        decreases n - i,
    {
        if i >= n {
            break ;
        }
        let c: char = duration.get_char(i);
        if !(c as u32 >= 48 && c as u32 <= 57) {
            break ;
        }
        let d: u32 = c as u32 - 48;
        proof {
            assert(duration@.subrange(0, i + 1 as int).drop_last() =~= duration@.subrange(
                0,
                i as int,
            ));
            assert(duration@.subrange(0, i + 1 as int).last() == duration@[i as int]);
        }
        if !overflowed {
            let step: Option<u128> = acc.checked_mul(10);
            match step {
                Some(m) => {
                    let sum: Option<u128> = m.checked_add(d as u128);
                    match sum {
                        Some(v) => {
                            acc = v;
                        },
                        None => {
                            overflowed = true;
                        },
                    }
                },
                None => {
                    proof {
                        lemma_digits_val_nonneg(duration@.subrange(0, i as int));
                        assert(acc * 10 + digit_val(duration@[i as int]) > u128::MAX) by (nonlinear_arith)
                            requires
                                acc * 10 > u128::MAX,
                                digit_val(duration@[i as int]) >= 0,
                        ;
                    }
                    overflowed = true;
                },
            }
        }
        i = i + 1;
    }
    let k: usize = i;
    let ghost s = duration@;
    if k == 0 {
        proof {
            if exists|k2: int| is_duration_shape(s, k2) {
                let k2 = choose|k2: int| is_duration_shape(s, k2);
                assert(is_digit_char(s[0]));
                assert(s.subrange(0 as int, s.len() as int)[0] == s[0]);
            }
        }
        return Err(RatelimitError::Configuration);
    }
    let rem: usize = n - k;
    let factor: u128 = if rem == 1 {
        let c: char = duration.get_char(k);
        if c == 's' {
            1000
        } else if c == 'm' {
            60000
        } else if c == 'h' {
            3600000
        } else if c == 'd' {
            86400000
        } else {
            0
        }
    } else if rem == 2 {
        let c0: char = duration.get_char(k);
        let c1: char = duration.get_char(k + 1);
        if c0 == 'm' && c1 == 's' {
            1
        } else {
            0
        }
    } else {
        0
    };
    proof {
        assert(s.subrange(k as int, s.len() as int).len() == n - k);
        if rem >= 1 {
            assert(s.subrange(k as int, s.len() as int)[0] == s[k as int]);
        }
        if rem >= 2 {
            assert(s.subrange(k as int, s.len() as int)[1] == s[k as int + 1]);
        }
    }
    if factor == 0 {
        proof {
            if exists|k2: int| is_duration_shape(s, k2) {
                let k2 = choose|k2: int| is_duration_shape(s, k2);
                if k2 < k {
                    assert(is_digit_char(s[k2]));
                    assert(s.subrange(k2, s.len() as int)[0] == s[k2]);
                } else if k2 > k {
                    assert(k < n);
                    assert(is_digit_char(s[k as int]));
                } else {
                    assert(unit_factor(s.subrange(k as int, s.len() as int)) == 0);
                }
            }
        }
        return Err(RatelimitError::Configuration);
    }
    proof {
        assert(is_duration_shape(s, k as int));
        lemma_split_unique(s, duration_split(s), k as int);
        assert(unit_factor(s.subrange(k as int, s.len() as int)) == factor as int);
        lemma_digits_val_nonneg(s.subrange(0, k as int));
    }
    if overflowed {
        proof {
            assert(digits_val(s.subrange(0, k as int)) * factor as int > u128::MAX)
                by (nonlinear_arith)
                requires
                    digits_val(s.subrange(0, k as int)) > u128::MAX,
                    factor as int >= 1,
            ;
        }
        return Err(RatelimitError::Configuration);
    }
    let total: Option<u128> = acc.checked_mul(factor);
    match total {
        Some(v) => Ok(v),
        None => Err(RatelimitError::Configuration),
    }
}

} // verus!
