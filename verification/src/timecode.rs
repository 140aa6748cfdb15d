//! Parsing `HH:MM:SS.fraction` timestamps into microseconds.
//!
//! A timestamp has exactly three colon-separated fields. The hour and
//! minute fields are unbounded digit strings; the seconds field is a digit
//! string with an optional fractional part, of which the first six digits
//! count (a fraction finer than a microsecond is truncated). Whitespace
//! around a field is ignored. Values that do not fit in a `u64` of
//! microseconds are rejected.

use crate::scan::{
    all_digits, digit_run, digit_run_len, digits_value, find_from, is_digit, lemma_digit_run,
    lemma_digit_run_determined, lemma_digits_value_bound, lemma_digits_value_non_negative,
    lemma_find_from, lemma_pow10_small, char_at, find_str, parse_digit_range, pow10, trim_range,
    trimmed,
};
use vstd::prelude::*;

verus! {

/// Value of the hour or minute field: its trimmed text must be all digits
/// and fit in a `u64`.
pub open spec fn field_value(f: Seq<char>) -> Option<int> {
    let t = trimmed(f);
    if all_digits(t) && digits_value(t) <= u64::MAX {
        Some(digits_value(t))
    } else {
        None
    }
}

/// Microseconds contributed by the fractional digits: the first six digits,
/// scaled up when fewer are given.
pub open spec fn frac_micros(fd: Seq<char>) -> int {
    if fd.len() >= 6 {
        digits_value(fd.subrange(0, 6))
    } else {
        digits_value(fd) * pow10(6 - fd.len())
    }
}

/// Microseconds of the seconds field `SS` or `SS.fraction`.
pub open spec fn seconds_micros(f: Seq<char>) -> Option<int> {
    let t = trimmed(f);
    let a = digit_run_len(t, 0);
    if a == 0 {
        None
    } else if a == t.len() {
        Some(digits_value(t) * 1000000)
    } else if t[a] == '.' && (forall|k: int| a < k < t.len() ==> is_digit(t[k])) {
        Some(
            digits_value(t.subrange(0, a)) * 1000000 + frac_micros(
                t.subrange(a + 1, t.len() as int),
            ),
        )
    } else {
        None
    }
}

/// Microseconds denoted by a full `HH:MM:SS.fraction` timestamp, or `None`
/// when the text does not fit the grammar or exceeds a `u64`.
pub open spec fn parse_time_us(s: Seq<char>) -> Option<u64> {
    match find_from(s, ":"@, 0) {
        None => None,
        Some(i1) => match find_from(s, ":"@, i1 + 1) {
            None => None,
            Some(i2) => if find_from(s, ":"@, i2 + 1) is Some {
                None
            } else {
                match (
                    field_value(s.subrange(0, i1)),
                    field_value(s.subrange(i1 + 1, i2)),
                    seconds_micros(s.subrange(i2 + 1, s.len() as int)),
                ) {
                    (Some(h), Some(m), Some(sus)) => {
                        let total = h * 3600000000 + m * 60000000 + sus;
                        if total <= u64::MAX {
                            Some(total as u64)
                        } else {
                            None
                        }
                    },
                    _ => None,
                }
            },
        },
    }
}

/// Parses an hour or minute field, or any other trimmed unsigned decimal.
pub fn parse_field(s: &str, start: usize, end: usize) -> (r: Option<u64>)
    requires
        start <= end <= s@.len(),
    ensures
        match r {
            Some(v) => field_value(s@.subrange(start as int, end as int)) == Some(v as int),
            None => field_value(s@.subrange(start as int, end as int)) is None,
        },
{
    let ghost f = s@.subrange(start as int, end as int);
    let (lo, hi) = trim_range(s, start, end);
    let ghost t = trimmed(f);
    if lo == hi {
        return None;
    }
    let run = digit_run(s, lo);
    if run < hi - lo {
        proof {
            lemma_digit_run(s@, lo as int);
            assert(t[lo + run - lo] == s@[lo + run]);
            assert(!all_digits(t));
        }
        return None;
    }
    proof {
        lemma_digit_run(s@, lo as int);
        assert(forall|k: int| 0 <= k < t.len() ==> t[k] == s@[lo + k]);
        assert(all_digits(t));
    }
    parse_digit_range(s, lo, hi)
}

/// Ten to a small power.
pub fn pow10_u64(k: u64) -> (r: u64)
    requires
        k <= 6,
    ensures
        r == pow10(k as int),
        r <= 1000000,
{
    proof {
        lemma_pow10_small();
    }
    match k {
        0 => 1,
        1 => 10,
        2 => 100,
        3 => 1000,
        4 => 10000,
        5 => 100000,
        _ => 1000000,
    }
}

/// Parses the seconds field into microseconds. `None` covers both a text
/// outside the grammar and a value beyond `u64::MAX`.
fn parse_seconds(s: &str, start: usize, end: usize) -> (r: Option<u64>)
    requires
        start <= end <= s@.len(),
    ensures
        match r {
            Some(v) => seconds_micros(s@.subrange(start as int, end as int)) == Some(v as int),
            None => match seconds_micros(s@.subrange(start as int, end as int)) {
                Some(x) => x > u64::MAX,
                None => true,
            },
        },
{
    let ghost f = s@.subrange(start as int, end as int);
    let (lo, hi) = trim_range(s, start, end);
    let ghost t = trimmed(f);
    let run = digit_run(s, lo);
    let a: usize = if run > hi - lo {
        hi - lo
    } else {
        run
    };
    proof {
        lemma_digit_run(s@, lo as int);
        assert(forall|k: int| 0 <= k < t.len() ==> t[k] == s@[lo + k]);
        lemma_digit_run_determined(t, 0, a as int);
    }
    if a == 0 {
        return None;
    }
    if a == hi - lo {
        // A plain `SS` with no fractional part.
        let ip = match parse_digit_range(s, lo, hi) {
            Some(v) => v,
            None => {
                proof {
                    lemma_digits_value_non_negative(t);
                }
                return None;
            },
        };
        match ip.checked_mul(1000000) {
            Some(v) => Some(v),
            None => None,
        }
    } else {
        if char_at(s, lo + a) != '.' {
            return None;
        }
        let frac_start = lo + a + 1;
        let frun = digit_run(s, frac_start);
        if frun < hi - frac_start {
            proof {
                lemma_digit_run(s@, frac_start as int);
                assert(t[frac_start + frun - lo] == s@[frac_start + frun]);
            }
            return None;
        }
        proof {
            lemma_digit_run(s@, frac_start as int);
            assert(forall|k: int| a < k < t.len() ==> is_digit(t[k]));
            assert(t.subrange(0, a as int) =~= s@.subrange(lo as int, lo + a));
            assert(t.subrange(a + 1, t.len() as int) =~= s@.subrange(frac_start as int, hi as int));
        }
        let ghost fd = t.subrange(a + 1, t.len() as int);
        let ip = match parse_digit_range(s, lo, lo + a) {
            Some(v) => v,
            None => {
                proof {
                    frac_micros_non_negative(fd);
                }
                return None;
            },
        };
        let fr: u64 = if hi - frac_start >= 6 {
            proof {
                assert(fd.subrange(0, 6) =~= s@.subrange(frac_start as int, frac_start + 6));
            }
            match parse_digit_range(s, frac_start, frac_start + 6) {
                Some(v) => v,
                None => {
                    proof {
                        lemma_digits_value_bound(s@.subrange(frac_start as int, frac_start + 6));
                        lemma_pow10_small();
                    }
                    // Six digits always fit; unreachable, but stated totally.
                    0
                },
            }
        } else {
            let digits = match parse_digit_range(s, frac_start, hi) {
                Some(v) => v,
                None => {
                    proof {
                        lemma_digits_value_bound(s@.subrange(frac_start as int, hi as int));
                        lemma_pow10_small();
                    }
                    0
                },
            };
            let fd_len = hi - frac_start;
            proof {
                lemma_digits_value_bound(s@.subrange(frac_start as int, hi as int));
                lemma_pow10_small();
                pow10_mul_bound(fd_len as int);
                crate::scan::lemma_pow10_positive(6 - fd_len);
                vstd::arithmetic::mul::lemma_mul_strict_inequality(
                    digits_value(fd) as int,
                    pow10(fd_len as int),
                    pow10(6 - fd_len),
                );
            }
            digits * pow10_u64(6 - fd_len as u64)
        };
        proof {
            frac_micros_bound(fd);
        }
        match ip.checked_mul(1000000) {
            Some(x) => match x.checked_add(fr) {
                Some(v) => Some(v),
                None => None,
            },
            None => {
                proof {
                    frac_micros_non_negative(fd);
                }
                None
            },
        }
    }
}

/// The fractional contribution is non-negative.
proof fn frac_micros_non_negative(fd: Seq<char>)
    requires
        forall|k: int| 0 <= k < fd.len() ==> is_digit(fd[k]),
    ensures
        frac_micros(fd) >= 0,
{
    if fd.len() >= 6 {
        lemma_digits_value_bound(fd.subrange(0, 6));
    } else {
        lemma_digits_value_bound(fd);
        crate::scan::lemma_pow10_positive(6 - fd.len());
    }
}

/// The fractional contribution stays below one second.
proof fn frac_micros_bound(fd: Seq<char>)
    requires
        forall|k: int| 0 <= k < fd.len() ==> is_digit(fd[k]),
    ensures
        0 <= frac_micros(fd) < 1000000,
{
    lemma_pow10_small();
    if fd.len() >= 6 {
        lemma_digits_value_bound(fd.subrange(0, 6));
    } else {
        lemma_digits_value_bound(fd);
        pow10_mul_bound(fd.len() as int);
        crate::scan::lemma_pow10_positive(6 - fd.len());
        vstd::arithmetic::mul::lemma_mul_strict_inequality(
            digits_value(fd),
            pow10(fd.len() as int),
            pow10(6 - fd.len()),
        );
    }
}

/// For fewer than six digits, value * scale < 1000000.
proof fn pow10_mul_bound(n: int)
    requires
        0 <= n < 6,
    ensures
        pow10(n) * pow10(6 - n) == 1000000,
    decreases n,
{
    if n == 0 {
        lemma_pow10_small();
    } else {
        pow10_mul_bound(n - 1);
        assert(pow10(n) == 10 * pow10(n - 1));
        vstd::arithmetic::mul::lemma_mul_is_associative(10, pow10(n - 1), pow10(6 - n));
        assert(pow10(n - 1) * pow10(7 - n) == 1000000);
        assert(pow10(7 - n) == 10 * pow10(6 - n));
        vstd::arithmetic::mul::lemma_mul_is_associative(pow10(n - 1), 10, pow10(6 - n));
        vstd::arithmetic::mul::lemma_mul_is_commutative(pow10(n - 1), 10);
    }
}

/// Parses a `HH:MM:SS.fraction` timestamp into microseconds.
pub fn parse_time_to_us(value: &str) -> (r: Option<u64>)
    ensures
        r == parse_time_us(value@),
{
    proof {
        reveal_strlit(":");
    }
    let len = value.unicode_len();
    let i1 = match find_str(value, ":", 0) {
        Some(i) => i,
        None => {
            return None;
        },
    };
    proof {
        lemma_find_from(value@, ":"@, 0);
    }
    let i2 = match find_str(value, ":", i1 + 1) {
        Some(i) => i,
        None => {
            return None;
        },
    };
    proof {
        lemma_find_from(value@, ":"@, i1 + 1);
    }
    if find_str(value, ":", i2 + 1).is_some() {
        return None;
    }
    let h = match parse_field(value, 0, i1) {
        Some(v) => v,
        None => {
            return None;
        },
    };
    let m = match parse_field(value, i1 + 1, i2) {
        Some(v) => v,
        None => {
            return None;
        },
    };
    let sus = match parse_seconds(value, i2 + 1, len) {
        Some(v) => v,
        None => {
            proof {
                seconds_micros_some_bound(value@, i1 as int, i2 as int, h as int, m as int);
            }
            return None;
        },
    };
    let hx = match h.checked_mul(3600000000) {
        Some(x) => x,
        None => {
            proof {
                seconds_field_non_negative(value@, i2 as int, sus as int);
            }
            return None;
        },
    };
    let mx = match m.checked_mul(60000000) {
        Some(x) => x,
        None => {
            proof {
                seconds_field_non_negative(value@, i2 as int, sus as int);
            }
            return None;
        },
    };
    let hm = match hx.checked_add(mx) {
        Some(x) => x,
        None => {
            proof {
                seconds_field_non_negative(value@, i2 as int, sus as int);
            }
            return None;
        },
    };
    match hm.checked_add(sus) {
        Some(total) => Some(total),
        None => None,
    }
}

/// A seconds value beyond the bound forces the whole timestamp over it,
/// since the hour and minute contributions are non-negative.
proof fn seconds_micros_some_bound(s: Seq<char>, i1: int, i2: int, h: int, m: int)
    requires
        h >= 0,
        m >= 0,
    ensures
        match seconds_micros(s.subrange(i2 + 1, s.len() as int)) {
            Some(x) => x > u64::MAX ==> h * 3600000000 + m * 60000000 + x > u64::MAX,
            None => true,
        },
{
    vstd::arithmetic::mul::lemma_mul_nonnegative(h, 3600000000);
    vstd::arithmetic::mul::lemma_mul_nonnegative(m, 60000000);
}

/// A parsed seconds field is non-negative.
proof fn seconds_field_non_negative(s: Seq<char>, i2: int, sus: int)
    requires
        seconds_micros(s.subrange(i2 + 1, s.len() as int)) == Some(sus),
    ensures
        sus >= 0,
{
    let f = s.subrange(i2 + 1, s.len() as int);
    let t = trimmed(f);
    let a = digit_run_len(t, 0);
    lemma_digit_run(t, 0);
    if a == t.len() {
        lemma_digits_value_non_negative(t);
    } else {
        lemma_digits_value_non_negative(t.subrange(0, a));
        frac_micros_non_negative(t.subrange(a + 1, t.len() as int));
    }
}

} // verus!
