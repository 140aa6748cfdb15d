//! Character-level scanning primitives: substring search, digit runs,
//! digit-string values and whitespace trimming. The diagnostic and progress
//! grammars are defined on top of these.

use vstd::prelude::*;

verus! {

/// `c` is an ASCII decimal digit.
pub open spec fn is_digit(c: char) -> bool {
    48 <= c as u32 <= 57
}

/// Numeric value of a digit character.
pub open spec fn digit_value(c: char) -> int {
    c as u32 - 48
}

/// `c` is ASCII whitespace.
pub open spec fn is_space(c: char) -> bool {
    c == ' ' || c == '\t' || c == '\r' || c == '\n'
}

/// `pat` occurs in `s` starting at position `i`.
pub open spec fn match_at(s: Seq<char>, pat: Seq<char>, i: int) -> bool {
    0 <= i && i + pat.len() <= s.len() && s.subrange(i, i + pat.len()) == pat
}

/// Position of the first occurrence of `pat` in `s` at or after `from`.
pub open spec fn find_from(s: Seq<char>, pat: Seq<char>, from: int) -> Option<int>
    decreases s.len() - from + 1,
{
    if from < 0 || from + pat.len() > s.len() {
        None
    } else if match_at(s, pat, from) {
        Some(from)
    } else {
        find_from(s, pat, from + 1)
    }
}

/// Length of the maximal run of digits in `s` starting at `i`.
pub open spec fn digit_run_len(s: Seq<char>, i: int) -> int
    decreases s.len() - i,
{
    if i < 0 || i >= s.len() || !is_digit(s[i]) {
        0
    } else {
        1 + digit_run_len(s, i + 1)
    }
}

/// Value of a string of decimal digits, most significant first.
pub open spec fn digits_value(s: Seq<char>) -> int
    decreases s.len(),
{
    if s.len() == 0 {
        0
    } else {
        digits_value(s.drop_last()) * 10 + digit_value(s.last())
    }
}

/// Ten to the `k`-th power (one for non-positive `k`).
pub open spec fn pow10(k: int) -> int
    decreases k,
{
    if k <= 0 {
        1
    } else {
        10 * pow10(k - 1)
    }
}

/// The concrete values of the small powers of ten.
pub proof fn lemma_pow10_small()
    ensures
        pow10(0) == 1,
        pow10(1) == 10,
        pow10(2) == 100,
        pow10(3) == 1000,
        pow10(4) == 10000,
        pow10(5) == 100000,
        pow10(6) == 1000000,
{
    reveal_with_fuel(pow10, 8);
}

/// Powers of ten grow with the exponent.
pub proof fn lemma_pow10_increases(a: int, b: int)
    requires
        a <= b,
    ensures
        pow10(a) <= pow10(b),
    decreases b - a,
{
    if a < b {
        lemma_pow10_increases(a, b - 1);
        lemma_pow10_positive(b - 1);
    }
}

/// Powers of ten are positive.
pub proof fn lemma_pow10_positive(k: int)
    ensures
        pow10(k) >= 1,
    decreases k,
{
    if k > 0 {
        lemma_pow10_positive(k - 1);
    }
}

/// Powers of ten multiply by adding exponents.
pub proof fn lemma_pow10_adds(a: int, b: int)
    requires
        a >= 0,
        b >= 0,
    ensures
        pow10(a) * pow10(b) == pow10(a + b),
    decreases a,
{
    if a == 0 {
    } else {
        lemma_pow10_adds(a - 1, b);
        assert(pow10(a) == 10 * pow10(a - 1));
        assert(pow10(a + b) == 10 * pow10(a - 1 + b));
        vstd::arithmetic::mul::lemma_mul_is_associative(10, pow10(a - 1), pow10(b));
    }
}

/// `t` is non-empty and consists of decimal digits only.
pub open spec fn all_digits(t: Seq<char>) -> bool {
    t.len() > 0 && forall|k: int| 0 <= k < t.len() ==> is_digit(t[k])
}

/// `s` without leading whitespace.
pub open spec fn trim_front(s: Seq<char>) -> Seq<char>
    decreases s.len(),
{
    if s.len() > 0 && is_space(s[0]) {
        trim_front(s.drop_first())
    } else {
        s
    }
}

/// `s` without trailing whitespace.
pub open spec fn trim_back(s: Seq<char>) -> Seq<char>
    decreases s.len(),
{
    if s.len() > 0 && is_space(s.last()) {
        trim_back(s.drop_last())
    } else {
        s
    }
}

/// `s` without leading and trailing whitespace.
pub open spec fn trimmed(s: Seq<char>) -> Seq<char> {
    trim_back(trim_front(s))
}

/// The maximal digit run lies within `s`, consists of digits, and ends at
/// the end of `s` or right before a non-digit.
pub proof fn lemma_digit_run(s: Seq<char>, i: int)
    requires
        0 <= i <= s.len(),
    ensures
        0 <= digit_run_len(s, i),
        i + digit_run_len(s, i) <= s.len(),
        forall|k: int| i <= k < i + digit_run_len(s, i) ==> is_digit(s[k]),
        i + digit_run_len(s, i) < s.len() ==> !is_digit(s[i + digit_run_len(s, i)]),
    decreases s.len() - i,
{
    if i < s.len() && is_digit(s[i]) {
        lemma_digit_run(s, i + 1);
    }
}

/// A digit string's value is non-negative.
pub proof fn lemma_digits_value_non_negative(s: Seq<char>)
    requires
        forall|k: int| 0 <= k < s.len() ==> is_digit(s[k]),
    ensures
        digits_value(s) >= 0,
    decreases s.len(),
{
    if s.len() > 0 {
        lemma_digits_value_non_negative(s.drop_last());
    }
}

/// A string of `n` digits has a value below ten to the `n`-th power.
pub proof fn lemma_digits_value_bound(s: Seq<char>)
    requires
        forall|k: int| 0 <= k < s.len() ==> is_digit(s[k]),
    ensures
        0 <= digits_value(s) < pow10(s.len() as int),
    decreases s.len(),
{
    if s.len() > 0 {
        lemma_digits_value_bound(s.drop_last());
    }
}

/// A digit run is determined by its contents: if everything from `i` up to
/// `a` is a digit and `a` sits at the end or right before a non-digit, the
/// maximal run from `i` ends at `a`.
pub proof fn lemma_digit_run_determined(t: Seq<char>, i: int, a: int)
    requires
        0 <= i <= a <= t.len(),
        forall|k: int| i <= k < a ==> is_digit(t[k]),
        a < t.len() ==> !is_digit(t[a]),
    ensures
        digit_run_len(t, i) == a - i,
    decreases a - i,
{
    if i < a {
        lemma_digit_run_determined(t, i + 1, a);
    }
}

/// Wherever `find_from` reports a match, the pattern is there, and nowhere
/// earlier.
pub proof fn lemma_find_from(s: Seq<char>, pat: Seq<char>, from: int)
    requires
        0 <= from,
    ensures
        find_from(s, pat, from) matches Some(i) ==> from <= i && match_at(s, pat, i)
            && (forall|k: int| from <= k < i ==> !match_at(s, pat, k)),
        find_from(s, pat, from) is None ==> forall|k: int| from <= k ==> !match_at(s, pat, k),
    decreases s.len() - from + 1,
{
    if from + pat.len() > s.len() {
        assert forall|k: int| from <= k implies !match_at(s, pat, k) by {}
    } else if match_at(s, pat, from) {
    } else {
        lemma_find_from(s, pat, from + 1);
    }
}

/// Reads the character at a position.
pub fn char_at(s: &str, i: usize) -> (c: char)
    requires
        i < s@.len(),
    ensures
        c == s@[i as int],
{
    s.get_char(i)
}

/// Whether the character at a position is a decimal digit.
pub fn digit_at(s: &str, i: usize) -> (r: bool)
    requires
        i < s@.len(),
    ensures
        r == is_digit(s@[i as int]),
{
    let c = s.get_char(i);
    let v = c as u32;
    48 <= v && v <= 57
}

/// Finds the first occurrence of `pat` in `s` at or after `from`.
pub fn find_str(s: &str, pat: &str, from: usize) -> (r: Option<usize>)
    ensures
        match r {
            Some(i) => find_from(s@, pat@, from as int) == Some(i as int),
            None => find_from(s@, pat@, from as int) is None,
        },
{
    let s_len = s.unicode_len();
    let pat_len = pat.unicode_len();
    if from > s_len || pat_len > s_len || pat_len > s_len - from {
        return None;
    }
    if pat_len == 0 {
        proof {
            assert(s@.subrange(from as int, from as int) =~= pat@);
        }
        return Some(from);
    }
    let limit = s_len - pat_len;
    let mut i: usize = from;
    while i <= limit
        invariant
            from <= i,
            i <= limit + 1,
            limit == s_len - pat_len,
            1 <= pat_len,
            s_len == s@.len(),
            pat_len == pat@.len(),
            find_from(s@, pat@, from as int) == find_from(s@, pat@, i as int),
        decreases limit + 1 - i,
    {
        let mut j: usize = 0;
        let mut matches = true;
        while j < pat_len && matches
            invariant
                0 <= j <= pat_len,
                i + pat_len <= s_len,
                s_len == s@.len(),
                pat_len == pat@.len(),
                matches ==> s@.subrange(i as int, i + j) =~= pat@.subrange(0, j as int),
                !matches ==> !match_at(s@, pat@, i as int),
            decreases pat_len - j + (if matches {
                1int
            } else {
                0int
            }),
        {
            if s.get_char(i + j) != pat.get_char(j) {
                proof {
                    if match_at(s@, pat@, i as int) {
                        assert(s@.subrange(i as int, i + pat@.len())[j as int] == pat@[j as int]);
                        assert(false);
                    }
                }
                matches = false;
            } else {
                proof {
                    let ghost jj = j as int;
                    assert(s@.subrange(i as int, i + j + 1) =~= s@.subrange(i as int, i + j)
                        .push(s@[i + j]));
                    assert(pat@.subrange(0, jj + 1) =~= pat@.subrange(0, jj).push(pat@[jj]));
                }
                j = j + 1;
            }
        }
        if matches {
            proof {
                assert(s@.subrange(i as int, i + pat@.len()) =~= pat@.subrange(
                    0,
                    pat@.len() as int,
                ));
                assert(pat@.subrange(0, pat@.len() as int) =~= pat@);
            }
            return Some(i);
        }
        i = i + 1;
    }
    None
}

/// Length of the maximal digit run starting at `i`.
pub fn digit_run(s: &str, i: usize) -> (r: usize)
    requires
        i <= s@.len(),
    ensures
        r == digit_run_len(s@, i as int),
        i + r <= s@.len(),
{
    let s_len = s.unicode_len();
    let mut j: usize = i;
    while j < s_len && digit_at(s, j)
        invariant
            i <= j <= s_len,
            s_len == s@.len(),
            digit_run_len(s@, i as int) == j - i + digit_run_len(s@, j as int),
        decreases s_len - j,
    {
        j = j + 1;
    }
    proof {
        lemma_digit_run(s@, i as int);
    }
    j - i
}

/// Value of the digit range `[start, end)` of `s`, or `None` when it does
/// not fit in a `u64`.
pub fn parse_digit_range(s: &str, start: usize, end: usize) -> (r: Option<u64>)
    requires
        start <= end <= s@.len(),
        forall|k: int| start <= k < end ==> is_digit(s@[k]),
    ensures
        match r {
            Some(v) => v == digits_value(s@.subrange(start as int, end as int)),
            None => digits_value(s@.subrange(start as int, end as int)) > u64::MAX,
        },
{
    let mut acc: u64 = 0;
    let mut i: usize = start;
    proof {
        assert(s@.subrange(start as int, start as int) =~= Seq::<char>::empty());
    }
    while i < end
        invariant
            start <= i <= end <= s@.len(),
            forall|k: int| start <= k < end ==> is_digit(s@[k]),
            acc == digits_value(s@.subrange(start as int, i as int)),
        decreases end - i,
    {
        let c = s.get_char(i);
        let d: u64 = (c as u32 - 48) as u64;
        proof {
            assert(is_digit(s@[i as int]));
            assert(s@.subrange(start as int, i + 1).drop_last() =~= s@.subrange(
                start as int,
                i as int,
            ));
            assert(s@.subrange(start as int, i + 1).last() == s@[i as int]);
        }
        let grown = match acc.checked_mul(10) {
            Some(g) => g,
            None => {
                proof {
                    grow_overflow(s@, start as int, i as int, end as int, u64::MAX as int);
                }
                return None;
            },
        };
        let next = match grown.checked_add(d) {
            Some(n) => n,
            None => {
                proof {
                    grow_overflow(s@, start as int, i as int, end as int, u64::MAX as int);
                }
                return None;
            },
        };
        acc = next;
        i = i + 1;
    }
    Some(acc)
}

/// Once a digit prefix exceeds the bound, every extension of it does too.
proof fn grow_overflow(s: Seq<char>, start: int, i: int, end: int, bound: int)
    requires
        0 <= start <= i < end <= s.len(),
        forall|k: int| start <= k < end ==> is_digit(s[k]),
        digits_value(s.subrange(start, i)) * 10 + digit_value(s[i]) > bound,
        bound >= 0,
    ensures
        digits_value(s.subrange(start, end)) > bound,
    decreases end - i,
{
    assert(s.subrange(start, i + 1).drop_last() =~= s.subrange(start, i));
    assert(s.subrange(start, i + 1).last() == s[i]);
    if i + 1 == end {
    } else {
        lemma_digits_value_non_negative(s.subrange(start, i + 1));
        assert(digits_value(s.subrange(start, i + 1)) * 10 + digit_value(s[i + 1]) > bound);
        grow_overflow(s, start, i + 1, end, bound);
    }
}

/// Bounds of the range `[start, end)` of `s` with surrounding whitespace
/// removed: the trimmed text is `s@.subrange(lo, hi)`.
pub fn trim_range(s: &str, start: usize, end: usize) -> (r: (usize, usize))
    requires
        start <= end <= s@.len(),
    ensures
        start <= r.0 <= r.1 <= end,
        s@.subrange(r.0 as int, r.1 as int) == trimmed(s@.subrange(start as int, end as int)),
{
    let ghost whole = s@.subrange(start as int, end as int);
    let mut lo: usize = start;
    while lo < end && is_space_at(s, lo)
        invariant
            start <= lo <= end <= s@.len(),
            trim_front(whole) == trim_front(s@.subrange(lo as int, end as int)),
            whole == s@.subrange(start as int, end as int),
        decreases end - lo,
    {
        proof {
            assert(s@.subrange(lo as int, end as int)[0] == s@[lo as int]);
            assert(s@.subrange(lo as int, end as int).drop_first() =~= s@.subrange(
                lo + 1,
                end as int,
            ));
        }
        lo = lo + 1;
    }
    proof {
        assert(lo < end ==> s@.subrange(lo as int, end as int)[0] == s@[lo as int]);
        assert(trim_front(whole) == s@.subrange(lo as int, end as int));
    }
    let mut hi: usize = end;
    while hi > lo && is_space_at(s, hi - 1)
        invariant
            lo <= hi <= end,
            end <= s@.len(),
            trim_front(whole) == s@.subrange(lo as int, end as int),
            trim_back(s@.subrange(lo as int, end as int)) == trim_back(
                s@.subrange(lo as int, hi as int),
            ),
        decreases hi,
    {
        proof {
            assert(s@.subrange(lo as int, hi as int).last() == s@[hi - 1]);
            assert(s@.subrange(lo as int, hi as int).drop_last() =~= s@.subrange(
                lo as int,
                hi - 1,
            ));
        }
        hi = hi - 1;
    }
    proof {
        assert(hi > lo ==> s@.subrange(lo as int, hi as int).last() == s@[hi - 1]);
        assert(trimmed(whole) == s@.subrange(lo as int, hi as int));
    }
    (lo, hi)
}

/// Whether `pat` occurs in `s` at position `at`.
pub fn starts_with_at(s: &str, pat: &str, at: usize) -> (r: bool)
    ensures
        r == match_at(s@, pat@, at as int),
{
    let s_len = s.unicode_len();
    let pat_len = pat.unicode_len();
    if at > s_len || pat_len > s_len || pat_len > s_len - at {
        return false;
    }
    let mut j: usize = 0;
    while j < pat_len
        invariant
            0 <= j <= pat_len,
            at + pat_len <= s_len,
            s_len == s@.len(),
            pat_len == pat@.len(),
            s@.subrange(at as int, at + j) =~= pat@.subrange(0, j as int),
        decreases pat_len - j,
    {
        if s.get_char(at + j) != pat.get_char(j) {
            proof {
                if match_at(s@, pat@, at as int) {
                    assert(s@.subrange(at as int, at + pat@.len())[j as int] == pat@[j as int]);
                    assert(false);
                }
            }
            return false;
        }
        proof {
            let ghost jj = j as int;
            assert(s@.subrange(at as int, at + jj + 1) =~= s@.subrange(at as int, at + jj).push(
                s@[at + jj],
            ));
            assert(pat@.subrange(0, jj + 1) =~= pat@.subrange(0, jj).push(pat@[jj]));
        }
        j = j + 1;
    }
    proof {
        assert(pat@.subrange(0, pat@.len() as int) =~= pat@);
    }
    true
}

/// Whether two texts are equal, character for character.
pub fn str_eq(a: &str, b: &str) -> (r: bool)
    ensures
        r == (a@ == b@),
{
    let a_len = a.unicode_len();
    let b_len = b.unicode_len();
    if a_len != b_len {
        proof {
            assert(a@ != b@);
        }
        return false;
    }
    let r = starts_with(a, b);
    proof {
        if r {
            assert(a@.subrange(0, b@.len() as int) =~= a@);
        } else {
            if a@ == b@ {
                assert(a@.subrange(0, b@.len() as int) =~= b@);
                assert(false);
            }
        }
    }
    r
}

/// Whether `s` begins with `pat`.
pub fn starts_with(s: &str, pat: &str) -> (r: bool)
    ensures
        r == match_at(s@, pat@, 0),
{
    let s_len = s.unicode_len();
    let pat_len = pat.unicode_len();
    if pat_len > s_len {
        return false;
    }
    let mut j: usize = 0;
    while j < pat_len
        invariant
            0 <= j <= pat_len,
            pat_len <= s_len,
            s_len == s@.len(),
            pat_len == pat@.len(),
            s@.subrange(0, j as int) =~= pat@.subrange(0, j as int),
        decreases pat_len - j,
    {
        if s.get_char(j) != pat.get_char(j) {
            proof {
                if match_at(s@, pat@, 0) {
                    assert(s@.subrange(0, pat@.len() as int)[j as int] == pat@[j as int]);
                    assert(false);
                }
            }
            return false;
        }
        proof {
            let ghost jj = j as int;
            assert(s@.subrange(0, jj + 1) =~= s@.subrange(0, jj).push(s@[jj]));
            assert(pat@.subrange(0, jj + 1) =~= pat@.subrange(0, jj).push(pat@[jj]));
        }
        j = j + 1;
    }
    proof {
        assert(pat@.subrange(0, pat@.len() as int) =~= pat@);
    }
    true
}

fn is_space_at(s: &str, i: usize) -> (r: bool)
    requires
        i < s@.len(),
    ensures
        r == is_space(s@[i as int]),
{
    let c = s.get_char(i);
    c == ' ' || c == '\t' || c == '\r' || c == '\n'
}

} // verus!
