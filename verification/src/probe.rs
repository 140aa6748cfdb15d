//! Metadata probe: scanning the encoder's diagnostic stream line by line
//! for the source's duration, pixel dimensions and frame rate.
//!
//! Each line is matched against three independent patterns. A field of
//! [`MediaInfo`] is filled by the first line that yields it; scanning may
//! stop as soon as all three are known.

use crate::options::{Dimensions, MediaInfo};
use crate::scan::{
    char_at, digit_run, digit_run_len, digits_value, find_from, find_str, is_digit,
    lemma_digit_run, lemma_digits_value_bound, lemma_digits_value_non_negative, lemma_find_from,
    lemma_pow10_adds, lemma_pow10_small, match_at, parse_digit_range, pow10,
};
use crate::timecode::{parse_time_to_us, parse_time_us};
use vstd::prelude::*;

verus! {

/// Total duration in microseconds reported by a diagnostic line: the
/// timestamp between the first `Duration: ` key and the next comma.
pub open spec fn duration_line_us(line: Seq<char>) -> Option<u64> {
    match find_from(line, "Duration: "@, 0) {
        Some(i) => {
            let start = i + "Duration: "@.len();
            match find_from(line, ","@, start) {
                Some(j) => parse_time_us(line.subrange(start, j)),
                None => None,
            }
        },
        None => None,
    }
}

/// A `WIDTHxHEIGHT` token stands at position `p`: a space, two to five
/// digits, an `x`, and at least two more digits.
pub open spec fn dimension_match_at(line: Seq<char>, p: int) -> bool {
    let a = digit_run_len(line, p + 1);
    &&& 0 <= p < line.len()
    &&& line[p] == ' '
    &&& 2 <= a <= 5
    &&& p + 1 + a < line.len()
    &&& line[p + 1 + a] == 'x'
    &&& digit_run_len(line, p + 2 + a) >= 2
}

/// First position at or after `p` holding a `WIDTHxHEIGHT` token.
pub open spec fn find_dimension_from(line: Seq<char>, p: int) -> Option<int>
    decreases line.len() - p + 1,
{
    if p < 0 || p >= line.len() {
        None
    } else if dimension_match_at(line, p) {
        Some(p)
    } else {
        find_dimension_from(line, p + 1)
    }
}

/// The width and height captured by a `WIDTHxHEIGHT` token at `p`: the full
/// first digit run and the first two to five digits of the second run.
pub open spec fn dimension_capture(line: Seq<char>, p: int) -> Dimensions {
    let a = digit_run_len(line, p + 1);
    let b_raw = digit_run_len(line, p + 2 + a);
    let b = if b_raw > 5 {
        5int
    } else {
        b_raw
    };
    Dimensions {
        width: digits_value(line.subrange(p + 1, p + 1 + a)) as u32,
        height: digits_value(line.subrange(p + 2 + a, p + 2 + a + b)) as u32,
    }
}

/// Pixel dimensions reported by a diagnostic line: the first
/// `WIDTHxHEIGHT` token after the first comma that follows `Video:`.
pub open spec fn dimension_line(line: Seq<char>) -> Option<Dimensions> {
    match find_from(line, "Video:"@, 0) {
        Some(v) => match find_from(line, ","@, v + "Video:"@.len()) {
            Some(c) => match find_dimension_from(line, c + 1) {
                Some(p) => Some(dimension_capture(line, p)),
                None => None,
            },
            None => None,
        },
        None => None,
    }
}

/// A frame-rate token stands at position `q`: a digit run, an optional
/// fraction, then ` fps`.
pub open spec fn fps_match_at(line: Seq<char>, q: int) -> bool {
    let a = digit_run_len(line, q);
    &&& 0 <= q < line.len()
    &&& is_digit(line[q])
    &&& {
        ||| match_at(line, " fps"@, q + a)
        ||| (q + a < line.len() && line[q + a] == '.' && digit_run_len(line, q + a + 1) >= 1
            && match_at(line, " fps"@, q + a + 1 + digit_run_len(line, q + a + 1)))
    }
}

/// First position at or after `q` holding a frame-rate token.
pub open spec fn find_fps_from(line: Seq<char>, q: int) -> Option<int>
    decreases line.len() - q + 1,
{
    if q < 0 || q >= line.len() {
        None
    } else if fps_match_at(line, q) {
        Some(q)
    } else {
        find_fps_from(line, q + 1)
    }
}

/// Thousandths contributed by the fractional digits of a frame rate: the
/// first three digits, scaled up when fewer are given.
pub open spec fn frac_milli(fd: Seq<char>) -> int {
    if fd.len() >= 3 {
        digits_value(fd.subrange(0, 3))
    } else {
        digits_value(fd) * pow10(3 - fd.len())
    }
}

/// The frame rate captured by a token at `q`, in thousandths per second,
/// or `None` when it exceeds a `u64` of thousandths.
pub open spec fn fps_capture_milli(line: Seq<char>, q: int) -> Option<u64> {
    let a = digit_run_len(line, q);
    let whole = digits_value(line.subrange(q, q + a));
    let total = if q + a < line.len() && line[q + a] == '.' && digit_run_len(line, q + a + 1)
        >= 1 && match_at(line, " fps"@, q + a + 1 + digit_run_len(line, q + a + 1)) {
        whole * 1000 + frac_milli(
            line.subrange(q + a + 1, q + a + 1 + digit_run_len(line, q + a + 1)),
        )
    } else {
        whole * 1000
    };
    if total <= u64::MAX {
        Some(total as u64)
    } else {
        None
    }
}

/// Frame rate reported by a diagnostic line, in thousandths per second.
pub open spec fn fps_line_milli(line: Seq<char>) -> Option<u64> {
    match find_fps_from(line, 0) {
        Some(q) => fps_capture_milli(line, q),
        None => None,
    }
}

/// One line's contribution to the probe result: every still-unknown field
/// is filled from the line when the line yields it.
pub open spec fn absorb_line(info: MediaInfo, line: Seq<char>) -> MediaInfo {
    MediaInfo {
        duration_us: if info.duration_us is Some {
            info.duration_us
        } else {
            duration_line_us(line)
        },
        dimensions: if info.dimensions is Some {
            info.dimensions
        } else {
            dimension_line(line)
        },
        fps_milli: if info.fps_milli is Some {
            info.fps_milli
        } else {
            fps_line_milli(line)
        },
    }
}

/// Parses the duration from one diagnostic line.
pub fn parse_duration_line(line: &str) -> (r: Option<u64>)
    ensures
        r == duration_line_us(line@),
{
    proof {
        reveal_strlit("Duration: ");
        reveal_strlit(",");
    }
    let len = line.unicode_len();
    let i = match find_str(line, "Duration: ", 0) {
        Some(i) => i,
        None => {
            return None;
        },
    };
    proof {
        lemma_find_from(line@, "Duration: "@, 0);
    }
    let start = i + 10;
    let j = match find_str(line, ",", start) {
        Some(j) => j,
        None => {
            return None;
        },
    };
    proof {
        lemma_find_from(line@, ","@, start as int);
    }
    parse_time_to_us(line.substring_char(start, j))
}

/// Whether a `WIDTHxHEIGHT` token stands at `p`, and the runs it is made
/// of.
fn dimension_check_at(line: &str, p: usize, len: usize) -> (r: bool)
    requires
        p < len,
        len == line@.len(),
    ensures
        r == dimension_match_at(line@, p as int),
{
    if char_at(line, p) != ' ' {
        return false;
    }
    let a = digit_run(line, p + 1);
    if a < 2 || a > 5 {
        return false;
    }
    if p + 1 + a >= len {
        return false;
    }
    if char_at(line, p + 1 + a) != 'x' {
        return false;
    }
    let b_raw = digit_run(line, p + 2 + a);
    b_raw >= 2
}

/// Parses the pixel dimensions from one diagnostic line.
pub fn parse_dimension_line(line: &str) -> (r: Option<Dimensions>)
    ensures
        r == dimension_line(line@),
{
    proof {
        reveal_strlit("Video:");
        reveal_strlit(",");
    }
    let len = line.unicode_len();
    let v = match find_str(line, "Video:", 0) {
        Some(v) => v,
        None => {
            return None;
        },
    };
    proof {
        lemma_find_from(line@, "Video:"@, 0);
    }
    let c = match find_str(line, ",", v + 6) {
        Some(c) => c,
        None => {
            return None;
        },
    };
    proof {
        lemma_find_from(line@, ","@, v + 6);
    }
    let mut p: usize = c + 1;
    while p < len
        invariant
            c + 1 <= p,
            len == line@.len(),
            find_from(line@, "Video:"@, 0) == Some(v as int),
            find_from(line@, ","@, v + "Video:"@.len()) == Some(c as int),
            find_dimension_from(line@, c + 1) == find_dimension_from(line@, p as int),
        decreases len - p,
    {
        if dimension_check_at(line, p, len) {
            let a = digit_run(line, p + 1);
            let b_raw = digit_run(line, p + 2 + a);
            let b: usize = if b_raw > 5 {
                5
            } else {
                b_raw
            };
            proof {
                lemma_digit_run(line@, p + 1);
                lemma_digit_run(line@, p + 2 + a);
                lemma_digits_value_bound(line@.subrange(p + 1, p + 1 + a));
                lemma_digits_value_bound(line@.subrange(p + 2 + a, p + 2 + a + b));
                lemma_pow10_small();
                crate::scan::lemma_pow10_increases(a as int, 5);
                crate::scan::lemma_pow10_increases(b as int, 5);
            }
            let w = match parse_digit_range(line, p + 1, p + 1 + a) {
                Some(w) => w,
                None => {
                    // At most five digits; cannot exceed the bound.
                    0
                },
            };
            let h = match parse_digit_range(line, p + 2 + a, p + 2 + a + b) {
                Some(h) => h,
                None => {
                    0
                },
            };
            return Some(Dimensions { width: w as u32, height: h as u32 });
        }
        p = p + 1;
    }
    None
}

/// Whether a frame-rate token stands at `q`.
fn fps_check_at(line: &str, q: usize, len: usize) -> (r: bool)
    requires
        q < len,
        len == line@.len(),
    ensures
        r == fps_match_at(line@, q as int),
{
    if !crate::scan::digit_at(line, q) {
        return false;
    }
    let a = digit_run(line, q);
    if crate::scan::starts_with_at(line, " fps", q + a) {
        return true;
    }
    if q + a < len && char_at(line, q + a) == '.' {
        let fb = digit_run(line, q + a + 1);
        if fb >= 1 && crate::scan::starts_with_at(line, " fps", q + a + 1 + fb) {
            return true;
        }
    }
    false
}

/// Parses the frame rate from one diagnostic line, in thousandths.
pub fn parse_fps_line(line: &str) -> (r: Option<u64>)
    ensures
        r == fps_line_milli(line@),
{
    proof {
        reveal_strlit(" fps");
        reveal_strlit(".");
    }
    let len = line.unicode_len();
    let mut q: usize = 0;
    while q < len
        invariant
            len == line@.len(),
            find_fps_from(line@, 0) == find_fps_from(line@, q as int),
        decreases len - q,
    {
        if fps_check_at(line, q, len) {
            return fps_capture(line, q, len);
        }
        q = q + 1;
    }
    None
}

/// Computes the captured frame rate at a matched position.
fn fps_capture(line: &str, q: usize, len: usize) -> (r: Option<u64>)
    requires
        q < len,
        len == line@.len(),
        fps_match_at(line@, q as int),
    ensures
        r == fps_capture_milli(line@, q as int),
{
    let a = digit_run(line, q);
    let ghost whole = digits_value(line@.subrange(q as int, q + a));
    proof {
        lemma_digit_run(line@, q as int);
        lemma_digits_value_non_negative(line@.subrange(q as int, q + a));
    }
    let frac: bool = q + a < len && char_at(line, q + a) == '.' && digit_run(line, q + a + 1) >= 1
        && crate::scan::starts_with_at(line, " fps", q + a + 1 + digit_run(line, q + a + 1));
    proof {
        reveal_strlit(" fps");
    }
    let fr: u64 = if frac {
        let fb = digit_run(line, q + a + 1);
        let ghost fd = line@.subrange(q + a + 1, q + a + 1 + fb);
        proof {
            lemma_digit_run(line@, q + a + 1);
            lemma_digits_value_bound(fd);
            lemma_pow10_small();
            if fd.len() < 3 {
                lemma_pow10_adds(fd.len() as int, 3 - fd.len());
                vstd::arithmetic::mul::lemma_mul_strict_inequality(
                    digits_value(fd),
                    pow10(fd.len() as int),
                    pow10(3 - fd.len()),
                );
            } else {
                assert(fd.subrange(0, 3) =~= line@.subrange(q + a + 1, q + a + 1 + 3));
            }
        }
        if fb >= 3 {
            match parse_digit_range(line, q + a + 1, q + a + 1 + 3) {
                Some(v) => v,
                None => {
                    proof {
                        lemma_digits_value_bound(line@.subrange(q + a + 1, q + a + 1 + 3));
                    }
                    0
                },
            }
        } else {
            let digits = match parse_digit_range(line, q + a + 1, q + a + 1 + fb) {
                Some(v) => v,
                None => {
                    0
                },
            };
            digits * crate::timecode::pow10_u64(3 - fb as u64)
        }
    } else {
        0
    };
    proof {
        if frac {
            frac_milli_bound(line@.subrange(q + a + 1, q + a + 1 + digit_run_len(line@, q + a + 1)));
        }
    }
    let ip = match parse_digit_range(line, q, q + a) {
        Some(v) => v,
        None => {
            return None;
        },
    };
    match ip.checked_mul(1000) {
        Some(x) => match x.checked_add(fr) {
            Some(total) => Some(total),
            None => None,
        },
        None => None,
    }
}

/// The fractional thousandths stay below one unit.
proof fn frac_milli_bound(fd: Seq<char>)
    requires
        forall|k: int| 0 <= k < fd.len() ==> is_digit(fd[k]),
    ensures
        0 <= frac_milli(fd) < 1000,
{
    lemma_pow10_small();
    if fd.len() >= 3 {
        lemma_digits_value_bound(fd.subrange(0, 3));
    } else {
        lemma_digits_value_bound(fd);
        lemma_pow10_adds(fd.len() as int, 3 - fd.len());
        vstd::arithmetic::mul::lemma_mul_strict_inequality(
            digits_value(fd),
            pow10(fd.len() as int),
            pow10(3 - fd.len()),
        );
    }
}

/// Feeds one diagnostic line into the probe result, filling every field
/// the line yields and the probe does not yet know.
pub fn absorb_probe_line(info: &mut MediaInfo, line: &str)
    ensures
        *final(info) == absorb_line(*old(info), line@),
{
    if info.duration_us.is_none() {
        info.duration_us = parse_duration_line(line);
    }
    if info.dimensions.is_none() {
        info.dimensions = parse_dimension_line(line);
    }
    if info.fps_milli.is_none() {
        info.fps_milli = parse_fps_line(line);
    }
}

} // verus!
