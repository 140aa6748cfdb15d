//! Progress monitoring: turning raw lines of the encoder's progress stream
//! into elapsed-time values and structured progress events.

use crate::options::VideoCompressionProgress;
use crate::scan::{find_from, find_str, lemma_find_from, match_at, starts_with, trim_range};
use crate::timecode::{field_value, parse_field, parse_time_to_us, parse_time_us};
use vstd::prelude::*;

verus! {

/// Elapsed microseconds reported by one progress line, if any: either an
/// `out_time_ms=` key holding plain microseconds or an `out_time=` key
/// holding a timestamp, at the start of the line.
pub open spec fn out_time_line_us(line: Seq<char>) -> Option<u64> {
    if match_at(line, "out_time_ms="@, 0) {
        match field_value(line.subrange("out_time_ms="@.len() as int, line.len() as int)) {
            Some(v) => Some(v as u64),
            None => None,
        }
    } else if match_at(line, "out_time="@, 0) {
        parse_time_us(trimmed_rest(line, "out_time="@.len() as int))
    } else {
        None
    }
}

/// The rest of `line` after `from`, with surrounding whitespace removed.
pub open spec fn trimmed_rest(line: Seq<char>, from: int) -> Seq<char> {
    crate::scan::trimmed(line.subrange(from, line.len() as int))
}

/// The elapsed-time value the encoder printed on a progress line, exactly
/// as printed: everything after the first `out_time=` key, when non-empty.
pub open spec fn progress_capture(line: Seq<char>) -> Option<Seq<char>> {
    match find_from(line, "out_time="@, 0) {
        Some(i) => {
            let v = line.subrange(i + "out_time="@.len(), line.len() as int);
            if v.len() > 0 {
                Some(v)
            } else {
                None
            }
        },
        None => None,
    }
}

/// Parses the elapsed time of one progress line into microseconds.
pub fn parse_out_time_us(line: &str) -> (r: Option<u64>)
    ensures
        r == out_time_line_us(line@),
{
    proof {
        reveal_strlit("out_time_ms=");
        reveal_strlit("out_time=");
    }
    let len = line.unicode_len();
    if starts_with(line, "out_time_ms=") {
        match parse_field(line, 12, len) {
            Some(v) => Some(v),
            None => None,
        }
    } else if starts_with(line, "out_time=") {
        let (lo, hi) = trim_range(line, 9, len);
        parse_time_to_us(line.substring_char(lo, hi))
    } else {
        None
    }
}

/// Extracts the raw elapsed-time value from a progress line, to be
/// forwarded verbatim to progress listeners.
pub fn progress_value(line: &str) -> (r: Option<String>)
    ensures
        match r {
            Some(v) => progress_capture(line@) == Some(v@),
            None => progress_capture(line@) is None,
        },
{
    proof {
        reveal_strlit("out_time=");
    }
    match find_str(line, "out_time=", 0) {
        Some(i) => {
            proof {
                lemma_find_from(line@, "out_time="@, 0);
            }
            let len = line.unicode_len();
            let start = i + 9;
            if start < len {
                Some(line.substring_char(start, len).to_owned())
            } else {
                None
            }
        },
        None => None,
    }
}

/// Builds the progress event delivered to listeners for one elapsed-time
/// value of a running job.
pub fn make_progress_event(video_id: &String, file_name: &String, current_duration: String) -> (r:
    VideoCompressionProgress)
    ensures
        r.video_id@ == video_id@,
        r.file_name@ == file_name@,
        r.current_duration == current_duration,
{
    VideoCompressionProgress {
        video_id: video_id.clone(),
        file_name: file_name.clone(),
        current_duration,
    }
}

} // verus!
