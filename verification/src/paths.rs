//! Path text handling: extracting file extensions, recognizing supported
//! video files, and composing artifact names and output paths.

use crate::scan::char_at;
use crate::text::dec_digits;
use crate::text::u64_to_string;
use vstd::prelude::*;

verus! {

/// Index of the last path separator in `p`, or -1 when there is none.
pub open spec fn last_sep(p: Seq<char>) -> int
    decreases p.len(),
{
    if p.len() == 0 {
        -1
    } else if p.last() == '/' || p.last() == '\\' {
        p.len() - 1
    } else {
        last_sep(p.drop_last())
    }
}

/// Index of the last dot in `f`, or -1 when there is none.
pub open spec fn last_dot(f: Seq<char>) -> int
    decreases f.len(),
{
    if f.len() == 0 {
        -1
    } else if f.last() == '.' {
        f.len() - 1
    } else {
        last_dot(f.drop_last())
    }
}

/// The extension of a path: the text after the last dot of the final path
/// component, unless that component has no dot or only its leading one.
pub open spec fn path_extension(p: Seq<char>) -> Option<Seq<char>> {
    let f = p.subrange(last_sep(p) + 1, p.len() as int);
    if last_dot(f) > 0 {
        Some(f.subrange(last_dot(f) + 1, f.len() as int))
    } else {
        None
    }
}

/// One character spells another up to ASCII case, where the second is
/// lower-case.
pub open spec fn char_matches_lower(a: char, b: char) -> bool {
    a == b || (97 <= b as u32 <= 122 && a as u32 + 32 == b as u32)
}

/// `s` spells `t` up to ASCII case, where `t` is lower-case.
pub open spec fn matches_lower(s: Seq<char>, t: Seq<char>) -> bool {
    s.len() == t.len() && forall|i: int| 0 <= i < s.len() ==> char_matches_lower(s[i], t[i])
}

/// The text names one of the supported containers, ignoring ASCII case.
pub open spec fn supported_extension_ci(s: Seq<char>) -> bool {
    ||| matches_lower(s, "mp4"@)
    ||| matches_lower(s, "mov"@)
    ||| matches_lower(s, "webm"@)
    ||| matches_lower(s, "avi"@)
    ||| matches_lower(s, "mkv"@)
}

/// The path names a supported video file: its extension, if it has one,
/// names a supported container.
pub open spec fn supported_video_file(p: Seq<char>) -> bool {
    match path_extension(p) {
        Some(e) => supported_extension_ci(e),
        None => false,
    }
}

fn matches_lower_exec(s: &str, t: &str) -> (r: bool)
    ensures
        r == matches_lower(s@, t@),
{
    let s_len = s.unicode_len();
    let t_len = t.unicode_len();
    if s_len != t_len {
        return false;
    }
    let mut i: usize = 0;
    while i < s_len
        invariant
            0 <= i <= s_len,
            s_len == s@.len(),
            t_len == t@.len(),
            s_len == t_len,
            forall|k: int| 0 <= k < i ==> char_matches_lower(s@[k], t@[k]),
        decreases s_len - i,
    {
        let a = s.get_char(i);
        let b = t.get_char(i);
        let ok = a == b || (97 <= b as u32 && b as u32 <= 122 && a as u32 + 32 == b as u32);
        if !ok {
            return false;
        }
        i = i + 1;
    }
    true
}

/// Whether a target-extension text names a supported container, ignoring
/// ASCII case.
pub fn is_supported_video_extension(ext: &str) -> (r: bool)
    ensures
        r == supported_extension_ci(ext@),
{
    matches_lower_exec(ext, "mp4") || matches_lower_exec(ext, "mov") || matches_lower_exec(
        ext,
        "webm",
    ) || matches_lower_exec(ext, "avi") || matches_lower_exec(ext, "mkv")
}

/// Index just after the last path separator.
fn after_last_sep(p: &str, len: usize) -> (r: usize)
    requires
        len == p@.len(),
    ensures
        r == last_sep(p@) + 1,
        r <= len,
{
    proof {
        assert(p@.take(len as int) =~= p@);
    }
    let mut k: usize = len;
    while k > 0
        invariant
            0 <= k <= len,
            len == p@.len(),
            last_sep(p@) == last_sep(p@.take(k as int)),
        decreases k,
    {
        let c = char_at(p, k - 1);
        proof {
            assert(p@.take(k as int).last() == p@[k - 1]);
            assert(p@.take(k as int).drop_last() =~= p@.take(k - 1));
        }
        if c == '/' || c == '\\' {
            return k;
        }
        k = k - 1;
    }
    proof {
        assert(p@.take(0) =~= Seq::<char>::empty());
    }
    0
}

/// Index of the last dot at or after `from`, or `from - 1` when none; the
/// result mirrors `last_dot` of the final component.
fn last_dot_from(p: &str, from: usize, len: usize) -> (r: usize)
    requires
        from <= len,
        len == p@.len(),
    ensures
        r == from + last_dot(p@.subrange(from as int, len as int)) + 1,
        from <= r <= len,
{
    let ghost f = p@.subrange(from as int, len as int);
    let mut k: usize = len;
    while k > from
        invariant
            from <= k <= len,
            len == p@.len(),
            f == p@.subrange(from as int, len as int),
            last_dot(f) == last_dot(p@.subrange(from as int, k as int)),
        decreases k,
    {
        let c = char_at(p, k - 1);
        proof {
            assert(p@.subrange(from as int, k as int).last() == p@[k - 1]);
            assert(p@.subrange(from as int, k as int).drop_last() =~= p@.subrange(
                from as int,
                k - 1,
            ));
        }
        if c == '.' {
            return k;
        }
        k = k - 1;
    }
    proof {
        assert(p@.subrange(from as int, from as int) =~= Seq::<char>::empty());
    }
    from
}

/// The extension of a path, as text.
pub fn extension_of(path: &str) -> (r: Option<String>)
    ensures
        match r {
            Some(e) => path_extension(path@) == Some(e@),
            None => path_extension(path@) is None,
        },
{
    let len = path.unicode_len();
    let start = after_last_sep(path, len);
    let ghost f = path@.subrange(last_sep(path@) + 1, path@.len() as int);
    let d = last_dot_from(path, start, len);
    proof {
        assert(f.subrange(last_dot(f) + 1, f.len() as int) =~= path@.subrange(
            d as int,
            len as int,
        ));
    }
    if d > start && d - start > 1 {
        Some(path.substring_char(d, len).to_owned())
    } else {
        None
    }
}

/// Whether a path names a supported video file.
pub fn is_supported_video_file(path: &str) -> (r: bool)
    ensures
        r == supported_video_file(path@),
{
    match extension_of(path) {
        Some(e) => is_supported_video_extension(e.as_str()),
        None => false,
    }
}

/// A directory and a file name joined into one path.
pub open spec fn joined_path(dir: Seq<char>, name: Seq<char>) -> Seq<char> {
    dir + "/"@ + name
}

/// Joins a directory and a file name.
pub fn join_path(dir: &String, name: &String) -> (r: String)
    ensures
        r@ == joined_path(dir@, name@),
{
    let mut s = dir.clone();
    s.append("/");
    s.append(name.as_str());
    s
}

/// The artifact name of a finished compression: the job id and the target
/// extension.
pub open spec fn output_file_name(id: Seq<char>, ext: Seq<char>) -> Seq<char> {
    id + "."@ + ext
}

/// Builds the artifact name of a finished compression.
pub fn build_output_file_name(id: &String, ext: &String) -> (r: String)
    ensures
        r@ == output_file_name(id@, ext@),
{
    let mut s = id.clone();
    s.append(".");
    s.append(ext.as_str());
    s
}

/// The output name a source file maps to: its stem marked as compressed,
/// with the target extension; renamed candidates carry an index.
pub open spec fn compressed_output_name(stem: Seq<char>, ext: Seq<char>, index: int) -> Seq<char> {
    if index == 0 {
        stem + "_compressed."@ + ext
    } else {
        stem + "_compressed_"@ + dec_digits(index) + "."@ + ext
    }
}

/// Builds the `index`-th output-name candidate for a source file: the
/// plain name first, then auto-renamed variants.
pub fn build_compressed_output_name(stem: &String, ext: &String, index: u64) -> (r: String)
    ensures
        r@ == compressed_output_name(stem@, ext@, index as int),
{
    let mut s = stem.clone();
    if index == 0 {
        s.append("_compressed.");
    } else {
        s.append("_compressed_");
        s.append(u64_to_string(index).as_str());
        s.append(".");
    }
    s.append(ext.as_str());
    proof {
        assert(s@ =~= compressed_output_name(stem@, ext@, index as int));
    }
    s
}

} // verus!
