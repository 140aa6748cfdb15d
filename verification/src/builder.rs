//! The argument builder: a pure mapping from job options to the ordered
//! encoder command line, including the quality-to-rate-control mapping
//! and the filter graph.

use crate::filters::{build_filter_graph, filter_graph};
use crate::options::{CompressionOptions, Extension, Preset};
use crate::text::{dec_digits, u64_to_string};
use vstd::prelude::*;

verus! {

/// Lowest rate-control parameter (highest quality) the mapping can produce.
pub const MIN_CRF: u16 = 24;

/// Highest rate-control parameter (lowest quality) the mapping can produce.
pub const MAX_CRF: u16 = 36;

/// Rate-control parameter used when a caller hands in an out-of-range quality.
pub const DEFAULT_CRF: u16 = 28;

/// The quality in [0, 100] maps linearly and inversely onto [24, 36]:
/// quality 100 gives 24 (best), quality 0 gives 36 (smallest output).
pub open spec fn crf_of(quality: int) -> int {
    24 + (12 - (12 * quality) / 100)
}

/// Total version of the mapping: out-of-range qualities fall back to 28.
pub open spec fn crf_of_any(quality: int) -> int {
    if 0 <= quality <= 100 {
        crf_of(quality)
    } else {
        28
    }
}

/// Maps a validated quality onto the rate-control parameter.
pub fn quality_to_crf(quality: u16) -> (r: u16)
    requires
        quality <= 100,
    ensures
        r == crf_of(quality as int),
        24 <= r <= 36,
        quality == 0 ==> r == 36,
        quality == 100 ==> r == 24,
{
    let diff = (MAX_CRF - MIN_CRF) - ((MAX_CRF - MIN_CRF) * quality) / 100;
    MIN_CRF + diff
}

/// Maps any quality onto the rate-control parameter, falling back to the
/// default for out-of-range values.
pub fn crf_for_quality(quality: u16) -> (r: u16)
    ensures
        r == crf_of_any(quality as int),
        24 <= r <= 36,
{
    if quality <= 100 {
        quality_to_crf(quality)
    } else {
        DEFAULT_CRF
    }
}

/// One encoder invocation: the ordered argument list and the filter graph
/// it contains, fixed once built.
pub struct EncoderInvocation {
    pub args: Vec<String>,
    pub filter_graph: String,
}

/// The views of an argument list.
pub open spec fn arg_views(args: Seq<String>) -> Seq<Seq<char>> {
    args.map_values(|s: String| s@)
}

/// The view of an optional frame-rate override.
pub open spec fn fps_view(fps: Option<String>) -> Option<Seq<char>> {
    match fps {
        Some(f) => Some(f@),
        None => None,
    }
}

/// The input and stream-control arguments every compression starts with.
pub open spec fn base_args(video_path: Seq<char>) -> Seq<Seq<char>> {
    seq![
        "-i"@,
        video_path,
        "-hide_banner"@,
        "-progress"@,
        "-"@,
        "-nostats"@,
        "-loglevel"@,
        "error"@,
    ]
}

/// The codec and quality arguments of a preset. The default preset carries
/// the full fidelity flags; the thunderbolt preset, and no preset, keep
/// only the rate-control flag.
pub open spec fn quality_args(preset: Option<Preset>, crf: int) -> Seq<Seq<char>> {
    if preset == Some(Preset::Default) {
        seq![
            "-pix_fmt"@,
            "yuv420p"@,
            "-c:v"@,
            "libx264"@,
            "-b:v"@,
            "0"@,
            "-movflags"@,
            "+faststart"@,
            "-preset"@,
            "slow"@,
            "-qp"@,
            "0"@,
            "-crf"@,
            dec_digits(crf),
        ]
    } else {
        seq!["-c:v"@, "libx264"@, "-crf"@, dec_digits(crf)]
    }
}

/// The frame-rate override arguments, when a rate is set.
pub open spec fn fps_args(fps: Option<Seq<char>>) -> Seq<Seq<char>> {
    match fps {
        Some(f) => seq!["-r"@, f],
        None => Seq::empty(),
    }
}

/// The codec override a `webm` target forces.
pub open spec fn codec_override_args(ext: Extension) -> Seq<Seq<char>> {
    if ext == Extension::Webm {
        seq!["-c:v"@, "libvpx-vp9"@]
    } else {
        Seq::empty()
    }
}

/// The audio-mute argument, when muting is requested.
pub open spec fn mute_args(mute: bool) -> Seq<Seq<char>> {
    if mute {
        seq!["-an"@]
    } else {
        Seq::empty()
    }
}

/// The full argument list of a compression: base arguments, preset and
/// quality flags, the filter graph, then the frame-rate override, the
/// `webm` codec override, the mute flag, the output path and the
/// overwrite flag, in that fixed order.
pub open spec fn compression_args(
    opts: CompressionOptions,
    ext: Extension,
    output_path: Seq<char>,
) -> Seq<Seq<char>> {
    base_args(opts.video_path@) + quality_args(opts.preset, crf_of_any(opts.quality as int))
        + seq!["-vf"@, filter_graph(opts.transforms@, opts.dimensions)] + fps_args(
        fps_view(opts.fps),
    ) + codec_override_args(ext) + mute_args(opts.mute) + seq![output_path, "-y"@]
}

/// The argument list of a single-frame thumbnail extraction at the fixed
/// one-second offset.
pub open spec fn thumbnail_args(video_path: Seq<char>, output_path: Seq<char>) -> Seq<Seq<char>> {
    seq!["-i"@, video_path, "-ss"@, "00:00:01.00"@, "-vframes"@, "1"@, output_path, "-y"@]
}

/// The argument list of a metadata probe: no output file, diagnostics
/// only.
pub open spec fn probe_args(video_path: Seq<char>) -> Seq<Seq<char>> {
    seq!["-i"@, video_path, "-hide_banner"@]
}

/// Appends a literal argument.
pub(crate) fn push_lit(args: &mut Vec<String>, s: &str)
    ensures
        arg_views(final(args)@) == arg_views(old(args)@).push(s@),
{
    args.push(String::from_str(s));
    proof {
        assert(arg_views(args@) =~= arg_views(old(args)@).push(s@));
    }
}

/// Appends a computed argument.
pub(crate) fn push_arg(args: &mut Vec<String>, s: String)
    ensures
        arg_views(final(args)@) == arg_views(old(args)@).push(s@),
{
    let ghost v = s@;
    args.push(s);
    proof {
        assert(arg_views(args@) =~= arg_views(old(args)@).push(v));
    }
}

/// Builds the encoder invocation of a compression job. The same options
/// and output path always build the same invocation.
pub fn build_compression_invocation(
    options: &CompressionOptions,
    ext: Extension,
    output_path: &String,
) -> (inv: EncoderInvocation)
    ensures
        arg_views(inv.args@) == compression_args(*options, ext, output_path@),
        inv.filter_graph@ == filter_graph(options.transforms@, options.dimensions),
{
    let mut args: Vec<String> = Vec::new();
    push_lit(&mut args, "-i");
    push_arg(&mut args, options.video_path.clone());
    push_lit(&mut args, "-hide_banner");
    push_lit(&mut args, "-progress");
    push_lit(&mut args, "-");
    push_lit(&mut args, "-nostats");
    push_lit(&mut args, "-loglevel");
    push_lit(&mut args, "error");
    proof {
        assert(arg_views(args@) =~= base_args(options.video_path@));
    }
    let crf = crf_for_quality(options.quality);
    let is_default = match options.preset {
        Some(Preset::Default) => true,
        _ => false,
    };
    if is_default {
        push_lit(&mut args, "-pix_fmt");
        push_lit(&mut args, "yuv420p");
        push_lit(&mut args, "-c:v");
        push_lit(&mut args, "libx264");
        push_lit(&mut args, "-b:v");
        push_lit(&mut args, "0");
        push_lit(&mut args, "-movflags");
        push_lit(&mut args, "+faststart");
        push_lit(&mut args, "-preset");
        push_lit(&mut args, "slow");
        push_lit(&mut args, "-qp");
        push_lit(&mut args, "0");
    } else {
        push_lit(&mut args, "-c:v");
        push_lit(&mut args, "libx264");
    }
    push_lit(&mut args, "-crf");
    push_arg(&mut args, u64_to_string(crf as u64));
    proof {
        assert(arg_views(args@) =~= base_args(options.video_path@) + quality_args(
            options.preset,
            crf_of_any(options.quality as int),
        ));
    }
    let vf = build_filter_graph(&options.transforms, &options.dimensions);
    let filter_copy = vf.clone();
    push_lit(&mut args, "-vf");
    push_arg(&mut args, vf);
    match &options.fps {
        Some(f) => {
            push_lit(&mut args, "-r");
            push_arg(&mut args, f.clone());
        },
        None => {},
    }
    if matches!(ext, Extension::Webm) {
        push_lit(&mut args, "-c:v");
        push_lit(&mut args, "libvpx-vp9");
    }
    if options.mute {
        push_lit(&mut args, "-an");
    }
    push_arg(&mut args, output_path.clone());
    push_lit(&mut args, "-y");
    proof {
        assert(arg_views(args@) =~= compression_args(*options, ext, output_path@));
    }
    EncoderInvocation { args, filter_graph: filter_copy }
}

/// Builds the invocation of a thumbnail extraction.
pub fn build_thumbnail_args(video_path: &String, output_path: &String) -> (r: Vec<String>)
    ensures
        arg_views(r@) == thumbnail_args(video_path@, output_path@),
{
    let mut args: Vec<String> = Vec::new();
    push_lit(&mut args, "-i");
    push_arg(&mut args, video_path.clone());
    push_lit(&mut args, "-ss");
    push_lit(&mut args, "00:00:01.00");
    push_lit(&mut args, "-vframes");
    push_lit(&mut args, "1");
    push_arg(&mut args, output_path.clone());
    push_lit(&mut args, "-y");
    proof {
        assert(arg_views(args@) =~= thumbnail_args(video_path@, output_path@));
    }
    args
}

/// Builds the invocation of a metadata probe.
pub fn build_probe_args(video_path: &String) -> (r: Vec<String>)
    ensures
        arg_views(r@) == probe_args(video_path@),
{
    let mut args: Vec<String> = Vec::new();
    push_lit(&mut args, "-i");
    push_arg(&mut args, video_path.clone());
    push_lit(&mut args, "-hide_banner");
    proof {
        assert(arg_views(args@) =~= probe_args(video_path@));
    }
    args
}

/// Building is deterministic: identical options, target and output path
/// always yield the identical argument sequence.
pub proof fn lemma_build_deterministic(
    o1: CompressionOptions,
    o2: CompressionOptions,
    e1: Extension,
    e2: Extension,
    p1: Seq<char>,
    p2: Seq<char>,
)
    requires
        o1 == o2,
        e1 == e2,
        p1 == p2,
    ensures
        compression_args(o1, e1, p1) == compression_args(o2, e2, p2),
        filter_graph(o1.transforms@, o1.dimensions) == filter_graph(o2.transforms@, o2.dimensions),
{
}

/// The rate-control parameter never leaves [24, 36] and never increases as
/// quality increases.
pub proof fn lemma_crf_monotonic(q1: int, q2: int)
    requires
        0 <= q1 <= q2 <= 100,
    ensures
        24 <= crf_of(q2) <= crf_of(q1) <= 36,
{
    vstd::arithmetic::div_mod::lemma_div_is_ordered(12 * q1, 12 * q2, 100);
    assert((12 * q1) / 100 >= 0) by {
        vstd::arithmetic::div_mod::lemma_div_pos_is_pos(12 * q1, 100);
    }
    assert((12 * q2) / 100 <= 12) by {
        vstd::arithmetic::div_mod::lemma_div_is_ordered(12 * q2, 1200, 100);
    }
}

} // verus!
