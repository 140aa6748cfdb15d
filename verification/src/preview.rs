//! Quality previews: clamping the requested length, computing the seek
//! midpoint, building the two sub-invocations (an untouched short clip and
//! a filtered, compressed one), and resolving partial failure.

use crate::builder::{
    arg_views, codec_override_args, crf_for_quality, crf_of_any, fps_args, fps_view, mute_args,
    push_arg, push_lit,
};
use crate::filters::{build_filter_graph, filter_graph};
use crate::options::{CompressionOptions, Extension, JobError, Preset};
use crate::paths::{join_path, joined_path};
use crate::text::{dec_3_digits, dec_digits, u64_to_3_digits, u64_to_string};
use vstd::prelude::*;

verus! {

/// The requested preview length clamped into [1, 120] seconds, 20 when
/// absent.
pub open spec fn clamp_preview_spec(requested: Option<u16>) -> u16 {
    match requested {
        Some(v) => if v < 1 {
            1
        } else if v > 120 {
            120
        } else {
            v
        },
        None => 20,
    }
}

/// Clamps the requested preview length.
pub fn clamp_preview_seconds(requested: Option<u16>) -> (r: u16)
    ensures
        r == clamp_preview_spec(requested),
        1 <= r <= 120,
{
    match requested {
        Some(v) => if v < 1 {
            1
        } else if v > 120 {
            120
        } else {
            v
        },
        None => 20,
    }
}

/// The preview's seek point in microseconds: the window of the preview
/// length centred in the source, clamped to its start; zero when the
/// duration is unknown or no longer than the preview.
pub open spec fn seek_point_us(duration_us: Option<u64>, preview_s: u16) -> int {
    match duration_us {
        Some(total) => if total > preview_s * 1000000 {
            total as int / 2 - (preview_s * 1000000) / 2
        } else {
            0
        },
        None => 0,
    }
}

/// Computes the preview's seek point.
pub fn compute_seek_us(duration_us: Option<u64>, preview_s: u16) -> (r: u64)
    requires
        preview_s <= 120,
    ensures
        r == seek_point_us(duration_us, preview_s),
{
    let plen: u64 = (preview_s as u64) * 1000000;
    match duration_us {
        Some(total) => {
            if total > plen {
                proof {
                    vstd::arithmetic::div_mod::lemma_div_is_ordered(
                        plen as int,
                        total as int,
                        2,
                    );
                }
                total / 2 - plen / 2
            } else {
                0
            }
        },
        None => 0,
    }
}

/// The textual seek argument: whole seconds, a dot, and exactly three
/// digits of milliseconds (sub-millisecond detail is dropped).
pub open spec fn seek_arg(us: int) -> Seq<char> {
    dec_digits(us / 1000000) + seq!['.'] + dec_3_digits((us % 1000000) / 1000)
}

/// Renders the seek argument.
pub fn seek_arg_string(us: u64) -> (r: String)
    ensures
        r@ == seek_arg(us as int),
{
    let mut s = u64_to_string(us / 1000000);
    s.append(".");
    s.append(u64_to_3_digits((us % 1000000) / 1000).as_str());
    proof {
        reveal_strlit(".");
        assert(s@ =~= seek_arg(us as int));
    }
    s
}

/// The file name of the untouched preview clip.
pub open spec fn source_preview_name(id: Seq<char>) -> Seq<char> {
    id + "-preview-source.mp4"@
}

/// The file name of the compressed preview clip: it keeps the `webm`
/// container when that is the target, and plays in `mp4` otherwise.
pub open spec fn compressed_preview_name(id: Seq<char>, ext: Extension) -> Seq<char> {
    if ext == Extension::Webm {
        id + "-preview-compressed.webm"@
    } else {
        id + "-preview-compressed.mp4"@
    }
}

/// The argument list of the untouched short clip: a fixed high-quality
/// fast encode of the seek window, always muted, with the same filter
/// graph as the compressed clip.
pub open spec fn preview_source_args(
    video_path: Seq<char>,
    seek: Seq<char>,
    dur: Seq<char>,
    vf: Seq<char>,
    fps: Option<Seq<char>>,
    output_path: Seq<char>,
) -> Seq<Seq<char>> {
    seq![
        "-i"@,
        video_path,
        "-hide_banner"@,
        "-nostats"@,
        "-loglevel"@,
        "error"@,
        "-ss"@,
        seek,
        "-t"@,
        dur,
        "-pix_fmt"@,
        "yuv420p"@,
        "-c:v"@,
        "libx264"@,
        "-preset"@,
        "veryfast"@,
        "-crf"@,
        "18"@,
        "-movflags"@,
        "+faststart"@,
        "-vf"@,
        vf,
    ] + fps_args(fps) + seq!["-an"@, output_path, "-y"@]
}

/// The leading arguments of the compressed clip: input, the seek window,
/// and the preset's quality flags.
pub open spec fn preview_quality_head(
    video_path: Seq<char>,
    preset: Option<Preset>,
    seek: Seq<char>,
    dur: Seq<char>,
    crf: int,
) -> Seq<Seq<char>> {
    let head = seq![
        "-i"@,
        video_path,
        "-hide_banner"@,
        "-nostats"@,
        "-loglevel"@,
        "error"@,
        "-ss"@,
        seek,
        "-t"@,
        dur,
    ];
    if preset == Some(Preset::Default) {
        head + seq![
            "-pix_fmt"@,
            "yuv420p"@,
            "-c:v"@,
            "libx264"@,
            "-b:v"@,
            "0"@,
            "-movflags"@,
            "+faststart"@,
            "-preset"@,
            "slow"@,
            "-qp"@,
            "0"@,
            "-crf"@,
            dec_digits(crf),
        ]
    } else {
        head + seq!["-c:v"@, "libx264"@, "-crf"@, dec_digits(crf)]
    }
}

/// The full argument list of the compressed clip, reusing the compression
/// builder's filter, frame-rate, codec-override and mute logic.
pub open spec fn preview_compressed_args(
    opts: CompressionOptions,
    ext: Extension,
    seek: Seq<char>,
    dur: Seq<char>,
    output_path: Seq<char>,
) -> Seq<Seq<char>> {
    preview_quality_head(opts.video_path@, opts.preset, seek, dur, crf_of_any(opts.quality as int))
        + seq!["-vf"@, filter_graph(opts.transforms@, opts.dimensions)] + fps_args(
        fps_view(opts.fps),
    ) + codec_override_args(ext) + mute_args(opts.mute) + seq![output_path, "-y"@]
}

/// Everything a caller needs to run the two preview sub-jobs.
pub struct PreviewPlan {
    pub source_args: Vec<String>,
    pub compressed_args: Vec<String>,
    pub source_file_name: String,
    pub source_file_path: String,
    pub compressed_file_name: String,
    pub compressed_file_path: String,
    pub seek_us: u64,
    pub preview_seconds: u16,
}

/// Validates a preview request: the source must exist and the target
/// container must be supported, in that order.
pub fn preview_validate(options: &CompressionOptions, source_exists: bool) -> (r: Result<
    Extension,
    JobError,
>)
    ensures
        !source_exists ==> (r matches Err(JobError::NotFound)),
        source_exists ==> match crate::options::parse_extension(options.extension@) {
            Some(e) => r == Ok::<Extension, JobError>(e),
            None => r matches Err(JobError::InvalidExtension),
        },
{
    if !source_exists {
        return Err(JobError::NotFound);
    }
    match Extension::parse(options.extension.as_str()) {
        Some(e) => Ok(e),
        None => Err(JobError::InvalidExtension),
    }
}

/// Plans a validated preview: clamps the length, computes the seek point,
/// names both artifacts and builds both argument lists.
pub fn preview_plan(
    options: &CompressionOptions,
    ext: Extension,
    duration_us: Option<u64>,
    preview_seconds: Option<u16>,
    id: &String,
    assets_dir: &String,
) -> (p: PreviewPlan)
    ensures
        p.preview_seconds == clamp_preview_spec(preview_seconds),
        p.seek_us == seek_point_us(duration_us, clamp_preview_spec(preview_seconds)),
        p.source_file_name@ == source_preview_name(id@),
        p.compressed_file_name@ == compressed_preview_name(id@, ext),
        p.source_file_path@ == joined_path(assets_dir@, source_preview_name(id@)),
        p.compressed_file_path@ == joined_path(assets_dir@, compressed_preview_name(id@, ext)),
        arg_views(p.source_args@) == preview_source_args(
            options.video_path@,
            seek_arg(p.seek_us as int),
            dec_digits(clamp_preview_spec(preview_seconds) as int),
            filter_graph(options.transforms@, options.dimensions),
            fps_view(options.fps),
            p.source_file_path@,
        ),
        arg_views(p.compressed_args@) == preview_compressed_args(
            *options,
            ext,
            seek_arg(p.seek_us as int),
            dec_digits(clamp_preview_spec(preview_seconds) as int),
            p.compressed_file_path@,
        ),
{
    let preview_s = clamp_preview_seconds(preview_seconds);
    let seek_us = compute_seek_us(duration_us, preview_s);
    let seek = seek_arg_string(seek_us);
    let dur = u64_to_string(preview_s as u64);

    let mut source_file_name = id.clone();
    source_file_name.append("-preview-source.mp4");
    let mut compressed_file_name = id.clone();
    if matches!(ext, Extension::Webm) {
        compressed_file_name.append("-preview-compressed.webm");
    } else {
        compressed_file_name.append("-preview-compressed.mp4");
    }
    let source_file_path = join_path(assets_dir, &source_file_name);
    let compressed_file_path = join_path(assets_dir, &compressed_file_name);

    let vf = build_filter_graph(&options.transforms, &options.dimensions);

    let source_args = build_preview_source_args(options, &seek, &dur, &vf, &source_file_path);
    let compressed_args = build_preview_compressed_args(
        options,
        ext,
        &seek,
        &dur,
        &vf,
        &compressed_file_path,
    );

    PreviewPlan {
        source_args,
        compressed_args,
        source_file_name,
        source_file_path,
        compressed_file_name,
        compressed_file_path,
        seek_us,
        preview_seconds: preview_s,
    }
}

/// Builds the argument list of the untouched preview clip.
fn build_preview_source_args(
    options: &CompressionOptions,
    seek: &String,
    dur: &String,
    vf: &String,
    output_path: &String,
) -> (r: Vec<String>)
    requires
        vf@ == filter_graph(options.transforms@, options.dimensions),
    ensures
        arg_views(r@) == preview_source_args(
            options.video_path@,
            seek@,
            dur@,
            filter_graph(options.transforms@, options.dimensions),
            fps_view(options.fps),
            output_path@,
        ),
{
    let mut source_args: Vec<String> = Vec::new();
    push_lit(&mut source_args, "-i");
    push_arg(&mut source_args, options.video_path.clone());
    push_lit(&mut source_args, "-hide_banner");
    push_lit(&mut source_args, "-nostats");
    push_lit(&mut source_args, "-loglevel");
    push_lit(&mut source_args, "error");
    push_lit(&mut source_args, "-ss");
    push_arg(&mut source_args, seek.clone());
    push_lit(&mut source_args, "-t");
    push_arg(&mut source_args, dur.clone());
    push_lit(&mut source_args, "-pix_fmt");
    push_lit(&mut source_args, "yuv420p");
    push_lit(&mut source_args, "-c:v");
    push_lit(&mut source_args, "libx264");
    push_lit(&mut source_args, "-preset");
    push_lit(&mut source_args, "veryfast");
    push_lit(&mut source_args, "-crf");
    push_lit(&mut source_args, "18");
    push_lit(&mut source_args, "-movflags");
    push_lit(&mut source_args, "+faststart");
    push_lit(&mut source_args, "-vf");
    push_arg(&mut source_args, vf.clone());
    match &options.fps {
        Some(f) => {
            push_lit(&mut source_args, "-r");
            push_arg(&mut source_args, f.clone());
        },
        None => {},
    }
    push_lit(&mut source_args, "-an");
    push_arg(&mut source_args, output_path.clone());
    push_lit(&mut source_args, "-y");
    proof {
        assert(arg_views(source_args@) =~= preview_source_args(
            options.video_path@,
            seek@,
            dur@,
            vf@,
            fps_view(options.fps),
            output_path@,
        ));
    }
    source_args
}

/// Builds the argument list of the compressed preview clip.
fn build_preview_compressed_args(
    options: &CompressionOptions,
    ext: Extension,
    seek: &String,
    dur: &String,
    vf: &String,
    output_path: &String,
) -> (r: Vec<String>)
    requires
        vf@ == filter_graph(options.transforms@, options.dimensions),
    ensures
        arg_views(r@) == preview_compressed_args(*options, ext, seek@, dur@, output_path@),
{
    let crf = crf_for_quality(options.quality);
    let mut compressed_args: Vec<String> = Vec::new();
    push_lit(&mut compressed_args, "-i");
    push_arg(&mut compressed_args, options.video_path.clone());
    push_lit(&mut compressed_args, "-hide_banner");
    push_lit(&mut compressed_args, "-nostats");
    push_lit(&mut compressed_args, "-loglevel");
    push_lit(&mut compressed_args, "error");
    push_lit(&mut compressed_args, "-ss");
    push_arg(&mut compressed_args, seek.clone());
    push_lit(&mut compressed_args, "-t");
    push_arg(&mut compressed_args, dur.clone());
    let is_default = match options.preset {
        Some(Preset::Default) => true,
        _ => false,
    };
    if is_default {
        push_lit(&mut compressed_args, "-pix_fmt");
        push_lit(&mut compressed_args, "yuv420p");
        push_lit(&mut compressed_args, "-c:v");
        push_lit(&mut compressed_args, "libx264");
        push_lit(&mut compressed_args, "-b:v");
        push_lit(&mut compressed_args, "0");
        push_lit(&mut compressed_args, "-movflags");
        push_lit(&mut compressed_args, "+faststart");
        push_lit(&mut compressed_args, "-preset");
        push_lit(&mut compressed_args, "slow");
        push_lit(&mut compressed_args, "-qp");
        push_lit(&mut compressed_args, "0");
    } else {
        push_lit(&mut compressed_args, "-c:v");
        push_lit(&mut compressed_args, "libx264");
    }
    push_lit(&mut compressed_args, "-crf");
    push_arg(&mut compressed_args, u64_to_string(crf as u64));
    proof {
        assert(arg_views(compressed_args@) =~= preview_quality_head(
            options.video_path@,
            options.preset,
            seek@,
            dur@,
            crf_of_any(options.quality as int),
        ));
    }
    push_lit(&mut compressed_args, "-vf");
    push_arg(&mut compressed_args, vf.clone());
    match &options.fps {
        Some(f) => {
            push_lit(&mut compressed_args, "-r");
            push_arg(&mut compressed_args, f.clone());
        },
        None => {},
    }
    if matches!(ext, Extension::Webm) {
        push_lit(&mut compressed_args, "-c:v");
        push_lit(&mut compressed_args, "libvpx-vp9");
    }
    if options.mute {
        push_lit(&mut compressed_args, "-an");
    }
    push_arg(&mut compressed_args, output_path.clone());
    push_lit(&mut compressed_args, "-y");
    proof {
        assert(arg_views(compressed_args@) =~= preview_compressed_args(
            *options,
            ext,
            seek@,
            dur@,
            output_path@,
        ));
    }
    compressed_args
}

/// What to do once the two sequential sub-jobs have run.
pub struct PreviewDecision {
    /// Delete the untouched clip's file.
    pub delete_source: bool,
    /// Delete the compressed clip's file.
    pub delete_compressed: bool,
    /// The failure to report, if any.
    pub error: Option<JobError>,
}

/// Resolves a preview after its sub-jobs: success needs both clips; a
/// failed source clip is deleted; a compressed clip that failed after the
/// source clip succeeded takes both partial artifacts with it.
pub fn preview_outcome(source_ok: bool, compressed_ok: bool) -> (r: PreviewDecision)
    ensures
        (source_ok && compressed_ok) ==> !r.delete_source && !r.delete_compressed && r.error
            is None,
        !source_ok ==> r.delete_source && !r.delete_compressed && (r.error matches Some(
        JobError::RuntimeFailure(m)) && m@ == "Could not generate source preview."@),
        (source_ok && !compressed_ok) ==> r.delete_source && r.delete_compressed && (r.error
            matches Some(JobError::PartialArtifact(m)) && m@
            == "Could not generate compressed preview."@),
{
    if !source_ok {
        PreviewDecision {
            delete_source: true,
            delete_compressed: false,
            error: Some(
                JobError::RuntimeFailure(String::from_str("Could not generate source preview.")),
            ),
        }
    } else if !compressed_ok {
        PreviewDecision {
            delete_source: true,
            delete_compressed: true,
            error: Some(
                JobError::PartialArtifact(
                    String::from_str("Could not generate compressed preview."),
                ),
            ),
        }
    } else {
        PreviewDecision { delete_source: false, delete_compressed: false, error: None }
    }
}

} // verus!
