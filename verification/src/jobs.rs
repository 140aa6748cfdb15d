//! Job orchestration: resolving the job id, validating and planning each
//! job type, and turning a supervised process's outcome into the job's
//! result. Callers check for the source file, spawn the planned
//! invocation, drive the supervisor, and hand the outcome back.

use crate::builder::{
    arg_views, build_compression_invocation, build_probe_args, build_thumbnail_args,
    compression_args, probe_args, thumbnail_args, EncoderInvocation,
};
use crate::options::{
    parse_extension, CompressionOptions, CompressionResult, Extension, JobError, MediaInfo,
    QualityPreviewResult, VideoThumbnail,
};
use crate::paths::{build_output_file_name, join_path, joined_path, output_file_name};
use crate::preview::PreviewPlan;
use crate::supervisor::JobOutcome;
use vstd::prelude::*;

verus! {

/// Relies on nanoid::format with the crate's default entropy source and
/// its URL-safe 64-symbol alphabet: the result is exactly 21 of those
/// single-byte symbols.
#[verifier::external_body]
fn generate_id() -> (r: String)
    ensures
        r@.len() == 21,
{
    nanoid::format(nanoid::rngs::default, &nanoid::alphabet::SAFE, 21)
}

/// The id a job runs under: the caller's, or a freshly generated one.
pub fn resolve_job_id(requested: &Option<String>) -> (r: String)
    ensures
        match requested {
            Some(id) => r@ == id@,
            None => r@.len() == 21,
        },
{
    match requested {
        Some(id) => id.clone(),
        None => generate_id(),
    }
}

/// A planned compression: the invocation to spawn and where its artifact
/// will land.
pub struct CompressionPlan {
    pub invocation: EncoderInvocation,
    pub file_name: String,
    pub output_path: String,
}

/// Validates and plans a compression. The target extension must name a
/// supported container exactly; everything else is total.
pub fn compression_plan(options: &CompressionOptions, id: &String, assets_dir: &String) -> (r:
    Result<CompressionPlan, JobError>)
    ensures
        match parse_extension(options.extension@) {
            None => (r matches Err(JobError::InvalidExtension)),
            Some(ext) => (r matches Ok(p) && p.file_name@ == output_file_name(
                id@,
                options.extension@,
            ) && p.output_path@ == joined_path(
                assets_dir@,
                output_file_name(id@, options.extension@),
            ) && arg_views(p.invocation.args@) == compression_args(
                *options,
                ext,
                joined_path(assets_dir@, output_file_name(id@, options.extension@)),
            )),
        },
{
    let ext = match Extension::parse(options.extension.as_str()) {
        Some(e) => e,
        None => {
            return Err(JobError::InvalidExtension);
        },
    };
    let file_name = build_output_file_name(id, &options.extension);
    let output_path = join_path(assets_dir, &file_name);
    let invocation = build_compression_invocation(options, ext, &output_path);
    Ok(CompressionPlan { invocation, file_name, output_path })
}

/// Turns the supervisor's outcome into the compression's result: the
/// artifact on success, the distinguished cancelled error on
/// cancellation, and the corruption reason otherwise.
pub fn conclude_compression(outcome: JobOutcome, file_name: String, output_path: String) -> (r:
    Result<CompressionResult, JobError>)
    ensures
        outcome == JobOutcome::Success ==> (r matches Ok(c) && c.file_name == file_name
            && c.file_path == output_path),
        outcome == JobOutcome::Corrupted ==> (r matches Err(JobError::RuntimeFailure(m)) && m@
            == "Video is corrupted."@),
        outcome == JobOutcome::Cancelled ==> (r matches Err(JobError::Cancelled)),
{
    match outcome {
        JobOutcome::Success => Ok(CompressionResult { file_name, file_path: output_path }),
        JobOutcome::Corrupted => Err(
            JobError::RuntimeFailure(String::from_str("Video is corrupted.")),
        ),
        JobOutcome::Cancelled => Err(JobError::Cancelled),
    }
}

/// A planned thumbnail extraction.
pub struct ThumbnailPlan {
    pub args: Vec<String>,
    pub id: String,
    pub file_name: String,
    pub output_path: String,
}

/// Validates and plans a thumbnail extraction: the source must exist; the
/// artifact is a `jpg` named after the job id.
pub fn thumbnail_plan(video_path: &String, source_exists: bool, id: &String, assets_dir: &String)
    -> (r: Result<ThumbnailPlan, JobError>)
    ensures
        !source_exists ==> (r matches Err(JobError::NotFound)),
        source_exists ==> (r matches Ok(p) && p.id@ == id@ && p.file_name@ == id@ + ".jpg"@
            && p.output_path@ == joined_path(assets_dir@, id@ + ".jpg"@) && arg_views(p.args@)
            == thumbnail_args(video_path@, joined_path(assets_dir@, id@ + ".jpg"@))),
{
    if !source_exists {
        return Err(JobError::NotFound);
    }
    let mut file_name = id.clone();
    file_name.append(".jpg");
    let output_path = join_path(assets_dir, &file_name);
    let args = build_thumbnail_args(video_path, &output_path);
    Ok(ThumbnailPlan { args, id: id.clone(), file_name, output_path })
}

/// Finishes a thumbnail job from its process's success.
pub fn conclude_thumbnail(success: bool, plan: ThumbnailPlan) -> (r: Result<
    VideoThumbnail,
    JobError,
>)
    ensures
        success ==> (r matches Ok(t) && t.id == plan.id && t.file_name == plan.file_name
            && t.file_path == plan.output_path),
        !success ==> (r matches Err(JobError::RuntimeFailure(m)) && m@ == "Video is corrupted."@),
{
    if success {
        Ok(VideoThumbnail { id: plan.id, file_name: plan.file_name, file_path: plan.output_path })
    } else {
        Err(JobError::RuntimeFailure(String::from_str("Video is corrupted.")))
    }
}

/// Validates and plans a metadata probe: the source must exist.
pub fn probe_plan(video_path: &String, source_exists: bool) -> (r: Result<Vec<String>, JobError>)
    ensures
        !source_exists ==> (r matches Err(JobError::NotFound)),
        source_exists ==> (r matches Ok(a) && arg_views(a@) == probe_args(video_path@)),
{
    if !source_exists {
        return Err(JobError::NotFound);
    }
    Ok(build_probe_args(video_path))
}

/// Finishes a probe: the gathered metadata when the process could be
/// awaited, the corruption reason otherwise. Fields the stream never
/// yielded stay `None`.
pub fn conclude_probe(wait_ok: bool, info: MediaInfo) -> (r: Result<MediaInfo, JobError>)
    ensures
        wait_ok ==> r == Ok::<MediaInfo, JobError>(info),
        !wait_ok ==> (r matches Err(JobError::RuntimeFailure(m)) && m@
            == "Video file is corrupted"@),
{
    if wait_ok {
        Ok(info)
    } else {
        Err(JobError::RuntimeFailure(String::from_str("Video file is corrupted")))
    }
}

/// Assembles the result of a preview whose two sub-jobs both succeeded.
pub fn preview_result(plan: &PreviewPlan) -> (r: QualityPreviewResult)
    ensures
        r.source_file_name@ == plan.source_file_name@,
        r.source_file_path@ == plan.source_file_path@,
        r.compressed_file_name@ == plan.compressed_file_name@,
        r.compressed_file_path@ == plan.compressed_file_path@,
{
    QualityPreviewResult {
        source_file_name: plan.source_file_name.clone(),
        source_file_path: plan.source_file_path.clone(),
        compressed_file_name: plan.compressed_file_name.clone(),
        compressed_file_path: plan.compressed_file_path.clone(),
    }
}

} // verus!
