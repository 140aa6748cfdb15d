use compresso::jobs::{
    compression_plan, conclude_compression, conclude_probe, conclude_thumbnail, probe_plan,
    resolve_job_id, thumbnail_plan,
};
use compresso::options::{CompressionOptions, Extension, JobError, MediaInfo};
use compresso::preview::{
    clamp_preview_seconds, compute_seek_us, preview_outcome, preview_plan, preview_validate,
    seek_arg_string,
};
use compresso::supervisor::{
    JobOutcome, Phase, StepEffect, Supervisor, SupervisorEvent,
};

fn options(extension: &str) -> CompressionOptions {
    CompressionOptions {
        video_path: "in.mp4".to_string(),
        extension: extension.to_string(),
        preset: None,
        video_id: None,
        mute: false,
        quality: 70,
        dimensions: None,
        fps: None,
        transforms: vec![],
    }
}

fn run_to_completion(sup: &mut Supervisor, success: bool) -> StepEffect {
    sup.step(&SupervisorEvent::Started);
    sup.step(&SupervisorEvent::Exited { success })
}

#[test]
fn natural_completion() {
    let mut sup = Supervisor::new("job1".to_string());
    assert_eq!(sup.phase, Phase::Spawned);
    let effect = run_to_completion(&mut sup, true);
    assert!(effect.kill);
    assert!(effect.deregister);
    assert_eq!(sup.phase, Phase::Completed);
    assert_eq!(sup.outcome(), Some(JobOutcome::Success));
}

#[test]
fn failing_exit_reports_corruption() {
    let mut sup = Supervisor::new("job1".to_string());
    run_to_completion(&mut sup, false);
    assert_eq!(sup.outcome(), Some(JobOutcome::Corrupted));
}

#[test]
fn matching_cancel_kills_and_wins_over_exit_code() {
    let mut sup = Supervisor::new("job1".to_string());
    sup.step(&SupervisorEvent::Started);
    let effect = sup.step(&SupervisorEvent::CancelRequest { video_id: "job1".to_string() });
    assert!(effect.kill);
    assert!(!effect.deregister);
    assert!(sup.cancel_requested);
    sup.step(&SupervisorEvent::Exited { success: false });
    assert_eq!(sup.outcome(), Some(JobOutcome::Cancelled));
}

#[test]
fn foreign_cancel_is_ignored() {
    let mut sup = Supervisor::new("job1".to_string());
    sup.step(&SupervisorEvent::Started);
    let effect = sup.step(&SupervisorEvent::CancelRequest { video_id: "other".to_string() });
    assert!(!effect.kill);
    assert!(!sup.cancel_requested);
    sup.step(&SupervisorEvent::Exited { success: true });
    assert_eq!(sup.outcome(), Some(JobOutcome::Success));
}

#[test]
fn cancel_after_completion_changes_nothing() {
    let mut sup = Supervisor::new("job1".to_string());
    run_to_completion(&mut sup, true);
    let effect = sup.step(&SupervisorEvent::CancelRequest { video_id: "job1".to_string() });
    assert!(!effect.kill);
    assert!(!effect.deregister);
    assert_eq!(sup.phase, Phase::Completed);
    assert_eq!(sup.outcome(), Some(JobOutcome::Success));
}

#[test]
fn teardown_kills_without_cancel_flag() {
    let mut sup = Supervisor::new("job1".to_string());
    sup.step(&SupervisorEvent::Started);
    let effect = sup.step(&SupervisorEvent::HostTeardown);
    assert!(effect.kill);
    assert!(!sup.cancel_requested);
    sup.step(&SupervisorEvent::Exited { success: false });
    assert_eq!(sup.outcome(), Some(JobOutcome::Corrupted));
}

#[test]
fn compression_conclusions() {
    let ok = conclude_compression(JobOutcome::Success, "f.mp4".to_string(), "a/f.mp4".to_string());
    match ok {
        Ok(result) => {
            assert_eq!(result.file_name, "f.mp4");
            assert_eq!(result.file_path, "a/f.mp4");
        },
        Err(_) => panic!("success must yield the artifact"),
    }
    let corrupted =
        conclude_compression(JobOutcome::Corrupted, "f".to_string(), "a/f".to_string());
    match corrupted {
        Err(e) => assert_eq!(e.message(), "Video is corrupted."),
        Ok(_) => panic!("corruption must fail"),
    }
    let cancelled =
        conclude_compression(JobOutcome::Cancelled, "f".to_string(), "a/f".to_string());
    match cancelled {
        Err(e) => {
            assert!(matches!(e, JobError::Cancelled));
            assert_eq!(e.message(), "CANCELLED");
        },
        Ok(_) => panic!("cancellation must fail"),
    }
}

#[test]
fn job_id_resolution() {
    assert_eq!(resolve_job_id(&Some("abc".to_string())), "abc");
    let generated = resolve_job_id(&None);
    assert_eq!(generated.chars().count(), 21);
}

#[test]
fn compression_plan_validates_extension() {
    let plan = compression_plan(&options("ogg"), &"id1".to_string(), &"assets".to_string());
    match plan {
        Err(e) => {
            assert!(matches!(e, JobError::InvalidExtension));
            assert_eq!(e.message(), "Invalid convert to extension.");
        },
        Ok(_) => panic!("unsupported extension must be rejected"),
    }
    let upper = compression_plan(&options("MP4"), &"id1".to_string(), &"assets".to_string());
    assert!(matches!(upper, Err(JobError::InvalidExtension)));
}

#[test]
fn compression_plan_names_artifact() {
    let plan = compression_plan(&options("mp4"), &"id1".to_string(), &"assets".to_string())
        .expect("valid extension");
    assert_eq!(plan.file_name, "id1.mp4");
    assert_eq!(plan.output_path, "assets/id1.mp4");
    assert_eq!(plan.invocation.args.last().map(|s| s.as_str()), Some("-y"));
    assert_eq!(
        plan.invocation.args[plan.invocation.args.len() - 2],
        "assets/id1.mp4"
    );
}

#[test]
fn thumbnail_plan_checks_source() {
    let missing = thumbnail_plan(
        &"gone.mp4".to_string(),
        false,
        &"id2".to_string(),
        &"assets".to_string(),
    );
    match missing {
        Err(e) => assert_eq!(e.message(), "File does not exist in given path."),
        Ok(_) => panic!("a missing source must be rejected"),
    }
    let plan = thumbnail_plan(
        &"clip.mp4".to_string(),
        true,
        &"id2".to_string(),
        &"assets".to_string(),
    )
    .expect("source exists");
    assert_eq!(plan.file_name, "id2.jpg");
    assert_eq!(plan.output_path, "assets/id2.jpg");
    let args: Vec<&str> = plan.args.iter().map(|s| s.as_str()).collect();
    assert_eq!(
        args,
        vec!["-i", "clip.mp4", "-ss", "00:00:01.00", "-vframes", "1", "assets/id2.jpg", "-y"]
    );
    let thumb = conclude_thumbnail(true, plan).expect("successful extraction");
    assert_eq!(thumb.id, "id2");
    assert_eq!(thumb.file_name, "id2.jpg");
}

#[test]
fn probe_lifecycle() {
    assert!(matches!(
        probe_plan(&"gone.mp4".to_string(), false),
        Err(JobError::NotFound)
    ));
    let args = probe_plan(&"clip.mp4".to_string(), true).expect("source exists");
    let views: Vec<&str> = args.iter().map(|s| s.as_str()).collect();
    assert_eq!(views, vec!["-i", "clip.mp4", "-hide_banner"]);
    let info = MediaInfo::empty();
    assert!(conclude_probe(true, info).is_ok());
    match conclude_probe(false, info) {
        Err(e) => assert_eq!(e.message(), "Video file is corrupted"),
        Ok(_) => panic!("a failed wait must fail the probe"),
    }
}

#[test]
fn preview_length_clamps() {
    assert_eq!(clamp_preview_seconds(None), 20);
    assert_eq!(clamp_preview_seconds(Some(0)), 1);
    assert_eq!(clamp_preview_seconds(Some(121)), 120);
    assert_eq!(clamp_preview_seconds(Some(45)), 45);
}

#[test]
fn preview_seek_midpoint() {
    assert_eq!(compute_seek_us(Some(100_000_000), 20), 40_000_000);
    assert_eq!(compute_seek_us(Some(10_000_000), 20), 0);
    assert_eq!(compute_seek_us(None, 20), 0);
}

#[test]
fn seek_argument_rendering() {
    assert_eq!(seek_arg_string(40_000_000), "40.000");
    assert_eq!(seek_arg_string(0), "0.000");
    assert_eq!(seek_arg_string(1_234_567), "1.234");
}

#[test]
fn preview_validation() {
    assert!(matches!(
        preview_validate(&options("mp4"), false),
        Err(JobError::NotFound)
    ));
    assert!(matches!(
        preview_validate(&options("ogg"), true),
        Err(JobError::InvalidExtension)
    ));
    assert!(matches!(
        preview_validate(&options("webm"), true),
        Ok(Extension::Webm)
    ));
}

#[test]
fn preview_plan_names_and_window() {
    let opts = options("webm");
    let plan = preview_plan(
        &opts,
        Extension::Webm,
        Some(100_000_000),
        None,
        &"idp".to_string(),
        &"assets".to_string(),
    );
    assert_eq!(plan.preview_seconds, 20);
    assert_eq!(plan.seek_us, 40_000_000);
    assert_eq!(plan.source_file_name, "idp-preview-source.mp4");
    assert_eq!(plan.compressed_file_name, "idp-preview-compressed.webm");
    assert_eq!(plan.source_file_path, "assets/idp-preview-source.mp4");
    assert_eq!(plan.compressed_file_path, "assets/idp-preview-compressed.webm");
    let source: Vec<&str> = plan.source_args.iter().map(|s| s.as_str()).collect();
    let expected_source = vec![
        "-i", "in.mp4", "-hide_banner", "-nostats", "-loglevel", "error", "-ss", "40.000",
        "-t", "20", "-pix_fmt", "yuv420p", "-c:v", "libx264", "-preset", "veryfast", "-crf",
        "18", "-movflags", "+faststart", "-vf", "pad=ceil(iw/2)*2:ceil(ih/2)*2", "-an",
        "assets/idp-preview-source.mp4", "-y",
    ];
    assert_eq!(source, expected_source);
    let compressed: Vec<&str> = plan.compressed_args.iter().map(|s| s.as_str()).collect();
    let expected_compressed = vec![
        "-i", "in.mp4", "-hide_banner", "-nostats", "-loglevel", "error", "-ss", "40.000",
        "-t", "20", "-c:v", "libx264", "-crf", "28", "-vf", "pad=ceil(iw/2)*2:ceil(ih/2)*2",
        "-c:v", "libvpx-vp9", "assets/idp-preview-compressed.webm", "-y",
    ];
    assert_eq!(compressed, expected_compressed);
}

#[test]
fn preview_mp4_keeps_mp4_clip() {
    let opts = options("mov");
    let plan = preview_plan(
        &opts,
        Extension::Mov,
        None,
        Some(10),
        &"idq".to_string(),
        &"assets".to_string(),
    );
    assert_eq!(plan.compressed_file_name, "idq-preview-compressed.mp4");
    assert_eq!(plan.seek_us, 0);
}

#[test]
fn preview_success_keeps_both_files() {
    let decision = preview_outcome(true, true);
    assert!(!decision.delete_source);
    assert!(!decision.delete_compressed);
    assert!(decision.error.is_none());
}

#[test]
fn preview_source_failure_cleans_source() {
    let decision = preview_outcome(false, false);
    assert!(decision.delete_source);
    assert!(!decision.delete_compressed);
    match decision.error {
        Some(e) => assert_eq!(e.message(), "Could not generate source preview."),
        None => panic!("a failed source clip must fail the preview"),
    }
}

#[test]
fn preview_partial_failure_cleans_both() {
    let decision = preview_outcome(true, false);
    assert!(decision.delete_source);
    assert!(decision.delete_compressed);
    match decision.error {
        Some(e) => {
            assert!(matches!(e, JobError::PartialArtifact(_)));
            assert_eq!(e.message(), "Could not generate compressed preview.");
        },
        None => panic!("a failed compressed clip must fail the preview"),
    }
}

#[test]
fn extension_names_parse_back() {
    for ext in [
        Extension::Mp4,
        Extension::Mov,
        Extension::Webm,
        Extension::Avi,
        Extension::Mkv,
    ] {
        assert!(matches!(Extension::parse(ext.name()), Some(e) if e == ext));
    }
}

#[test]
fn error_messages() {
    assert_eq!(JobError::InvalidExtension.message(), "Invalid convert to extension.");
    assert_eq!(JobError::NotFound.message(), "File does not exist in given path.");
    assert_eq!(JobError::Cancelled.message(), "CANCELLED");
    assert_eq!(JobError::SpawnFailure("no sidecar".to_string()).message(), "no sidecar");
    assert_eq!(JobError::IoFailure("pipe".to_string()).message(), "pipe");
}
