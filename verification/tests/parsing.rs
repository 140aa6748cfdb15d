use compresso::options::{Dimensions, MediaInfo};
use compresso::paths::{
    build_compressed_output_name, build_output_file_name, extension_of, is_supported_video_extension,
    is_supported_video_file, join_path,
};
use compresso::probe::{parse_dimension_line, parse_duration_line, parse_fps_line};
use compresso::progress::{parse_out_time_us, progress_value};
use compresso::timecode::parse_time_to_us;

#[test]
fn time_with_microseconds() {
    assert_eq!(parse_time_to_us("00:00:01.000000"), Some(1_000_000));
}

#[test]
fn time_with_short_fraction() {
    assert_eq!(parse_time_to_us("01:02:03.5"), Some(3_723_500_000));
}

#[test]
fn time_without_fraction() {
    assert_eq!(parse_time_to_us("00:00:10"), Some(10_000_000));
}

#[test]
fn time_with_surrounding_spaces() {
    assert_eq!(parse_time_to_us(" 00:01:40.32 "), Some(100_320_000));
}

#[test]
fn time_rejects_two_fields() {
    assert_eq!(parse_time_to_us("02:03"), None);
}

#[test]
fn time_rejects_four_fields() {
    assert_eq!(parse_time_to_us("1:2:3:4"), None);
}

#[test]
fn time_rejects_letters() {
    assert_eq!(parse_time_to_us("aa:bb:cc"), None);
}

#[test]
fn time_rejects_empty_seconds() {
    assert_eq!(parse_time_to_us("00:00:"), None);
}

#[test]
fn out_time_ms_line() {
    assert_eq!(parse_out_time_us("out_time_ms=1234567"), Some(1_234_567));
}

#[test]
fn out_time_timestamp_line() {
    assert_eq!(parse_out_time_us("out_time=00:00:02.000000"), Some(2_000_000));
}

#[test]
fn out_time_other_line() {
    assert_eq!(parse_out_time_us("frame=12"), None);
}

#[test]
fn progress_value_captures_raw_text() {
    assert_eq!(
        progress_value("out_time=00:00:02.000000"),
        Some("00:00:02.000000".to_string())
    );
}

#[test]
fn progress_value_needs_content() {
    assert_eq!(progress_value("out_time="), None);
    assert_eq!(progress_value("speed=1.0x"), None);
}

#[test]
fn duration_line_parses() {
    let line = "  Duration: 00:01:40.00, start: 0.000000, bitrate: 535 kb/s";
    assert_eq!(parse_duration_line(line), Some(100_000_000));
}

#[test]
fn duration_line_invalid_timestamp() {
    assert_eq!(parse_duration_line("  Duration: N/A, start: 0.0"), None);
    assert_eq!(parse_duration_line("  bitrate: 535 kb/s"), None);
}

#[test]
fn dimension_line_parses() {
    let line = "  Stream #0:0: Video: h264 (High), yuv420p(progressive), 1920x1080 [SAR 1:1 DAR 16:9], 30 fps";
    assert_eq!(
        parse_dimension_line(line),
        Some(Dimensions { width: 1920, height: 1080 })
    );
}

#[test]
fn dimension_line_needs_video_marker() {
    assert_eq!(parse_dimension_line("  Stream #0:1: Audio: aac, 44100 Hz"), None);
}

#[test]
fn fps_line_parses_fraction() {
    let line = "  Stream #0:0: Video: h264, yuv420p, 1280x720, 29.97 fps, 30 tbr";
    assert_eq!(parse_fps_line(line), Some(29_970));
}

#[test]
fn fps_line_parses_integer() {
    assert_eq!(parse_fps_line("something 30 fps more"), Some(30_000));
}

#[test]
fn fps_line_absent() {
    assert_eq!(parse_fps_line("no frame rate here"), None);
}

#[test]
fn probe_absorbs_opportunistically() {
    let mut info = MediaInfo::empty();
    assert!(!info.is_complete());
    compresso::probe::absorb_probe_line(
        &mut info,
        "  Duration: 00:00:10.00, start: 0.000000, bitrate: 535 kb/s",
    );
    assert_eq!(info.duration_us, Some(10_000_000));
    assert_eq!(info.dimensions, None);
    compresso::probe::absorb_probe_line(
        &mut info,
        "  Stream #0:0: Video: h264, yuv420p, 640x480, 25 fps",
    );
    assert_eq!(info.dimensions, Some(Dimensions { width: 640, height: 480 }));
    assert_eq!(info.fps_milli, Some(25_000));
    assert!(info.is_complete());
}

#[test]
fn probe_keeps_first_finding() {
    let mut info = MediaInfo::empty();
    compresso::probe::absorb_probe_line(&mut info, "  Duration: 00:00:10.00, x");
    compresso::probe::absorb_probe_line(&mut info, "  Duration: 00:00:20.00, x");
    assert_eq!(info.duration_us, Some(10_000_000));
}

#[test]
fn progress_event_carries_raw_value() {
    let event = compresso::progress::make_progress_event(
        &"job1".to_string(),
        &"job1.mp4".to_string(),
        "00:00:05.000000".to_string(),
    );
    assert_eq!(event.video_id, "job1");
    assert_eq!(event.file_name, "job1.mp4");
    assert_eq!(event.current_duration, "00:00:05.000000");
}

#[test]
fn supported_extensions_ignore_case() {
    assert!(is_supported_video_extension("MP4"));
    assert!(is_supported_video_extension("webm"));
    assert!(is_supported_video_extension("MkV"));
    assert!(!is_supported_video_extension("txt"));
    assert!(!is_supported_video_extension(""));
}

#[test]
fn supported_files_by_extension() {
    assert!(is_supported_video_file("/tmp/movie.MKV"));
    assert!(is_supported_video_file("clip.mp4"));
    assert!(!is_supported_video_file("/tmp/archive.tar.gz"));
    assert!(!is_supported_video_file("/tmp/.hidden"));
    assert!(!is_supported_video_file("noextension"));
}

#[test]
fn extension_extraction() {
    assert_eq!(extension_of("/a/b/c.mp4"), Some("mp4".to_string()));
    assert_eq!(extension_of("c:\\media\\clip.avi"), Some("avi".to_string()));
    assert_eq!(extension_of("/a/b/plain"), None);
    assert_eq!(extension_of("/a/b/.bashrc"), None);
}

#[test]
fn path_composition() {
    let dir = "assets".to_string();
    let name = build_output_file_name(&"job1".to_string(), &"mp4".to_string());
    assert_eq!(name, "job1.mp4");
    assert_eq!(join_path(&dir, &name), "assets/job1.mp4");
}

#[test]
fn compressed_output_names() {
    let stem = "holiday".to_string();
    let ext = "mp4".to_string();
    assert_eq!(build_compressed_output_name(&stem, &ext, 0), "holiday_compressed.mp4");
    assert_eq!(build_compressed_output_name(&stem, &ext, 2), "holiday_compressed_2.mp4");
}
