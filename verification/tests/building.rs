use compresso::builder::{
    build_compression_invocation, build_probe_args, build_thumbnail_args, crf_for_quality,
    quality_to_crf,
};
use compresso::filters::{build_filter_graph, build_transform_filters};
use compresso::options::{CompressionOptions, Dimensions, Extension, Preset, TransformAction};

fn options(extension: &str) -> CompressionOptions {
    CompressionOptions {
        video_path: "in.mp4".to_string(),
        extension: extension.to_string(),
        preset: None,
        video_id: None,
        mute: false,
        quality: 70,
        dimensions: None,
        fps: None,
        transforms: vec![],
    }
}

fn views(args: &[String]) -> Vec<&str> {
    args.iter().map(|s| s.as_str()).collect()
}

#[test]
fn quality_endpoints() {
    assert_eq!(quality_to_crf(100), 24);
    assert_eq!(quality_to_crf(0), 36);
    assert_eq!(quality_to_crf(70), 28);
    assert_eq!(quality_to_crf(50), 30);
}

#[test]
fn quality_monotone_over_range() {
    let mut previous = quality_to_crf(0);
    for q in 1..=100u16 {
        let crf = quality_to_crf(q);
        assert!((24..=36).contains(&crf));
        assert!(crf <= previous);
        previous = crf;
    }
}

#[test]
fn quality_out_of_range_falls_back() {
    assert_eq!(crf_for_quality(101), 28);
    assert_eq!(crf_for_quality(9999), 28);
}

#[test]
fn webm_default_preset_invocation() {
    let mut opts = options("webm");
    opts.preset = Some(Preset::Default);
    let inv = build_compression_invocation(&opts, Extension::Webm, &"assets/v1.webm".to_string());
    let expected = vec![
        "-i", "in.mp4", "-hide_banner", "-progress", "-", "-nostats", "-loglevel", "error",
        "-pix_fmt", "yuv420p", "-c:v", "libx264", "-b:v", "0", "-movflags", "+faststart",
        "-preset", "slow", "-qp", "0", "-crf", "28", "-vf", "pad=ceil(iw/2)*2:ceil(ih/2)*2",
        "-c:v", "libvpx-vp9", "assets/v1.webm", "-y",
    ];
    assert_eq!(views(&inv.args), expected);
    assert_eq!(inv.filter_graph, "pad=ceil(iw/2)*2:ceil(ih/2)*2");
}

#[test]
fn thunderbolt_invocation_is_minimal() {
    let mut opts = options("mp4");
    opts.preset = Some(Preset::Thunderbolt);
    opts.quality = 100;
    let inv = build_compression_invocation(&opts, Extension::Mp4, &"out.mp4".to_string());
    let expected = vec![
        "-i", "in.mp4", "-hide_banner", "-progress", "-", "-nostats", "-loglevel", "error",
        "-c:v", "libx264", "-crf", "24", "-vf", "pad=ceil(iw/2)*2:ceil(ih/2)*2", "out.mp4", "-y",
    ];
    assert_eq!(views(&inv.args), expected);
}

#[test]
fn trailing_flags_keep_their_order() {
    let mut opts = options("webm");
    opts.mute = true;
    opts.fps = Some("24".to_string());
    opts.dimensions = Some(Dimensions { width: 640, height: 360 });
    let inv = build_compression_invocation(&opts, Extension::Webm, &"o.webm".to_string());
    let expected = vec![
        "-i", "in.mp4", "-hide_banner", "-progress", "-", "-nostats", "-loglevel", "error",
        "-c:v", "libx264", "-crf", "28", "-vf",
        "scale=640:360,pad=ceil(iw/2)*2:ceil(ih/2)*2", "-r", "24", "-c:v", "libvpx-vp9", "-an",
        "o.webm", "-y",
    ];
    assert_eq!(views(&inv.args), expected);
}

#[test]
fn building_twice_is_identical() {
    let mut opts = options("mov");
    opts.preset = Some(Preset::Default);
    opts.quality = 33;
    opts.transforms = vec![
        TransformAction::Rotate { angle: 90 },
        TransformAction::Crop { left: 1, top: 2, width: 3, height: 4 },
    ];
    let out = "assets/x.mov".to_string();
    let first = build_compression_invocation(&opts, Extension::Mov, &out);
    let second = build_compression_invocation(&opts, Extension::Mov, &out);
    assert_eq!(first.args, second.args);
    assert_eq!(first.filter_graph, second.filter_graph);
}

#[test]
fn thumbnail_invocation() {
    let args = build_thumbnail_args(&"clip.mov".to_string(), &"assets/t.jpg".to_string());
    let expected = vec![
        "-i", "clip.mov", "-ss", "00:00:01.00", "-vframes", "1", "assets/t.jpg", "-y",
    ];
    assert_eq!(views(&args), expected);
}

#[test]
fn probe_invocation() {
    let args = build_probe_args(&"clip.mov".to_string());
    assert_eq!(views(&args), vec!["-i", "clip.mov", "-hide_banner"]);
}

#[test]
fn rotation_quarter_turns_agree() {
    let a = build_transform_filters(&vec![TransformAction::Rotate { angle: 90 }]);
    let b = build_transform_filters(&vec![TransformAction::Rotate { angle: -270 }]);
    let c = build_transform_filters(&vec![TransformAction::Rotate { angle: 450 }]);
    assert_eq!(a, "transpose=1");
    assert_eq!(a, b);
    assert_eq!(a, c);
}

#[test]
fn rotation_other_directions() {
    assert_eq!(
        build_transform_filters(&vec![TransformAction::Rotate { angle: -90 }]),
        "transpose=2"
    );
    assert_eq!(
        build_transform_filters(&vec![TransformAction::Rotate { angle: 180 }]),
        "hflip,vflip"
    );
    assert_eq!(build_transform_filters(&vec![TransformAction::Rotate { angle: 45 }]), "");
}

#[test]
fn flips_apply_in_order() {
    let filters = build_transform_filters(&vec![
        TransformAction::Flip { horizontal: true, vertical: false },
        TransformAction::Rotate { angle: 270 },
        TransformAction::Flip { horizontal: true, vertical: true },
    ]);
    assert_eq!(filters, "hflip,transpose=2,hflip,vflip");
}

#[test]
fn only_last_crop_appears() {
    let filters = build_transform_filters(&vec![
        TransformAction::Crop { left: 1, top: 2, width: 3, height: 4 },
        TransformAction::Rotate { angle: 90 },
        TransformAction::Crop { left: 5, top: 6, width: 7, height: 8 },
    ]);
    assert_eq!(filters, "transpose=1,crop=7:8:5:6");
    assert!(!filters.contains("crop=3"));
}

#[test]
fn crop_takes_negative_offsets() {
    let filters = build_transform_filters(&vec![TransformAction::Crop {
        left: -10,
        top: 0,
        width: 300,
        height: 200,
    }]);
    assert_eq!(filters, "crop=300:200:-10:0");
}

#[test]
fn filter_graph_orders_transform_scale_pad() {
    let actions = vec![TransformAction::Rotate { angle: 90 }];
    let graph = build_filter_graph(&actions, &Some(Dimensions { width: 100, height: 50 }));
    assert_eq!(graph, "transpose=1,scale=100:50,pad=ceil(iw/2)*2:ceil(ih/2)*2");
    let plain = build_filter_graph(&vec![], &None);
    assert_eq!(plain, "pad=ceil(iw/2)*2:ceil(ih/2)*2");
}
