use crunchy_cli_core::transcode::{
    args_have_copy_pair, build_transcode_spec, is_stdout_target, path_extension, target_is_mp4,
    transcoder_command_args, validate_output_target, TargetError, TranscodePreset,
};

fn strings(v: &[&str]) -> Vec<String> {
    v.iter().map(|s| s.to_string()).collect()
}

#[test]
fn no_subtitle_no_preset_output_is_copy_pair() {
    let ts = build_transcode_spec(&None, &None, "out.mp4".to_string());
    assert_eq!(ts.input_args, strings(&[]));
    assert_eq!(ts.output_args, strings(&["-c:v", "copy", "-c:a", "copy"]));
    assert_eq!(ts.target, "out.mp4".to_string());
}

#[test]
fn building_twice_yields_identical_arguments() {
    let sub = Some("sub.ass".to_string());
    let a = build_transcode_spec(&None, &sub, "out.mkv".to_string());
    let b = build_transcode_spec(&None, &sub, "out.mkv".to_string());
    assert_eq!(a.input_args, b.input_args);
    assert_eq!(a.output_args, b.output_args);
    assert_eq!(a.target, b.target);
}

#[test]
fn burn_in_strips_copy_codec_pair() {
    let sub = Some("/tmp/sub.ass".to_string());
    let ts = build_transcode_spec(&None, &sub, "out.mkv".to_string());
    assert_eq!(ts.output_args, strings(&["-vf", "subtitles=/tmp/sub.ass"]));
    assert!(!args_have_copy_pair(&ts.output_args));
}

#[test]
fn mp4_target_soft_muxes_subtitle() {
    let sub = Some("/tmp/sub.ass".to_string());
    let ts = build_transcode_spec(&None, &sub, "out.mp4".to_string());
    assert_eq!(
        ts.output_args,
        strings(&[
            "-i",
            "/tmp/sub.ass",
            "-movflags",
            "faststart",
            "-c:s",
            "mov_text",
            "-disposition:s:s:0",
            "forced",
            "-c:v",
            "copy",
            "-c:a",
            "copy",
        ])
    );
}

#[test]
fn preset_expansion_is_kept_on_both_sides() {
    let preset = TranscodePreset::new(
        strings(&["-hwaccel", "auto"]),
        strings(&["-c:v", "libx265", "-c:a", "aac"]),
    );
    let ts = build_transcode_spec(&Some(preset), &None, "out.mp4".to_string());
    assert_eq!(ts.input_args, strings(&["-hwaccel", "auto"]));
    assert_eq!(ts.output_args, strings(&["-c:v", "libx265", "-c:a", "aac"]));
}

#[test]
fn preset_survives_burn_in_unchanged() {
    let preset = TranscodePreset::new(
        strings(&[]),
        strings(&["-c:v", "libx265", "-c:a", "aac"]),
    );
    let sub = Some("s.ass".to_string());
    let ts = build_transcode_spec(&Some(preset), &sub, "out.mkv".to_string());
    assert_eq!(
        ts.output_args,
        strings(&["-vf", "subtitles=s.ass", "-c:v", "libx265", "-c:a", "aac"])
    );
    assert!(!args_have_copy_pair(&ts.output_args));
}

#[test]
fn burn_in_strips_preset_copy_pair() {
    // Re-encode video, copy audio: burning forces the audio-copy pair out,
    // the other flags keep their order.
    let preset = TranscodePreset::new(
        strings(&[]),
        strings(&["-c:v", "libx265", "-c:a", "copy"]),
    );
    let sub = Some("s.ass".to_string());
    let ts = build_transcode_spec(&Some(preset), &sub, "out.mkv".to_string());
    assert_eq!(
        ts.output_args,
        strings(&["-vf", "subtitles=s.ass", "-c:v", "libx265"])
    );
    assert!(!args_have_copy_pair(&ts.output_args));
}

#[test]
fn soft_mux_keeps_preset_copy_pair() {
    let preset = TranscodePreset::new(
        strings(&[]),
        strings(&["-c:v", "libx265", "-c:a", "copy"]),
    );
    let sub = Some("s.ass".to_string());
    let ts = build_transcode_spec(&Some(preset), &sub, "out.mp4".to_string());
    assert_eq!(
        ts.output_args,
        strings(&[
            "-i",
            "s.ass",
            "-movflags",
            "faststart",
            "-c:s",
            "mov_text",
            "-disposition:s:s:0",
            "forced",
            "-c:v",
            "libx265",
            "-c:a",
            "copy",
        ])
    );
}

#[test]
fn strip_removes_each_adjacent_pair_only() {
    let stripped = crunchy_cli_core::transcode::strip_copy_pair_args(&strings(&[
        "-b:v", "1500K", "-c:v", "copy", "-preset", "fast", "-c:a", "copy",
    ]));
    assert_eq!(stripped, strings(&["-b:v", "1500K", "-preset", "fast"]));
}

#[test]
fn command_args_are_ordered_exactly() {
    let sub = Some("s.ass".to_string());
    let ts = build_transcode_spec(&None, &sub, "out.mkv".to_string());
    let args = transcoder_command_args(&ts, &"/tmp/video.ts".to_string());
    assert_eq!(
        args,
        strings(&[
            "-y",
            "-i",
            "/tmp/video.ts",
            "-vf",
            "subtitles=s.ass",
            "out.mkv",
        ])
    );
}

#[test]
fn extension_extraction_follows_final_component() {
    assert_eq!(path_extension(&"video.mp4".to_string()), Some("mp4".to_string()));
    assert_eq!(path_extension(&"a.b.c".to_string()), Some("c".to_string()));
    assert_eq!(path_extension(&"dir.d/file.mkv".to_string()), Some("mkv".to_string()));
    assert_eq!(path_extension(&"noext".to_string()), None);
    assert_eq!(path_extension(&"dir.d/noext".to_string()), None);
    assert_eq!(path_extension(&".hidden".to_string()), None);
    assert_eq!(path_extension(&"trailing.".to_string()), Some("".to_string()));
}

#[test]
fn mp4_detection_matches_extension() {
    assert!(target_is_mp4(&"video.mp4".to_string()));
    assert!(!target_is_mp4(&"video.mkv".to_string()));
    assert!(!target_is_mp4(&"-".to_string()));
}

#[test]
fn stdout_sentinel_is_recognised() {
    assert!(is_stdout_target(&"-".to_string()));
    assert!(!is_stdout_target(&"out.mp4".to_string()));
}

#[test]
fn output_target_validation() {
    assert!(validate_output_target(&"video.mp4".to_string()).is_ok());
    assert!(validate_output_target(&"-".to_string()).is_ok());
    assert_eq!(
        validate_output_target(&"noext".to_string()),
        Err(TargetError::MissingExtension)
    );
    assert_eq!(
        validate_output_target(&"trailing.".to_string()),
        Err(TargetError::MissingExtension)
    );
}

#[test]
fn command_args_include_preset_input_side() {
    let preset = TranscodePreset::new(
        strings(&["-hwaccel", "auto"]),
        strings(&["-c:v", "libx265"]),
    );
    let ts = build_transcode_spec(&Some(preset), &None, "out.mp4".to_string());
    let args = transcoder_command_args(&ts, &"in.ts".to_string());
    assert_eq!(
        args,
        strings(&["-y", "-hwaccel", "auto", "-i", "in.ts", "-c:v", "libx265", "out.mp4"])
    );
}
