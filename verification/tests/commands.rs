use cascii::error::{ConfigFault, ConvertError, GridFault};
use cascii::ffmpeg::{audio_extraction_args, encoder_args, frame_extraction_args, FfmpegConfig};
use cascii::preprocessing::{
    build_frame_extraction_vf, find_preprocess_preset, preprocess_presets, preset_names,
    resolve_preprocess_filter, TempFileGuard,
};
use cascii::progress::{percent_done, should_report, should_report_since, Progress, ProgressPhase};
use cascii::text::{decimal_string, eq_ignore_ascii_case, trim, trim_end_matches};

fn strings(list: &[&str]) -> Vec<String> {
    list.iter().map(|s| s.to_string()).collect()
}

#[test]
fn numbers_are_written_in_decimal() {
    assert_eq!(decimal_string(0), "0");
    assert_eq!(decimal_string(7), "7");
    assert_eq!(decimal_string(10), "10");
    assert_eq!(decimal_string(1234567890), "1234567890");
    assert_eq!(decimal_string(u64::MAX as u128), u64::MAX.to_string());
    assert_eq!(decimal_string(u128::MAX), u128::MAX.to_string());
}

#[test]
fn trimming_removes_white_space() {
    assert_eq!(trim("  a b \t\n"), "a b");
    assert_eq!(trim(""), "");
    assert_eq!(trim(" \u{a0}\u{3000} "), "");
    assert_eq!(trim("x"), "x");
    assert_eq!(trim("\u{2003}é \u{85}"), "é");
    for s in ["", " ", "a", " a", "a ", " a b ", "\n\ta\r\n", "\u{1680}x\u{205f}", "a\u{200b}"] {
        assert_eq!(trim(s), s.trim());
    }
    assert_eq!(trim_end_matches("a,b,,,", ','), "a,b");
    assert_eq!(trim_end_matches(",,,", ','), "");
    assert_eq!(trim_end_matches("abc", ','), "abc");
}

#[test]
fn ascii_case_is_ignored() {
    assert!(eq_ignore_ascii_case("Contours", "cONTOURS"));
    assert!(eq_ignore_ascii_case("", ""));
    assert!(!eq_ignore_ascii_case("a", "ab"));
    assert!(!eq_ignore_ascii_case("é", "É"));
    assert!(eq_ignore_ascii_case("é-X", "é-x"));
    assert!(!eq_ignore_ascii_case("[", "{"));
    assert!(!eq_ignore_ascii_case("@", "`"));
}

#[test]
fn presets_are_found_by_name() {
    let presets = preprocess_presets();
    assert_eq!(presets.len(), 9);
    assert_eq!(presets[0].name, "contours");
    assert_eq!(presets[8].name, "soft-glow");
    let found = find_preprocess_preset("VIVID").unwrap();
    assert_eq!(found.name, "vivid");
    assert_eq!(
        found.filter,
        "eq=saturation=1.8:contrast=1.2:brightness=0.02,unsharp=5:5:0.8:5:5:0.0"
    );
    assert_eq!(find_preprocess_preset("contours-soft").unwrap().name, "contours-soft");
    assert!(find_preprocess_preset("contour").is_none());
    assert!(find_preprocess_preset(" vivid").is_none());
    assert!(find_preprocess_preset("").is_none());
    assert_eq!(
        preset_names(),
        "contours, contours-soft, contours-strong, bw-contrast, noir-detail, vivid, warm-pop, cool-pop, soft-glow"
    );
}

#[test]
fn filters_are_resolved() {
    assert_eq!(resolve_preprocess_filter(None, None), Ok(None));
    assert_eq!(
        resolve_preprocess_filter(Some("  hue=s=0 "), Some("vivid")),
        Ok(Some("hue=s=0".to_string()))
    );
    assert_eq!(
        resolve_preprocess_filter(Some("   "), Some("vivid")),
        Err(ConvertError::Config(ConfigFault::EmptyFilter))
    );
    assert_eq!(
        resolve_preprocess_filter(None, Some(" Bw-Contrast ")),
        Ok(Some("format=gray,eq=contrast=2.2:brightness=-0.08".to_string()))
    );
    assert_eq!(
        resolve_preprocess_filter(None, Some(" sepia ")),
        Err(ConvertError::UnknownPreset { name: " sepia ".to_string() })
    );
    let unknown = resolve_preprocess_filter(None, Some("sepia")).unwrap_err().message();
    assert_eq!(
        unknown,
        "Unknown preprocessing preset 'sepia'. Available presets: contours, contours-soft, contours-strong, bw-contrast, noir-detail, vivid, warm-pop, cool-pop, soft-glow"
    );
    for preset in preprocess_presets() {
        assert!(unknown.contains(preset.name));
    }
    assert_eq!(
        ConvertError::Config(ConfigFault::EmptyFilter).message(),
        "--preprocess cannot be empty"
    );
}

#[test]
fn extraction_filter_is_built() {
    assert_eq!(build_frame_extraction_vf(400, 30, None), "scale=400:-2,fps=30");
    assert_eq!(build_frame_extraction_vf(80, 24, Some("")), "scale=80:-2,fps=24");
    assert_eq!(build_frame_extraction_vf(80, 24, Some(" ,, ")), "scale=80:-2,fps=24");
    assert_eq!(
        build_frame_extraction_vf(80, 24, Some(" format=gray,, ")),
        "format=gray,scale=80:-2,fps=24"
    );
    assert_eq!(
        build_frame_extraction_vf(0, u32::MAX, Some("a , ")),
        "a ,scale=0:-2,fps=4294967295"
    );
}

#[test]
fn temp_file_guard_keeps_its_path() {
    let guard = TempFileGuard::new("/tmp/cascii_preprocessed_1_2.png".to_string());
    assert_eq!(guard.path(), "/tmp/cascii_preprocessed_1_2.png");
}

#[test]
fn tool_paths_default_to_the_search_path() {
    let config = FfmpegConfig::new();
    assert_eq!(config.ffmpeg_cmd(), "ffmpeg");
    assert_eq!(config.ffprobe_cmd(), "ffprobe");
    let config = config.with_ffmpeg("/opt/ffmpeg".to_string());
    assert_eq!(config.ffmpeg_cmd(), "/opt/ffmpeg");
    assert_eq!(config.ffprobe_cmd(), "ffprobe");
    let config = config.with_ffprobe("/opt/ffprobe".to_string());
    assert_eq!(config.ffmpeg_cmd(), "/opt/ffmpeg");
    assert_eq!(config.ffprobe_cmd(), "/opt/ffprobe");
}

#[test]
fn encoder_arguments_without_sound() {
    assert_eq!(
        encoder_args(800, 800, 30, 18, None, "out.mp4"),
        strings(&[
            "-y", "-loglevel", "error", "-f", "rawvideo", "-pix_fmt", "rgb24", "-s:v", "800x800",
            "-r", "30", "-i", "pipe:0", "-c:v", "libx264", "-crf", "18", "-preset", "medium",
            "-pix_fmt", "yuv420p", "out.mp4",
        ])
    );
}

#[test]
fn encoder_arguments_with_sound() {
    assert_eq!(
        encoder_args(1280, 722, 24, 0, Some("/tmp/x/audio.mp3"), "a b.mp4"),
        strings(&[
            "-y", "-loglevel", "error", "-f", "rawvideo", "-pix_fmt", "rgb24", "-s:v", "1280x722",
            "-r", "24", "-i", "pipe:0", "-i", "/tmp/x/audio.mp3", "-c:a", "aac", "-b:a", "192k",
            "-shortest", "-c:v", "libx264", "-crf", "0", "-preset", "medium", "-pix_fmt",
            "yuv420p", "a b.mp4",
        ])
    );
}

#[test]
fn extraction_arguments_select_by_time() {
    assert_eq!(
        frame_extraction_args("in.mp4", "o/frame_%04d.png", "scale=80:-2,fps=24", None, None, None, false),
        strings(&["-loglevel", "error", "-i", "in.mp4", "-vf", "scale=80:-2,fps=24", "o/frame_%04d.png"])
    );
    assert_eq!(
        frame_extraction_args("in.mp4", "p", "f", Some("0"), Some("10"), Some("10"), false),
        strings(&["-loglevel", "error", "-i", "in.mp4", "-t", "10", "-vf", "f", "p"])
    );
    assert_eq!(
        frame_extraction_args("in.mp4", "p", "f", Some("00:00:05"), Some("00:00:15"), Some("10"), true),
        strings(&[
            "-loglevel", "error", "-progress", "pipe:1", "-nostats", "-ss", "00:00:05", "-i",
            "in.mp4", "-t", "10", "-vf", "f", "p",
        ])
    );
    assert_eq!(
        frame_extraction_args("in.mp4", "p", "f", Some("5"), Some("3"), None, false),
        strings(&["-loglevel", "error", "-ss", "5", "-i", "in.mp4", "-vf", "f", "p"])
    );
    assert_eq!(
        frame_extraction_args("in.mp4", "p", "f", Some(""), Some(""), None, false),
        strings(&["-loglevel", "error", "-i", "in.mp4", "-vf", "f", "p"])
    );
    assert_eq!(
        frame_extraction_args("in.mp4", "p", "f", Some("00"), None, Some("9"), false),
        strings(&["-loglevel", "error", "-ss", "00", "-i", "in.mp4", "-vf", "f", "p"])
    );
}

#[test]
fn sound_extraction_arguments() {
    assert_eq!(
        audio_extraction_args("in.mkv", "o/audio.mp3", Some("1.5"), Some("4"), Some("2.5")),
        strings(&[
            "-loglevel", "error", "-y", "-ss", "1.5", "-i", "in.mkv", "-t", "2.5", "-vn",
            "-acodec", "libmp3lame", "-q:a", "2", "o/audio.mp3",
        ])
    );
    assert_eq!(
        audio_extraction_args("in.mkv", "a.mp3", None, Some("4"), None),
        strings(&[
            "-loglevel", "error", "-y", "-i", "in.mkv", "-t", "4", "-vn", "-acodec",
            "libmp3lame", "-q:a", "2", "a.mp3",
        ])
    );
}

#[test]
fn percentages_are_whole() {
    assert_eq!(percent_done(0, 3), 0);
    assert_eq!(percent_done(1, 3), 33);
    assert_eq!(percent_done(2, 3), 66);
    assert_eq!(percent_done(3, 3), 100);
    assert_eq!(percent_done(5, 0), 0);
    assert_eq!(percent_done(7, 3), 100);
    assert_eq!(percent_done(usize::MAX, usize::MAX), 100);
}

#[test]
fn reports_come_with_each_new_percent() {
    assert!(should_report(1, 3));
    assert!(should_report(3, 3));
    assert!(!should_report(1, 1000));
    assert!(!should_report(9, 1000));
    assert!(should_report(10, 1000));
    assert!(!should_report(11, 1000));
    assert!(should_report(1000, 1000));
    let mut reported = 0;
    for current in 1..=100_000usize {
        if should_report(current, 100_000) {
            reported += 1;
        }
    }
    assert_eq!(reported, 100);
    assert!(should_report_since(10, 1000, 0));
    assert!(!should_report_since(10, 1000, 1));
    assert!(should_report_since(1000, 1000, 100));
}

#[test]
fn progress_reports_carry_their_message() {
    let p = Progress::extracting_frames();
    assert_eq!((p.phase, p.completed, p.total, p.percent), (ProgressPhase::ExtractingFrames, 0, 0, 0));
    assert_eq!(p.message, "Extracting frames from video...");
    let p = Progress::extracting_audio();
    assert_eq!(p.phase, ProgressPhase::ExtractingAudio);
    assert_eq!(p.message, "Extracting audio from video...");
    let p = Progress::converting_frames(5, 20);
    assert_eq!((p.phase, p.completed, p.total, p.percent), (ProgressPhase::ConvertingFrames, 5, 20, 25));
    assert_eq!(p.message, "Converting frame 5 of 20");
    let p = Progress::rendering_video(2, 3);
    assert_eq!((p.phase, p.completed, p.total, p.percent), (ProgressPhase::RenderingVideo, 2, 3, 66));
    assert_eq!(p.message, "Rendering frame 2 of 3");
    let p = Progress::complete(42);
    assert_eq!((p.phase, p.completed, p.total, p.percent), (ProgressPhase::Complete, 42, 42, 100));
    assert_eq!(p.message, "Conversion complete: 42 frames");
}

#[test]
fn failures_describe_themselves() {
    assert_eq!(
        ConvertError::Config(ConfigFault::NonAsciiRamp { index: 12 }).message(),
        "the character ramp holds a byte outside ASCII at index 12"
    );
    assert_eq!(
        ConvertError::MalformedGrid(GridFault::Ragged { line: 3, expected: 80, found: 79 }).message(),
        "line 3 holds 79 characters, not 80"
    );
    assert_eq!(
        ConvertError::Decode { detail: "bad magic".to_string() }.message(),
        "cannot decode image: bad magic"
    );
    assert_eq!(
        ConvertError::EncoderSpawn { detail: "not found".to_string() }.message(),
        "cannot start the encoder: not found"
    );
    let e = ConvertError::Config(ConfigFault::CropRows { top: 4, bottom: 5, rows: 9 });
    assert_eq!(e.copy(), e);
    assert_eq!(e.message(), "Crop rows (4 top + 5 bottom = 9) exceed frame height (9)");
    assert_eq!(
        ConvertError::Config(ConfigFault::CropColumns { left: 1, right: 80, columns: 80 }).message(),
        "Crop columns (1 left + 80 right = 81) exceed frame width (80)"
    );
    assert_eq!(
        ConvertError::CorruptFrame(cascii::error::FrameFault::TooSmall { len: 3 }).message(),
        "cframe file too small: 3 bytes"
    );
    assert_eq!(
        ConvertError::CorruptFrame(cascii::error::FrameFault::Truncated {
            expected_body: 48,
            actual_body: 12,
        })
        .message(),
        "cframe file truncated: expected 48 body bytes, got 12"
    );
    assert_eq!(ConvertError::MalformedGrid(GridFault::Empty).message(), "empty frame file");
}
