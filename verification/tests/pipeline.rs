use cascii::atlas::{build_glyph_atlas, CoverageSample, GlyphAtlas};
use cascii::cframe::read_cframe_to_frame_data;
use cascii::error::{ConfigFault, ConvertError, FrameFault};
use cascii::frame::AsciiFrameData;
use cascii::pipeline::{
    EncodePipeline, PipelineAction, PipelineEvent, PipelineStage, SourceMode, Waiting, BATCH_SIZE,
};
use cascii::progress::{Progress, ProgressPhase};
use cascii::render::render_ascii_frame_to_rgb;

struct MockEncoder {
    opened: Vec<(u32, u32)>,
    writes: Vec<Vec<u8>>,
    closes: usize,
    waits: usize,
    fail_open: bool,
    fail_write_at: Option<usize>,
    exit_success: bool,
    diagnostics: String,
    write_after_close: bool,
}

impl MockEncoder {
    fn new() -> Self {
        MockEncoder {
            opened: Vec::new(),
            writes: Vec::new(),
            closes: 0,
            waits: 0,
            fail_open: false,
            fail_write_at: None,
            exit_success: true,
            diagnostics: String::new(),
            write_after_close: false,
        }
    }
}

struct Run {
    outcome: Result<usize, ConvertError>,
    reports: Vec<Progress>,
    batches: Vec<(usize, Vec<String>)>,
    pipeline: EncodePipeline,
}

fn atlas() -> GlyphAtlas {
    let mut outlines: Vec<Vec<CoverageSample>> = vec![Vec::new(); 95];
    for (i, o) in outlines.iter_mut().enumerate() {
        o.push(CoverageSample { x: 0, y: 0, level: 100 + i as u8 });
    }
    build_glyph_atlas(2, 2, &outlines)
}

fn frame_named(name: &str) -> Result<AsciiFrameData, ConvertError> {
    if name.contains("bad") {
        return read_cframe_to_frame_data(&[1, 2, 3]);
    }
    let digit = name.bytes().filter(|b| b.is_ascii_digit()).last().unwrap_or(b'0');
    Ok(AsciiFrameData {
        ascii_text: vec![b'A' + (digit - b'0'), b'\n'],
        width_chars: 1,
        height_chars: 1,
        rgb_colors: vec![10, 20, 30],
    })
}

fn run(pipeline: EncodePipeline, names: &[&str], encoder: &mut MockEncoder) -> Run {
    let mut pipeline = pipeline;
    let mut reports = Vec::new();
    let mut batches = Vec::new();
    let mut event = PipelineEvent::SourcesListed {
        names: names.iter().map(|n| n.to_string()).collect(),
    };
    loop {
        assert!(pipeline.expects(&event));
        let (next, step) = pipeline.step(event);
        pipeline = next;
        if let Some(report) = step.report {
            reports.push(report);
        }
        event = match step.action {
            PipelineAction::ConvertBatch { first, sources } => {
                batches.push((first, sources.clone()));
                let converted: Result<Vec<AsciiFrameData>, ConvertError> =
                    sources.iter().map(|s| frame_named(s)).collect();
                match converted {
                    Ok(frames) => PipelineEvent::BatchConverted { frames },
                    Err(error) => PipelineEvent::BatchFailed { error },
                }
            }
            PipelineAction::OpenEncoder { pixel_width, pixel_height } => {
                if encoder.fail_open {
                    PipelineEvent::OpenFailed { detail: "no such tool".to_string() }
                } else {
                    encoder.opened.push((pixel_width, pixel_height));
                    PipelineEvent::EncoderOpened
                }
            }
            PipelineAction::WriteFrame { index, pixels } => {
                assert_eq!(index, encoder.writes.len());
                if encoder.closes > 0 {
                    encoder.write_after_close = true;
                }
                if encoder.fail_write_at == Some(index) {
                    PipelineEvent::WriteFailed { cause: "broken pipe".to_string() }
                } else {
                    encoder.writes.push(pixels);
                    PipelineEvent::FrameWritten
                }
            }
            PipelineAction::CloseInput => {
                encoder.closes += 1;
                PipelineEvent::InputClosed
            }
            PipelineAction::AwaitExit => {
                encoder.waits += 1;
                PipelineEvent::EncoderExited {
                    success: encoder.exit_success,
                    diagnostics: encoder.diagnostics.clone(),
                }
            }
            PipelineAction::Finish { frames } => {
                return Run { outcome: Ok(frames), reports, batches, pipeline };
            }
            PipelineAction::Fail { error } => {
                return Run { outcome: Err(error), reports, batches, pipeline };
            }
        };
    }
}

fn frames_pipeline(batch_size: usize) -> EncodePipeline {
    EncodePipeline::new(SourceMode::Frames, atlas(), false, batch_size)
}

const THREE: [&str; 5] =
    ["frame_0003.cframe", "notes.md", "frame_0001.cframe", "frame_0002.cframe", "frame_0001.txt"];

#[test]
fn three_frames_are_written_and_the_stream_closed_once() {
    let mut encoder = MockEncoder::new();
    let result = run(frames_pipeline(BATCH_SIZE), &THREE, &mut encoder);
    assert_eq!(result.outcome, Ok(3));
    assert_eq!(encoder.writes.len(), 3);
    assert_eq!(encoder.closes, 1);
    assert_eq!(encoder.waits, 1);
    assert_eq!(encoder.opened, vec![(2, 2)]);
    assert!(!encoder.write_after_close);
    let last = result.reports.last().unwrap();
    assert_eq!(last.phase, ProgressPhase::Complete);
    assert_eq!((last.completed, last.total, last.percent), (3, 3, 100));
    assert_eq!(last.message, "Conversion complete: 3 frames");
    let rendering: Vec<(usize, usize, u8)> = result
        .reports
        .iter()
        .filter(|r| r.phase == ProgressPhase::RenderingVideo)
        .map(|r| (r.completed, r.total, r.percent))
        .collect();
    assert_eq!(rendering, vec![(0, 3, 0), (1, 3, 33), (2, 3, 66), (3, 3, 100)]);
    assert_eq!(result.reports[3].message, "Rendering frame 3 of 3");
    assert_eq!(result.pipeline.stage(), PipelineStage::Done);
    assert_eq!(result.pipeline.frames_written(), 3);
    assert_eq!(result.pipeline.total_frames(), 3);
    assert_eq!(result.pipeline.close_requests(), 1);
    assert!(result.pipeline.encoder_opened());
}

#[test]
fn frames_are_written_in_the_order_of_their_names() {
    let mut encoder = MockEncoder::new();
    let result = run(frames_pipeline(2), &THREE, &mut encoder);
    assert_eq!(result.outcome, Ok(3));
    assert_eq!(
        result.batches,
        vec![
            (0, vec!["frame_0001.cframe".to_string(), "frame_0002.cframe".to_string()]),
            (2, vec!["frame_0003.cframe".to_string()]),
        ]
    );
    let atlas = atlas();
    for (i, name) in ["frame_0001.cframe", "frame_0002.cframe", "frame_0003.cframe"]
        .iter()
        .enumerate()
    {
        let expected = render_ascii_frame_to_rgb(&frame_named(name).unwrap(), &atlas, true);
        assert_eq!(encoder.writes[i], expected);
    }
    assert_eq!(encoder.writes[0][0..3], [5u8, 10, 15]);
}

#[test]
fn encoder_failure_after_two_frames_fails_the_job() {
    let mut encoder = MockEncoder::new();
    encoder.fail_write_at = Some(2);
    encoder.exit_success = false;
    encoder.diagnostics = "Conversion failed: disk full".to_string();
    let result = run(frames_pipeline(BATCH_SIZE), &THREE, &mut encoder);
    assert_eq!(encoder.writes.len(), 2);
    assert_eq!(encoder.closes, 1);
    assert_eq!(encoder.waits, 1);
    assert!(!encoder.write_after_close);
    let error = result.outcome.unwrap_err();
    assert_eq!(
        error,
        ConvertError::EncoderWrite {
            cause: "broken pipe".to_string(),
            diagnostics: "Conversion failed: disk full".to_string(),
        }
    );
    let message = error.message();
    assert!(message.contains("Conversion failed: disk full"));
    assert_eq!(message, "ffmpeg encoding failed: broken pipe (stderr: Conversion failed: disk full)");
    assert_eq!(result.pipeline.stage(), PipelineStage::Failed);
    assert_eq!(result.pipeline.frames_written(), 2);
    assert!(result.reports.iter().all(|r| r.phase != ProgressPhase::Complete));
}

#[test]
fn unsuccessful_exit_after_clean_writes_fails_the_job() {
    let mut encoder = MockEncoder::new();
    encoder.exit_success = false;
    encoder.diagnostics = "codec not found".to_string();
    let result = run(frames_pipeline(BATCH_SIZE), &THREE, &mut encoder);
    assert_eq!(encoder.writes.len(), 3);
    assert_eq!(encoder.closes, 1);
    assert_eq!(
        result.outcome,
        Err(ConvertError::EncoderExit { diagnostics: "codec not found".to_string() })
    );
    assert_eq!(
        ConvertError::EncoderExit { diagnostics: "codec not found".to_string() }.message(),
        "ffmpeg encoding failed: codec not found"
    );
    assert_eq!(result.pipeline.stage(), PipelineStage::Failed);
}

#[test]
fn a_bad_frame_fails_the_batch_and_still_closes_the_stream() {
    let names = ["frame_1.cframe", "frame_2.cframe", "frame_3_bad.cframe", "frame_4.cframe"];
    let mut encoder = MockEncoder::new();
    let result = run(frames_pipeline(2), &names, &mut encoder);
    assert_eq!(encoder.writes.len(), 2);
    assert_eq!(encoder.closes, 1);
    assert_eq!(encoder.waits, 1);
    assert_eq!(
        result.outcome,
        Err(ConvertError::CorruptFrame(FrameFault::TooSmall { len: 3 }))
    );
}

#[test]
fn a_bad_first_batch_never_starts_the_encoder() {
    let names = ["frame_1_bad.cframe", "frame_2.cframe"];
    let mut encoder = MockEncoder::new();
    let result = run(frames_pipeline(BATCH_SIZE), &names, &mut encoder);
    assert!(encoder.opened.is_empty());
    assert_eq!(encoder.closes, 0);
    assert_eq!(encoder.waits, 0);
    assert!(matches!(result.outcome, Err(ConvertError::CorruptFrame(_))));
    assert_eq!(result.pipeline.close_requests(), 0);
    assert!(!result.pipeline.encoder_opened());
}

#[test]
fn an_encoder_that_does_not_start_fails_the_job() {
    let mut encoder = MockEncoder::new();
    encoder.fail_open = true;
    let result = run(frames_pipeline(BATCH_SIZE), &THREE, &mut encoder);
    assert_eq!(
        result.outcome,
        Err(ConvertError::EncoderSpawn { detail: "no such tool".to_string() })
    );
    assert_eq!(encoder.closes, 0);
    assert!(encoder.writes.is_empty());
}

#[test]
fn a_directory_without_frames_fails_the_job() {
    let mut encoder = MockEncoder::new();
    let result = run(frames_pipeline(BATCH_SIZE), &["a.png", "b.md", "frame.txt"], &mut encoder);
    assert_eq!(result.outcome, Err(ConvertError::NoFrames));
    assert!(result.reports.is_empty());
    assert_eq!(encoder.closes, 0);
    assert_eq!(ConvertError::NoFrames.message(), "no frames found");
}

#[test]
fn text_frames_are_used_where_no_binary_frame_is() {
    let names = ["frame_2.txt", "other.txt", "frame_1.txt", "x.png"];
    let mut encoder = MockEncoder::new();
    let result = run(frames_pipeline(BATCH_SIZE), &names, &mut encoder);
    assert_eq!(result.outcome, Ok(2));
    assert_eq!(
        result.batches,
        vec![(0, vec!["frame_1.txt".to_string(), "frame_2.txt".to_string()])]
    );
    let white = render_ascii_frame_to_rgb(&frame_named("frame_1.txt").unwrap(), &atlas(), false);
    assert_eq!(encoder.writes[0], white);
}

#[test]
fn pictures_are_chosen_in_picture_mode() {
    let names = ["b.png", "frame_1.cframe", "a.png", "c.PNG"];
    let mut encoder = MockEncoder::new();
    let pipeline = EncodePipeline::new(SourceMode::Pictures, atlas(), true, 0);
    assert_eq!(pipeline.stage(), PipelineStage::Collecting);
    assert_eq!(pipeline.waiting(), Waiting::Sources);
    let result = run(pipeline, &names, &mut encoder);
    assert_eq!(result.outcome, Ok(2));
    assert_eq!(
        result.batches,
        vec![(0, vec!["a.png".to_string()]), (1, vec!["b.png".to_string()])]
    );
}

#[test]
fn reports_are_throttled_to_whole_percents() {
    let names: Vec<String> = (0..250).map(|i| format!("frame_{:04}.cframe", i)).collect();
    let refs: Vec<&str> = names.iter().map(|s| s.as_str()).collect();
    let mut encoder = MockEncoder::new();
    let result = run(frames_pipeline(BATCH_SIZE), &refs, &mut encoder);
    assert_eq!(result.outcome, Ok(250));
    assert_eq!(encoder.writes.len(), 250);
    assert_eq!(result.batches.iter().map(|b| b.1.len()).collect::<Vec<_>>(), vec![100, 100, 50]);
    let rendering: Vec<usize> = result
        .reports
        .iter()
        .filter(|r| r.phase == ProgressPhase::RenderingVideo)
        .map(|r| r.completed)
        .collect();
    assert_eq!(rendering.len(), 101);
    assert_eq!(rendering[0], 0);
    assert_eq!(rendering[1], 3);
    assert_eq!(*rendering.last().unwrap(), 250);
}

#[test]
fn unexpected_events_are_not_expected() {
    let pipeline = frames_pipeline(BATCH_SIZE);
    assert!(!pipeline.expects(&PipelineEvent::FrameWritten));
    assert!(!pipeline.expects(&PipelineEvent::InputClosed));
    assert!(pipeline.expects(&PipelineEvent::SourcesListed { names: Vec::new() }));
    let (pipeline, _) = pipeline.step(PipelineEvent::SourcesListed {
        names: vec!["frame_1.cframe".to_string(), "frame_2.cframe".to_string()],
    });
    assert_eq!(pipeline.stage(), PipelineStage::Converting);
    assert!(!pipeline.expects(&PipelineEvent::BatchConverted { frames: Vec::new() }));
    assert!(pipeline.expects(&PipelineEvent::BatchFailed { error: ConvertError::NoFrames }));
}

#[test]
fn a_frame_too_large_to_render_fails_the_job() {
    let pipeline = frames_pipeline(BATCH_SIZE);
    let (pipeline, _) = pipeline.step(PipelineEvent::SourcesListed {
        names: vec!["frame_1.cframe".to_string()],
    });
    let huge = AsciiFrameData {
        ascii_text: Vec::new(),
        width_chars: u32::MAX,
        height_chars: u32::MAX,
        rgb_colors: Vec::new(),
    };
    let (pipeline, step) = pipeline.step(PipelineEvent::BatchConverted { frames: vec![huge] });
    assert_eq!(pipeline.stage(), PipelineStage::Failed);
    assert!(matches!(
        step.action,
        PipelineAction::Fail {
            error: ConvertError::Config(ConfigFault::PictureTooLarge {
                width_chars: u32::MAX,
                height_chars: u32::MAX,
            })
        }
    ));
}
