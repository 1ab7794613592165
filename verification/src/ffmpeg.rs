//! The command lines of the external tool that decodes and encodes video.
//!
//! This module builds lists of arguments; it starts no process.

use vstd::prelude::*;
use vstd::string::*;
use crate::text::{decimal, push_decimal};

verus! {

/// Where the external tools are found.
#[derive(Debug, Clone, PartialEq, Eq)]
pub struct FfmpegConfig {
    /// The path of the encoder; the one on the search path where none
    /// is given.
    pub ffmpeg_path: Option<String>,
    /// The path of the prober; the one on the search path where none is
    /// given.
    pub ffprobe_path: Option<String>,
}

impl FfmpegConfig {
    /// The configuration that takes both tools from the search path.
    pub fn new() -> (config: FfmpegConfig)
        ensures
            config.ffmpeg_path is None,
            config.ffprobe_path is None,
    {
        FfmpegConfig { ffmpeg_path: None, ffprobe_path: None }
    }

    /// The same configuration with a path for the encoder.
    pub fn with_ffmpeg(self, path: String) -> (config: FfmpegConfig)
        ensures
            config.ffmpeg_path == Some(path),
            config.ffprobe_path == self.ffprobe_path,
    {
        FfmpegConfig { ffmpeg_path: Some(path), ffprobe_path: self.ffprobe_path }
    }

    /// The same configuration with a path for the prober.
    pub fn with_ffprobe(self, path: String) -> (config: FfmpegConfig)
        ensures
            config.ffmpeg_path == self.ffmpeg_path,
            config.ffprobe_path == Some(path),
    {
        FfmpegConfig { ffmpeg_path: self.ffmpeg_path, ffprobe_path: Some(path) }
    }

    /// The command that starts the encoder: its path, or `ffmpeg`.
    pub fn ffmpeg_cmd(&self) -> (cmd: &str)
        ensures
            cmd@ == match self.ffmpeg_path {
                Some(path) => path@,
                None => "ffmpeg"@,
            },
    {
        match &self.ffmpeg_path {
            Some(path) => path.as_str(),
            None => "ffmpeg",
        }
    }

    /// The command that starts the prober: its path, or `ffprobe`.
    pub fn ffprobe_cmd(&self) -> (cmd: &str)
        ensures
            cmd@ == match self.ffprobe_path {
                Some(path) => path@,
                None => "ffprobe"@,
            },
    {
        match &self.ffprobe_path {
            Some(path) => path.as_str(),
            None => "ffprobe",
        }
    }
}

/// The texts of a list of arguments.
pub open spec fn arg_texts(args: Seq<String>) -> Seq<Seq<char>> {
    Seq::new(args.len(), |i: int| args[i]@)
}

/// The size of a picture as the encoder reads it: width, `x`, height.
pub open spec fn size_text(pixel_width: u32, pixel_height: u32) -> Seq<char> {
    decimal(pixel_width as nat) + "x"@ + decimal(pixel_height as nat)
}

/// The arguments that describe the raw frames on the encoder's input.
pub open spec fn input_args(pixel_width: u32, pixel_height: u32, fps: u32) -> Seq<Seq<char>> {
    seq![
        "-y"@,
        "-loglevel"@,
        "error"@,
        "-f"@,
        "rawvideo"@,
        "-pix_fmt"@,
        "rgb24"@,
        "-s:v"@,
        size_text(pixel_width, pixel_height),
        "-r"@,
        decimal(fps as nat),
        "-i"@,
        "pipe:0"@,
    ]
}

/// The arguments that add a sound file, if there is one.
pub open spec fn audio_args(audio_path: Option<Seq<char>>) -> Seq<Seq<char>> {
    match audio_path {
        Some(path) => seq!["-i"@, path, "-c:a"@, "aac"@, "-b:a"@, "192k"@, "-shortest"@],
        None => Seq::empty(),
    }
}

/// The arguments that describe the video to write.
pub open spec fn output_args(crf: u8, output_path: Seq<char>) -> Seq<Seq<char>> {
    seq![
        "-c:v"@,
        "libx264"@,
        "-crf"@,
        decimal(crf as nat),
        "-preset"@,
        "medium"@,
        "-pix_fmt"@,
        "yuv420p"@,
        output_path,
    ]
}

/// The arguments of the encoder for one job.
pub open spec fn encoder_arg_list(
    pixel_width: u32,
    pixel_height: u32,
    fps: u32,
    crf: u8,
    audio_path: Option<Seq<char>>,
    output_path: Seq<char>,
) -> Seq<Seq<char>> {
    input_args(pixel_width, pixel_height, fps) + audio_args(audio_path) + output_args(
        crf,
        output_path,
    )
}

/// The text of a path that may be absent.
pub open spec fn path_text(path: Option<&str>) -> Option<Seq<char>> {
    match path {
        Some(p) => Some(p@),
        None => None,
    }
}

fn push_arg(args: &mut Vec<String>, arg: &str)
    ensures
        arg_texts(final(args)@) == arg_texts(old(args)@).push(arg@),
{
    args.push(String::from_str(arg));
    assert(arg_texts(args@) =~= arg_texts(old(args)@).push(arg@));
}

fn push_number(args: &mut Vec<String>, n: u128)
    ensures
        arg_texts(final(args)@) == arg_texts(old(args)@).push(decimal(n as nat)),
{
    let mut text = String::new();
    push_decimal(&mut text, n);
    assert(text@ =~= decimal(n as nat));
    args.push(text);
    assert(arg_texts(args@) =~= arg_texts(old(args)@).push(decimal(n as nat)));
}

/// Builds the arguments with which the encoder is started: raw RGB
/// frames of the given size and rate on its input, a sound file where one
/// is given, and an H.264 video of the given quality at the output path.
pub fn encoder_args(
    pixel_width: u32,
    pixel_height: u32,
    fps: u32,
    crf: u8,
    audio_path: Option<&str>,
    output_path: &str,
) -> (args: Vec<String>)
    ensures
        arg_texts(args@) == encoder_arg_list(
            pixel_width,
            pixel_height,
            fps,
            crf,
            path_text(audio_path),
            output_path@,
        ),
{
    let mut args: Vec<String> = Vec::new();
    assert(arg_texts(args@) =~= Seq::<Seq<char>>::empty());
    push_arg(&mut args, "-y");
    push_arg(&mut args, "-loglevel");
    push_arg(&mut args, "error");
    push_arg(&mut args, "-f");
    push_arg(&mut args, "rawvideo");
    push_arg(&mut args, "-pix_fmt");
    push_arg(&mut args, "rgb24");
    push_arg(&mut args, "-s:v");
    let mut size = String::new();
    push_decimal(&mut size, pixel_width as u128);
    size.append("x");
    push_decimal(&mut size, pixel_height as u128);
    assert(size@ =~= size_text(pixel_width, pixel_height));
    push_arg(&mut args, size.as_str());
    push_arg(&mut args, "-r");
    push_number(&mut args, fps as u128);
    push_arg(&mut args, "-i");
    push_arg(&mut args, "pipe:0");
    assert(arg_texts(args@) =~= input_args(pixel_width, pixel_height, fps));
    if let Some(audio) = audio_path {
        push_arg(&mut args, "-i");
        push_arg(&mut args, audio);
        push_arg(&mut args, "-c:a");
        push_arg(&mut args, "aac");
        push_arg(&mut args, "-b:a");
        push_arg(&mut args, "192k");
        push_arg(&mut args, "-shortest");
    }
    assert(arg_texts(args@) =~= input_args(pixel_width, pixel_height, fps) + audio_args(
        path_text(audio_path),
    ));
    push_arg(&mut args, "-c:v");
    push_arg(&mut args, "libx264");
    push_arg(&mut args, "-crf");
    push_number(&mut args, crf as u128);
    push_arg(&mut args, "-preset");
    push_arg(&mut args, "medium");
    push_arg(&mut args, "-pix_fmt");
    push_arg(&mut args, "yuv420p");
    push_arg(&mut args, output_path);
    assert(arg_texts(args@) =~= encoder_arg_list(
        pixel_width,
        pixel_height,
        fps,
        crf,
        path_text(audio_path),
        output_path@,
    ));
    args
}

/// Whether a start time asks for a seek: it is given, not empty and not
/// `0`.
pub open spec fn seeks(start: Option<Seq<char>>) -> bool {
    start matches Some(s) && s.len() > 0 && s != seq!['0']
}

/// The arguments that select a part of the input by time.
///
/// A start time that asks for a seek comes first, as `-ss`. An end time
/// that is given and not empty limits the duration, as `-t`: to the end
/// time itself where there is no seek, and to `span`, the time between
/// start and end, where there is one; without a span nothing is limited.
pub open spec fn seek_args(start: Option<Seq<char>>) -> Seq<Seq<char>> {
    if seeks(start) {
        seq!["-ss"@, start->0]
    } else {
        Seq::empty()
    }
}

/// The arguments that limit the duration; see `seek_args`.
pub open spec fn limit_args(
    start: Option<Seq<char>>,
    end: Option<Seq<char>>,
    span: Option<Seq<char>>,
) -> Seq<Seq<char>> {
    if end matches Some(e) && e.len() > 0 {
        if seeks(start) {
            match span {
                Some(t) => seq!["-t"@, t],
                None => Seq::empty(),
            }
        } else {
            seq!["-t"@, end->0]
        }
    } else {
        Seq::empty()
    }
}

fn is_seek(start: Option<&str>) -> (yes: bool)
    ensures
        yes == seeks(path_text(start)),
{
    match start {
        Some(s) => {
            let len = s.unicode_len();
            if len == 0 {
                false
            } else if len == 1 && s.get_char(0) == '0' {
                assert(s@ =~= seq!['0']);
                false
            } else {
                true
            }
        },
        None => false,
    }
}

fn push_window_start(args: &mut Vec<String>, start: Option<&str>)
    ensures
        arg_texts(final(args)@) == arg_texts(old(args)@) + seek_args(path_text(start)),
{
    if is_seek(start) {
        push_arg(args, "-ss");
        push_arg(args, start.unwrap());
    }
    assert(arg_texts(args@) =~= arg_texts(old(args)@) + seek_args(path_text(start)));
}

fn push_window_end(
    args: &mut Vec<String>,
    start: Option<&str>,
    end: Option<&str>,
    span: Option<&str>,
)
    ensures
        arg_texts(final(args)@) == arg_texts(old(args)@) + limit_args(
            path_text(start),
            path_text(end),
            path_text(span),
        ),
{
    if let Some(e) = end {
        if e.unicode_len() > 0 {
            if is_seek(start) {
                if let Some(t) = span {
                    push_arg(args, "-t");
                    push_arg(args, t);
                }
            } else {
                push_arg(args, "-t");
                push_arg(args, e);
            }
        }
    }
    assert(arg_texts(args@) =~= arg_texts(old(args)@) + limit_args(
        path_text(start),
        path_text(end),
        path_text(span),
    ));
}

/// The arguments that extract the frames of a video as pictures.
pub open spec fn frame_extraction_arg_list(
    input: Seq<char>,
    pattern: Seq<char>,
    filter: Seq<char>,
    start: Option<Seq<char>>,
    end: Option<Seq<char>>,
    span: Option<Seq<char>>,
    with_progress: bool,
) -> Seq<Seq<char>> {
    seq!["-loglevel"@, "error"@] + (if with_progress {
        seq!["-progress"@, "pipe:1"@, "-nostats"@]
    } else {
        Seq::empty()
    }) + seek_args(start) + seq!["-i"@, input] + limit_args(start, end, span) + seq![
        "-vf"@,
        filter,
        pattern,
    ]
}

/// Builds the arguments that extract the frames of a video: the part
/// between start and end, passed through the filter chain, written to
/// the files that the pattern names.
pub fn frame_extraction_args(
    input: &str,
    pattern: &str,
    filter: &str,
    start: Option<&str>,
    end: Option<&str>,
    span: Option<&str>,
    with_progress: bool,
) -> (args: Vec<String>)
    ensures
        arg_texts(args@) == frame_extraction_arg_list(
            input@,
            pattern@,
            filter@,
            path_text(start),
            path_text(end),
            path_text(span),
            with_progress,
        ),
{
    let mut args: Vec<String> = Vec::new();
    assert(arg_texts(args@) =~= Seq::<Seq<char>>::empty());
    push_arg(&mut args, "-loglevel");
    push_arg(&mut args, "error");
    if with_progress {
        push_arg(&mut args, "-progress");
        push_arg(&mut args, "pipe:1");
        push_arg(&mut args, "-nostats");
    }
    push_window_start(&mut args, start);
    push_arg(&mut args, "-i");
    push_arg(&mut args, input);
    push_window_end(&mut args, start, end, span);
    push_arg(&mut args, "-vf");
    push_arg(&mut args, filter);
    push_arg(&mut args, pattern);
    assert(arg_texts(args@) =~= frame_extraction_arg_list(
        input@,
        pattern@,
        filter@,
        path_text(start),
        path_text(end),
        path_text(span),
        with_progress,
    ));
    args
}

/// The arguments that extract the sound of a video as an MP3 file.
pub open spec fn audio_extraction_arg_list(
    input: Seq<char>,
    output: Seq<char>,
    start: Option<Seq<char>>,
    end: Option<Seq<char>>,
    span: Option<Seq<char>>,
) -> Seq<Seq<char>> {
    seq!["-loglevel"@, "error"@, "-y"@] + seek_args(start) + seq!["-i"@, input] + limit_args(
        start,
        end,
        span,
    ) + seq!["-vn"@, "-acodec"@, "libmp3lame"@, "-q:a"@, "2"@, output]
}

/// Builds the arguments that extract the sound of a video.
pub fn audio_extraction_args(
    input: &str,
    output: &str,
    start: Option<&str>,
    end: Option<&str>,
    span: Option<&str>,
) -> (args: Vec<String>)
    ensures
        arg_texts(args@) == audio_extraction_arg_list(
            input@,
            output@,
            path_text(start),
            path_text(end),
            path_text(span),
        ),
{
    let mut args: Vec<String> = Vec::new();
    assert(arg_texts(args@) =~= Seq::<Seq<char>>::empty());
    push_arg(&mut args, "-loglevel");
    push_arg(&mut args, "error");
    push_arg(&mut args, "-y");
    push_window_start(&mut args, start);
    push_arg(&mut args, "-i");
    push_arg(&mut args, input);
    push_window_end(&mut args, start, end, span);
    push_arg(&mut args, "-vn");
    push_arg(&mut args, "-acodec");
    push_arg(&mut args, "libmp3lame");
    push_arg(&mut args, "-q:a");
    push_arg(&mut args, "2");
    push_arg(&mut args, output);
    assert(arg_texts(args@) =~= audio_extraction_arg_list(
        input@,
        output@,
        path_text(start),
        path_text(end),
        path_text(span),
    ));
    args
}

} // verus!
