//! Progress reports of a job, and the rule that keeps their number small.

use vstd::prelude::*;
use vstd::string::*;
use crate::text::{decimal, push_decimal};

verus! {

/// The phase that a job is in.
#[derive(Debug, Clone, Copy, PartialEq, Eq)]
pub enum ProgressPhase {
    /// Frames are being taken out of a video.
    ExtractingFrames,
    /// The sound is being taken out of a video.
    ExtractingAudio,
    /// Pictures are being converted to frames.
    ConvertingFrames,
    /// Frames are being rendered and sent to the encoder.
    RenderingVideo,
    /// The job is done.
    Complete,
}

/// One progress report.
#[derive(Debug, Clone, PartialEq, Eq)]
pub struct Progress {
    /// The phase of the job.
    pub phase: ProgressPhase,
    /// How much of the phase is done.
    pub completed: usize,
    /// How much the phase has to do; zero where that is not known.
    pub total: usize,
    /// The part that is done, in whole percent.
    pub percent: u8,
    /// A line of text for the user.
    pub message: String,
}

/// The part of `total` that `completed` is, in whole percent and no more
/// than a hundred; zero where the total is zero.
pub open spec fn percent_of(completed: int, total: int) -> int {
    if total <= 0 {
        0
    } else if completed * 100 / total > 100 {
        100
    } else {
        completed * 100 / total
    }
}

/// Computes the part that is done in whole percent.
pub fn percent_done(completed: usize, total: usize) -> (percent: u8)
    ensures
        percent == percent_of(completed as int, total as int),
        percent <= 100,
{
    if total == 0 {
        0
    } else {
        let part: u128 = (completed as u128) * 100 / (total as u128);
        if part > 100 {
            100
        } else {
            part as u8
        }
    }
}

/// Whether the `current`-th finished item of `total` is worth a report:
/// it is the last one, or with it the whole percentage has changed.
pub open spec fn is_reported(current: int, total: int) -> bool {
    current == total || percent_of(current, total) > percent_of(current - 1, total)
}

/// Tells whether the `current`-th finished item is worth a report.
pub fn should_report(current: usize, total: usize) -> (report: bool)
    requires
        current >= 1,
    ensures
        report == is_reported(current as int, total as int),
{
    current == total || percent_done(current, total) > percent_done(current - 1, total)
}

/// Tells whether an item finished out of turn is worth a report, given
/// the percentage of the last report.
pub fn should_report_since(current: usize, total: usize, last_percent: u8) -> (report: bool)
    ensures
        report == (current == total || percent_of(current as int, total as int) > last_percent),
{
    current == total || percent_done(current, total) > last_percent
}

/// The text `<before><completed> of <total>`.
pub open spec fn count_message(before: Seq<char>, completed: usize, total: usize) -> Seq<char> {
    before + decimal(completed as nat) + " of "@ + decimal(total as nat)
}

fn count_text(before: &str, completed: usize, total: usize) -> (message: String)
    ensures
        message@ == count_message(before@, completed, total),
{
    let mut message = String::from_str(before);
    push_decimal(&mut message, completed as u128);
    message.append(" of ");
    push_decimal(&mut message, total as u128);
    assert(message@ =~= count_message(before@, completed, total));
    message
}

/// A part of a whole in tenths of a percent, rounded to the nearest
/// tenth, halves upwards; zero where the whole is zero.
pub open spec fn tenths_of(part: int, whole: int) -> int {
    if whole <= 0 {
        0
    } else {
        (2000 * part + whole) / (2 * whole)
    }
}

/// Tenths of a percent as a text with one decimal.
pub open spec fn tenths_text(tenths: int) -> Seq<char> {
    decimal((tenths / 10) as nat) + "."@ + decimal((tenths % 10) as nat)
}

/// A 64-bit number as a machine-sized number: the number itself, or the
/// largest one where it does not fit.
pub open spec fn capped(n: u64) -> usize {
    if n > usize::MAX {
        usize::MAX
    } else {
        n as usize
    }
}

fn cap(n: u64) -> (c: usize)
    ensures
        c == capped(n),
{
    if n > usize::MAX as u64 {
        usize::MAX
    } else {
        n as usize
    }
}

impl Progress {
    /// The report that the extraction of frames has begun.
    pub fn extracting_frames() -> (p: Progress)
        ensures
            p.phase == ProgressPhase::ExtractingFrames,
            p.completed == 0,
            p.total == 0,
            p.percent == 0,
            p.message@ == "Extracting frames from video..."@,
    {
        Progress {
            phase: ProgressPhase::ExtractingFrames,
            completed: 0,
            total: 0,
            percent: 0,
            message: String::from_str("Extracting frames from video..."),
        }
    }

    /// The report that the extraction of frames has reached a time in a
    /// video of a given duration, both in microseconds. The message names
    /// the part that is done in tenths of a percent.
    pub fn extracting_frames_progress(current_time_us: u64, total_duration_us: u64) -> (p: Progress)
        ensures
            p.phase == ProgressPhase::ExtractingFrames,
            p.completed == capped(current_time_us),
            p.total == capped(total_duration_us),
            p.percent == percent_of(current_time_us as int, total_duration_us as int),
            p.message@ == "Extracting frames: "@ + tenths_text(
                tenths_of(current_time_us as int, total_duration_us as int),
            ) + "%"@,
    {
        let tenths: u128 = if total_duration_us == 0 {
            0
        } else {
            (2000 * (current_time_us as u128) + (total_duration_us as u128)) / (2 * (
            total_duration_us as u128))
        };
        let percent: u8 = if total_duration_us == 0 {
            0
        } else {
            let part: u128 = (current_time_us as u128) * 100 / (total_duration_us as u128);
            if part > 100 {
                100
            } else {
                part as u8
            }
        };
        let mut message = String::from_str("Extracting frames: ");
        push_decimal(&mut message, tenths / 10);
        message.append(".");
        push_decimal(&mut message, tenths % 10);
        message.append("%");
        proof {
            assert(message@ =~= "Extracting frames: "@ + tenths_text(
                tenths_of(current_time_us as int, total_duration_us as int),
            ) + "%"@);
        }
        Progress {
            phase: ProgressPhase::ExtractingFrames,
            completed: cap(current_time_us),
            total: cap(total_duration_us),
            percent,
            message,
        }
    }

    /// The report that the extraction of the sound has begun.
    pub fn extracting_audio() -> (p: Progress)
        ensures
            p.phase == ProgressPhase::ExtractingAudio,
            p.completed == 0,
            p.total == 0,
            p.percent == 0,
            p.message@ == "Extracting audio from video..."@,
    {
        Progress {
            phase: ProgressPhase::ExtractingAudio,
            completed: 0,
            total: 0,
            percent: 0,
            message: String::from_str("Extracting audio from video..."),
        }
    }

    /// The report that `completed` of `total` pictures are converted.
    pub fn converting_frames(completed: usize, total: usize) -> (p: Progress)
        ensures
            p.phase == ProgressPhase::ConvertingFrames,
            p.completed == completed,
            p.total == total,
            p.percent == percent_of(completed as int, total as int),
            p.message@ == count_message("Converting frame "@, completed, total),
    {
        Progress {
            phase: ProgressPhase::ConvertingFrames,
            completed,
            total,
            percent: percent_done(completed, total),
            message: count_text("Converting frame ", completed, total),
        }
    }

    /// The report that `completed` of `total` frames are rendered.
    pub fn rendering_video(completed: usize, total: usize) -> (p: Progress)
        ensures
            p.phase == ProgressPhase::RenderingVideo,
            p.completed == completed,
            p.total == total,
            p.percent == percent_of(completed as int, total as int),
            p.message@ == count_message("Rendering frame "@, completed, total),
    {
        Progress {
            phase: ProgressPhase::RenderingVideo,
            completed,
            total,
            percent: percent_done(completed, total),
            message: count_text("Rendering frame ", completed, total),
        }
    }

    /// The report that a job of `total_frames` frames is done.
    pub fn complete(total_frames: usize) -> (p: Progress)
        ensures
            p.phase == ProgressPhase::Complete,
            p.completed == total_frames,
            p.total == total_frames,
            p.percent == 100,
            p.message@ == "Conversion complete: "@ + decimal(total_frames as nat) + " frames"@,
    {
        let mut message = String::from_str("Conversion complete: ");
        push_decimal(&mut message, total_frames as u128);
        message.append(" frames");
        assert(message@ =~= "Conversion complete: "@ + decimal(total_frames as nat) + " frames"@);
        Progress {
            phase: ProgressPhase::Complete,
            completed: total_frames,
            total: total_frames,
            percent: 100,
            message,
        }
    }
}

} // verus!
