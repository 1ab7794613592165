//! The summary of a finished conversion as text.

use vstd::prelude::*;
use vstd::string::*;
use crate::text::{decimal, push_decimal};

verus! {

/// The numbers that describe a finished conversion.
#[derive(Debug, Clone, Copy, PartialEq, Eq)]
pub struct ConversionCounts {
    /// The number of frames that were made.
    pub frame_count: usize,
    /// The number of columns of each frame.
    pub columns: u32,
    /// The brightness below which a pixel became a space.
    pub luminance: u8,
    /// The frame rate, for conversions of video.
    pub fps: Option<u32>,
    /// Whether the sound was extracted.
    pub audio_extracted: bool,
}

/// The text of a truth value.
pub open spec fn bool_text(b: bool) -> Seq<char> {
    if b {
        "true"@
    } else {
        "false"@
    }
}

/// The line of the frame rate, where there is one.
pub open spec fn fps_line(fps: Option<u32>) -> Seq<char> {
    match fps {
        Some(rate) => "\nFPS: "@ + decimal(rate as nat),
        None => Seq::empty(),
    }
}

/// The details of a conversion: one line for each setting.
pub open spec fn details_text(
    version: Seq<char>,
    counts: ConversionCounts,
    font_ratio: Seq<char>,
    output_mode: Seq<char>,
) -> Seq<char> {
    "Version: "@ + version + "\nFrames: "@ + decimal(counts.frame_count as nat) + "\nLuminance: "@
        + decimal(counts.luminance as nat) + "\nFont Ratio: "@ + font_ratio + "\nColumns: "@
        + decimal(counts.columns as nat) + fps_line(counts.fps) + "\nOutput: "@ + output_mode
        + "\nAudio: "@ + bool_text(counts.audio_extracted)
}

/// Writes the details of a conversion as text. The version, the font
/// ratio and the output mode are given as the texts to show.
pub fn to_details_string(
    version: &str,
    counts: ConversionCounts,
    font_ratio: &str,
    output_mode: &str,
) -> (details: String)
    ensures
        details@ == details_text(version@, counts, font_ratio@, output_mode@),
{
    let mut details = String::from_str("Version: ");
    details.append(version);
    details.append("\nFrames: ");
    push_decimal(&mut details, counts.frame_count as u128);
    details.append("\nLuminance: ");
    push_decimal(&mut details, counts.luminance as u128);
    details.append("\nFont Ratio: ");
    details.append(font_ratio);
    details.append("\nColumns: ");
    push_decimal(&mut details, counts.columns as u128);
    if let Some(rate) = counts.fps {
        details.append("\nFPS: ");
        push_decimal(&mut details, rate as u128);
    }
    let ghost head = "Version: "@ + version@ + "\nFrames: "@ + decimal(counts.frame_count as nat)
        + "\nLuminance: "@ + decimal(counts.luminance as nat) + "\nFont Ratio: "@ + font_ratio@
        + "\nColumns: "@ + decimal(counts.columns as nat) + fps_line(counts.fps);
    assert(details@ =~= head);
    details.append("\nOutput: ");
    details.append(output_mode);
    details.append("\nAudio: ");
    if counts.audio_extracted {
        details.append("true");
    } else {
        details.append("false");
    }
    assert(details@ =~= details_text(version@, counts, font_ratio@, output_mode@));
    details
}

} // verus!
