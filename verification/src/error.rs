//! The failures that conversion, the frame codec and the encode pipeline
//! report.

use vstd::prelude::*;
use vstd::string::*;
use crate::preprocessing::{joined_names, preset_list, preset_names};
use crate::text::{decimal, push_decimal};

verus! {

/// What is wrong with the settings of a conversion.
#[derive(Debug, Clone, Copy, PartialEq, Eq)]
pub enum ConfigFault {
    /// The ramp holds no character at all.
    EmptyRamp,
    /// The ramp holds a byte outside the ASCII range, at this index.
    NonAsciiRamp { index: usize },
    /// A preprocessing filter that holds nothing but white space.
    EmptyFilter,
    /// A grid of no columns was asked for.
    ZeroColumns,
    /// A crop removes as many rows as a frame has, or more.
    CropRows { top: usize, bottom: usize, rows: usize },
    /// A crop removes as many columns as a frame has, or more.
    CropColumns { left: usize, right: usize, columns: usize },
    /// The picture cannot be resampled to the grid asked for: a side is
    /// too long, or the buffers do not fit this machine's memory.
    TargetTooLarge { target_width: u32, target_height: u32 },
    /// The picture of a frame cannot be addressed on this machine.
    PictureTooLarge { width_chars: u32, height_chars: u32 },
}

/// How a frame breaks the binary format.
#[derive(Debug, Clone, Copy, PartialEq, Eq)]
pub enum FrameFault {
    /// The data is shorter than the eight byte header.
    TooSmall { len: usize },
    /// The header announces a longer body than the data holds.
    Truncated { expected_body: u128, actual_body: usize },
    /// The text or the colors of a frame disagree with its dimensions.
    Mismatch { expected_cells: u64, text_cells: usize, color_bytes: usize },
}

/// How a text frame fails to be a rectangle.
#[derive(Debug, Clone, Copy, PartialEq, Eq)]
pub enum GridFault {
    /// The text holds no line.
    Empty,
    /// A line, counted from zero, is not as long as the first one.
    Ragged { line: usize, expected: usize, found: usize },
    /// The grid has more rows or columns than a frame can count.
    TooLarge { rows: usize, columns: usize },
}

/// Every failure this crate reports.
#[derive(Debug, Clone, PartialEq, Eq)]
pub enum ConvertError {
    /// The source image could not be decoded, or it has no pixels.
    Decode { detail: String },
    /// A setting of the conversion is unusable.
    Config(ConfigFault),
    /// No preprocessing preset has this name. The text of the failure
    /// lists the presets there are.
    UnknownPreset { name: String },
    /// A frame breaks the binary format's structure.
    CorruptFrame(FrameFault),
    /// A text frame is not a rectangle of characters.
    MalformedGrid(GridFault),
    /// No usable frame source was found.
    NoFrames,
    /// The encoder process could not be started.
    EncoderSpawn { detail: String },
    /// Writing a frame to the encoder failed.
    EncoderWrite { cause: String, diagnostics: String },
    /// The encoder ended unsuccessfully after all writes had succeeded.
    EncoderExit { diagnostics: String },
}

impl ConvertError {
    /// A copy of this failure.
    pub fn copy(&self) -> (c: ConvertError)
        ensures
            c == *self,
    {
        match self {
            ConvertError::Decode { detail } => ConvertError::Decode { detail: detail.clone() },
            ConvertError::Config(fault) => ConvertError::Config(*fault),
            ConvertError::UnknownPreset { name } => ConvertError::UnknownPreset {
                name: name.clone(),
            },
            ConvertError::CorruptFrame(fault) => ConvertError::CorruptFrame(*fault),
            ConvertError::MalformedGrid(fault) => ConvertError::MalformedGrid(*fault),
            ConvertError::NoFrames => ConvertError::NoFrames,
            ConvertError::EncoderSpawn { detail } => ConvertError::EncoderSpawn {
                detail: detail.clone(),
            },
            ConvertError::EncoderWrite { cause, diagnostics } => ConvertError::EncoderWrite {
                cause: cause.clone(),
                diagnostics: diagnostics.clone(),
            },
            ConvertError::EncoderExit { diagnostics } => ConvertError::EncoderExit {
                diagnostics: diagnostics.clone(),
            },
        }
    }
}

/// The text that describes a failure of a ramp or another setting.
pub open spec fn config_text(fault: ConfigFault) -> Seq<char> {
    match fault {
        ConfigFault::EmptyRamp => "the character ramp is empty"@,
        ConfigFault::NonAsciiRamp { index } => "the character ramp holds a byte outside ASCII at index "@
            + decimal(index as nat),
        ConfigFault::EmptyFilter => "--preprocess cannot be empty"@,
        ConfigFault::ZeroColumns => "a grid needs at least one column"@,
        ConfigFault::CropRows { top, bottom, rows } => "Crop rows ("@ + decimal(top as nat)
            + " top + "@ + decimal(bottom as nat) + " bottom = "@ + decimal((top + bottom) as nat)
            + ") exceed frame height ("@ + decimal(rows as nat) + ")"@,
        ConfigFault::CropColumns { left, right, columns } => "Crop columns ("@ + decimal(
            left as nat,
        ) + " left + "@ + decimal(right as nat) + " right = "@ + decimal((left + right) as nat)
            + ") exceed frame width ("@ + decimal(columns as nat) + ")"@,
        ConfigFault::TargetTooLarge { target_width, target_height } => "cannot resample to "@
            + decimal(target_width as nat) + "x"@ + decimal(target_height as nat),
        ConfigFault::PictureTooLarge { width_chars, height_chars } => "cannot render a grid of "@
            + decimal(width_chars as nat) + "x"@ + decimal(height_chars as nat),
    }
}

/// The text that describes a failure of the binary format.
pub open spec fn frame_fault_text(fault: FrameFault) -> Seq<char> {
    match fault {
        FrameFault::TooSmall { len } => "cframe file too small: "@ + decimal(len as nat) + " bytes"@,
        FrameFault::Truncated { expected_body, actual_body } => "cframe file truncated: expected "@
            + decimal(expected_body as nat) + " body bytes, got "@ + decimal(actual_body as nat),
        FrameFault::Mismatch { expected_cells, text_cells, color_bytes } => "frame of "@ + decimal(
            expected_cells as nat,
        ) + " cells holds "@ + decimal(text_cells as nat) + " characters and "@ + decimal(
            color_bytes as nat,
        ) + " color bytes"@,
    }
}

/// The text that describes a failure of a text frame.
pub open spec fn grid_fault_text(fault: GridFault) -> Seq<char> {
    match fault {
        GridFault::Empty => "empty frame file"@,
        GridFault::Ragged { line, expected, found } => "line "@ + decimal(line as nat)
            + " holds "@ + decimal(found as nat) + " characters, not "@ + decimal(expected as nat),
        GridFault::TooLarge { rows, columns } => "a grid of "@ + decimal(columns as nat) + "x"@
            + decimal(rows as nat) + " is too large"@,
    }
}

/// The text that describes a failure.
pub open spec fn error_text(e: ConvertError) -> Seq<char> {
    match e {
        ConvertError::Decode { detail } => "cannot decode image: "@ + detail@,
        ConvertError::Config(fault) => config_text(fault),
        ConvertError::UnknownPreset { name } => "Unknown preprocessing preset '"@ + name@
            + "'. Available presets: "@ + joined_names(preset_list().len() as int),
        ConvertError::CorruptFrame(fault) => frame_fault_text(fault),
        ConvertError::MalformedGrid(fault) => grid_fault_text(fault),
        ConvertError::NoFrames => "no frames found"@,
        ConvertError::EncoderSpawn { detail } => "cannot start the encoder: "@ + detail@,
        ConvertError::EncoderWrite { cause, diagnostics } => "ffmpeg encoding failed: "@ + cause@
            + " (stderr: "@ + diagnostics@ + ")"@,
        ConvertError::EncoderExit { diagnostics } => "ffmpeg encoding failed: "@ + diagnostics@,
    }
}

fn config_message(fault: ConfigFault) -> (text: String)
    ensures
        text@ == config_text(fault),
{
    match fault {
        ConfigFault::EmptyRamp => String::from_str("the character ramp is empty"),
        ConfigFault::NonAsciiRamp { index } => {
            let mut text = String::from_str(
                "the character ramp holds a byte outside ASCII at index ",
            );
            push_decimal(&mut text, index as u128);
            text
        },
        ConfigFault::EmptyFilter => String::from_str("--preprocess cannot be empty"),
        ConfigFault::ZeroColumns => String::from_str("a grid needs at least one column"),
        ConfigFault::CropRows { top, bottom, rows } => {
            let mut text = String::from_str("Crop rows (");
            push_decimal(&mut text, top as u128);
            text.append(" top + ");
            push_decimal(&mut text, bottom as u128);
            text.append(" bottom = ");
            push_decimal(&mut text, (top as u128) + (bottom as u128));
            text.append(") exceed frame height (");
            push_decimal(&mut text, rows as u128);
            text.append(")");
            assert(text@ =~= config_text(fault));
            text
        },
        ConfigFault::CropColumns { left, right, columns } => {
            let mut text = String::from_str("Crop columns (");
            push_decimal(&mut text, left as u128);
            text.append(" left + ");
            push_decimal(&mut text, right as u128);
            text.append(" right = ");
            push_decimal(&mut text, (left as u128) + (right as u128));
            text.append(") exceed frame width (");
            push_decimal(&mut text, columns as u128);
            text.append(")");
            assert(text@ =~= config_text(fault));
            text
        },
        ConfigFault::TargetTooLarge { target_width, target_height } => {
            let mut text = String::from_str("cannot resample to ");
            push_decimal(&mut text, target_width as u128);
            text.append("x");
            push_decimal(&mut text, target_height as u128);
            assert(text@ =~= config_text(fault));
            text
        },
        ConfigFault::PictureTooLarge { width_chars, height_chars } => {
            let mut text = String::from_str("cannot render a grid of ");
            push_decimal(&mut text, width_chars as u128);
            text.append("x");
            push_decimal(&mut text, height_chars as u128);
            assert(text@ =~= config_text(fault));
            text
        },
    }
}

fn frame_fault_message(fault: FrameFault) -> (text: String)
    ensures
        text@ == frame_fault_text(fault),
{
    match fault {
        FrameFault::TooSmall { len } => {
            let mut text = String::from_str("cframe file too small: ");
            push_decimal(&mut text, len as u128);
            text.append(" bytes");
            assert(text@ =~= frame_fault_text(fault));
            text
        },
        FrameFault::Truncated { expected_body, actual_body } => {
            let mut text = String::from_str("cframe file truncated: expected ");
            push_decimal(&mut text, expected_body);
            text.append(" body bytes, got ");
            push_decimal(&mut text, actual_body as u128);
            assert(text@ =~= frame_fault_text(fault));
            text
        },
        FrameFault::Mismatch { expected_cells, text_cells, color_bytes } => {
            let mut text = String::from_str("frame of ");
            push_decimal(&mut text, expected_cells as u128);
            text.append(" cells holds ");
            push_decimal(&mut text, text_cells as u128);
            text.append(" characters and ");
            push_decimal(&mut text, color_bytes as u128);
            text.append(" color bytes");
            assert(text@ =~= frame_fault_text(fault));
            text
        },
    }
}

fn grid_fault_message(fault: GridFault) -> (text: String)
    ensures
        text@ == grid_fault_text(fault),
{
    match fault {
        GridFault::Empty => String::from_str("empty frame file"),
        GridFault::Ragged { line, expected, found } => {
            let mut text = String::from_str("line ");
            push_decimal(&mut text, line as u128);
            text.append(" holds ");
            push_decimal(&mut text, found as u128);
            text.append(" characters, not ");
            push_decimal(&mut text, expected as u128);
            assert(text@ =~= grid_fault_text(fault));
            text
        },
        GridFault::TooLarge { rows, columns } => {
            let mut text = String::from_str("a grid of ");
            push_decimal(&mut text, columns as u128);
            text.append("x");
            push_decimal(&mut text, rows as u128);
            text.append(" is too large");
            assert(text@ =~= grid_fault_text(fault));
            text
        },
    }
}

impl ConvertError {
    /// The text that describes this failure to a user. A failure of the
    /// encoder carries the diagnostic text that the encoder wrote.
    pub fn message(&self) -> (text: String)
        ensures
            text@ == error_text(*self),
    {
        match self {
            ConvertError::Decode { detail } => {
                let mut text = String::from_str("cannot decode image: ");
                text.append(detail.as_str());
                text
            },
            ConvertError::Config(fault) => config_message(*fault),
            ConvertError::UnknownPreset { name } => {
                let mut text = String::from_str("Unknown preprocessing preset '");
                text.append(name.as_str());
                text.append("'. Available presets: ");
                text.append(preset_names().as_str());
                assert(text@ =~= error_text(*self));
                text
            },
            ConvertError::CorruptFrame(fault) => frame_fault_message(*fault),
            ConvertError::MalformedGrid(fault) => grid_fault_message(*fault),
            ConvertError::NoFrames => String::from_str("no frames found"),
            ConvertError::EncoderSpawn { detail } => {
                let mut text = String::from_str("cannot start the encoder: ");
                text.append(detail.as_str());
                text
            },
            ConvertError::EncoderWrite { cause, diagnostics } => {
                let mut text = String::from_str("ffmpeg encoding failed: ");
                text.append(cause.as_str());
                text.append(" (stderr: ");
                text.append(diagnostics.as_str());
                text.append(")");
                assert(text@ =~= error_text(*self));
                text
            },
            ConvertError::EncoderExit { diagnostics } => {
                let mut text = String::from_str("ffmpeg encoding failed: ");
                text.append(diagnostics.as_str());
                text
            },
        }
    }
}

} // verus!
