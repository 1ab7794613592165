//! Filters that the external tool applies to a picture before it is
//! converted, and the presets that name some of them.

use vstd::prelude::*;
use vstd::string::*;
use crate::error::{ConfigFault, ConvertError};
use crate::text::{
    decimal, eq_ignore_ascii_case, equal_ignoring_case, push_decimal, trim, trim_end_matches,
    trimmed, without_trailing,
};

verus! {

/// A named preprocessing filter.
#[derive(Debug, Clone, Copy)]
pub struct PreprocessPreset {
    pub name: &'static str,
    pub description: &'static str,
    pub filter: &'static str,
}

/// The presets, in the order in which they are searched.
pub open spec fn preset_list() -> Seq<PreprocessPreset> {
    seq![
        PreprocessPreset {
            name: "contours",
            description: "Grayscale edge-detection with strong contrast (good for outlines).",
            filter: "format=gray,edgedetect=mode=colormix:high=0.2:low=0.05,eq=contrast=2.5:brightness=-0.1",
        },
        PreprocessPreset {
            name: "contours-soft",
            description: "Softer contour extraction with less aggressive edges.",
            filter: "format=gray,edgedetect=mode=colormix:high=0.12:low=0.03,eq=contrast=2.0:brightness=-0.05",
        },
        PreprocessPreset {
            name: "contours-strong",
            description: "Very sharp contour extraction for bold linework.",
            filter: "format=gray,edgedetect=mode=colormix:high=0.35:low=0.08,eq=contrast=3.2:brightness=-0.12",
        },
        PreprocessPreset {
            name: "bw-contrast",
            description: "Simple grayscale + contrast boost for clean monochrome ASCII.",
            filter: "format=gray,eq=contrast=2.2:brightness=-0.08",
        },
        PreprocessPreset {
            name: "noir-detail",
            description: "Grayscale sharpened look that emphasizes texture.",
            filter: "format=gray,unsharp=5:5:1.0:5:5:0.0,eq=contrast=1.8:brightness=-0.04",
        },
        PreprocessPreset {
            name: "vivid",
            description: "Boost color saturation/contrast and sharpen for colorful ASCII.",
            filter: "eq=saturation=1.8:contrast=1.2:brightness=0.02,unsharp=5:5:0.8:5:5:0.0",
        },
        PreprocessPreset {
            name: "warm-pop",
            description: "Warmer color balance with moderate saturation boost.",
            filter: "colorbalance=rs=0.06:gs=0.02:bs=-0.04,eq=saturation=1.35:contrast=1.12",
        },
        PreprocessPreset {
            name: "cool-pop",
            description: "Cooler color balance with moderate saturation boost.",
            filter: "colorbalance=rs=-0.04:gs=0.02:bs=0.07,eq=saturation=1.28:contrast=1.10",
        },
        PreprocessPreset {
            name: "soft-glow",
            description: "Gentle blur and color lift for smoother gradients.",
            filter: "gblur=sigma=1.0,eq=saturation=1.15:contrast=1.08:brightness=0.02",
        },
    ]
}

/// The presets as a list.
pub fn preprocess_presets() -> (list: Vec<PreprocessPreset>)
    ensures
        list@ == preset_list(),
{
    let mut list: Vec<PreprocessPreset> = Vec::new();
    list.push(
        PreprocessPreset {
            name: "contours",
            description: "Grayscale edge-detection with strong contrast (good for outlines).",
            filter: "format=gray,edgedetect=mode=colormix:high=0.2:low=0.05,eq=contrast=2.5:brightness=-0.1",
        },
    );
    list.push(
        PreprocessPreset {
            name: "contours-soft",
            description: "Softer contour extraction with less aggressive edges.",
            filter: "format=gray,edgedetect=mode=colormix:high=0.12:low=0.03,eq=contrast=2.0:brightness=-0.05",
        },
    );
    list.push(
        PreprocessPreset {
            name: "contours-strong",
            description: "Very sharp contour extraction for bold linework.",
            filter: "format=gray,edgedetect=mode=colormix:high=0.35:low=0.08,eq=contrast=3.2:brightness=-0.12",
        },
    );
    list.push(
        PreprocessPreset {
            name: "bw-contrast",
            description: "Simple grayscale + contrast boost for clean monochrome ASCII.",
            filter: "format=gray,eq=contrast=2.2:brightness=-0.08",
        },
    );
    list.push(
        PreprocessPreset {
            name: "noir-detail",
            description: "Grayscale sharpened look that emphasizes texture.",
            filter: "format=gray,unsharp=5:5:1.0:5:5:0.0,eq=contrast=1.8:brightness=-0.04",
        },
    );
    list.push(
        PreprocessPreset {
            name: "vivid",
            description: "Boost color saturation/contrast and sharpen for colorful ASCII.",
            filter: "eq=saturation=1.8:contrast=1.2:brightness=0.02,unsharp=5:5:0.8:5:5:0.0",
        },
    );
    list.push(
        PreprocessPreset {
            name: "warm-pop",
            description: "Warmer color balance with moderate saturation boost.",
            filter: "colorbalance=rs=0.06:gs=0.02:bs=-0.04,eq=saturation=1.35:contrast=1.12",
        },
    );
    list.push(
        PreprocessPreset {
            name: "cool-pop",
            description: "Cooler color balance with moderate saturation boost.",
            filter: "colorbalance=rs=-0.04:gs=0.02:bs=0.07,eq=saturation=1.28:contrast=1.10",
        },
    );
    list.push(
        PreprocessPreset {
            name: "soft-glow",
            description: "Gentle blur and color lift for smoother gradients.",
            filter: "gblur=sigma=1.0,eq=saturation=1.15:contrast=1.08:brightness=0.02",
        },
    );
    assert(list@ =~= preset_list());
    list
}

/// The first preset from place `from` on whose name is `name`, but for
/// the case of ASCII letters.
pub open spec fn preset_named(name: Seq<char>, from: int) -> Option<PreprocessPreset>
    decreases preset_list().len() - from,
{
    if from < 0 || from >= preset_list().len() {
        None
    } else if equal_ignoring_case(preset_list()[from].name@, name) {
        Some(preset_list()[from])
    } else {
        preset_named(name, from + 1)
    }
}

/// Finds the preset of a name; the case of ASCII letters does not count.
pub fn find_preprocess_preset(name: &str) -> (found: Option<PreprocessPreset>)
    ensures
        found == preset_named(name@, 0),
{
    let list = preprocess_presets();
    let mut i: usize = 0;
    while i < list.len()
        invariant
            i <= list@.len(),
            list@ == preset_list(),
            preset_named(name@, 0) == preset_named(name@, i as int),
        decreases list@.len() - i,
    {
        if eq_ignore_ascii_case(list[i].name, name) {
            return Some(list[i]);
        }
        i += 1;
    }
    None
}

/// The filter to apply: the one given, trimmed, or else that of the
/// preset named, or none where neither is given.
pub fn resolve_preprocess_filter(
    preprocess: Option<&str>,
    preprocess_preset: Option<&str>,
) -> (r: Result<Option<String>, ConvertError>)
    ensures
        preprocess matches Some(filter) ==> {
            if trimmed(filter@).len() == 0 {
                r matches Err(ConvertError::Config(ConfigFault::EmptyFilter))
            } else {
                r matches Ok(Some(text)) && text@ == trimmed(filter@)
            }
        },
        preprocess is None ==> (preprocess_preset matches Some(name) ==> {
            match preset_named(trimmed(name@), 0) {
                Some(preset) => r matches Ok(Some(text)) && text@ == preset.filter@,
                None => r matches Err(ConvertError::UnknownPreset { name: unknown }) && unknown@
                    == name@,
            }
        }),
        preprocess is None && preprocess_preset is None ==> r matches Ok(None),
{
    if let Some(filter) = preprocess {
        let filter = trim(filter);
        if filter.unicode_len() == 0 {
            return Err(ConvertError::Config(ConfigFault::EmptyFilter));
        }
        return Ok(Some(String::from_str(filter)));
    }
    if let Some(name) = preprocess_preset {
        return match find_preprocess_preset(trim(name)) {
            Some(preset) => Ok(Some(String::from_str(preset.filter))),
            None => Err(ConvertError::UnknownPreset { name: String::from_str(name) }),
        };
    }
    Ok(None)
}

/// The names of the first `count` presets, separated by a comma and a
/// space.
pub open spec fn joined_names(count: int) -> Seq<char>
    decreases count,
{
    if count <= 0 {
        Seq::empty()
    } else if count == 1 {
        preset_list()[0].name@
    } else {
        joined_names(count - 1) + ", "@ + preset_list()[count - 1].name@
    }
}

/// The names of all presets, separated by a comma and a space.
pub fn preset_names() -> (names: String)
    ensures
        names@ == joined_names(preset_list().len() as int),
{
    let list = preprocess_presets();
    let mut names = String::new();
    let mut i: usize = 0;
    while i < list.len()
        invariant
            i <= list@.len(),
            list@ == preset_list(),
            names@ == joined_names(i as int),
        decreases list@.len() - i,
    {
        if i > 0 {
            names.append(", ");
        }
        names.append(list[i].name);
        proof {
            if i == 0 {
                assert(names@ =~= list@[0].name@);
            }
        }
        i += 1;
    }
    names
}

/// The filter that scales a video to a number of columns and samples it
/// at a frame rate.
pub open spec fn scale_filter(columns: u32, fps: u32) -> Seq<char> {
    "scale="@ + decimal(columns as nat) + ":-2,fps="@ + decimal(fps as nat)
}

/// What is kept of a preprocessing filter: the filter without the white
/// space around it and without commas at its end.
pub open spec fn kept_filter(filter: Seq<char>) -> Seq<char> {
    without_trailing(trimmed(filter), ',')
}

/// The filter chain for the extraction of frames: what is kept of the
/// preprocessing filter, if anything, then a comma and the scale filter.
pub open spec fn extraction_vf(
    columns: u32,
    fps: u32,
    preprocess_filter: Option<Seq<char>>,
) -> Seq<char> {
    match preprocess_filter {
        Some(filter) => if kept_filter(filter).len() > 0 {
            kept_filter(filter) + ","@ + scale_filter(columns, fps)
        } else {
            scale_filter(columns, fps)
        },
        None => scale_filter(columns, fps),
    }
}

/// The text of a filter that may be absent.
pub open spec fn filter_text(preprocess_filter: Option<&str>) -> Option<Seq<char>> {
    match preprocess_filter {
        Some(filter) => Some(filter@),
        None => None,
    }
}

fn push_scale_filter(out: &mut String, columns: u32, fps: u32)
    ensures
        final(out)@ == old(out)@ + scale_filter(columns, fps),
{
    out.append("scale=");
    push_decimal(out, columns as u128);
    out.append(":-2,fps=");
    push_decimal(out, fps as u128);
    assert(out@ =~= old(out)@ + scale_filter(columns, fps));
}

/// Builds the filter chain for the extraction of frames.
pub fn build_frame_extraction_vf(
    columns: u32,
    fps: u32,
    preprocess_filter: Option<&str>,
) -> (vf: String)
    ensures
        vf@ == extraction_vf(columns, fps, filter_text(preprocess_filter)),
{
    let mut vf = String::new();
    if let Some(filter) = preprocess_filter {
        let kept = trim_end_matches(trim(filter), ',');
        if kept.unicode_len() > 0 {
            vf.append(kept);
            vf.append(",");
        }
    }
    push_scale_filter(&mut vf, columns, fps);
    assert(vf@ =~= extraction_vf(columns, fps, filter_text(preprocess_filter)));
    vf
}

/// The name of a temporary file that its holder is to remove when done.
pub struct TempFileGuard {
    path: String,
}

impl View for TempFileGuard {
    type V = Seq<char>;

    closed spec fn view(&self) -> Seq<char> {
        self.path@
    }
}

impl TempFileGuard {
    /// Takes charge of a path.
    pub fn new(path: String) -> (guard: TempFileGuard)
        ensures
            guard@ == path@,
    {
        TempFileGuard { path }
    }

    /// The path that is guarded.
    pub fn path(&self) -> (path: &str)
        ensures
            path@ == self@,
    {
        self.path.as_str()
    }
}

} // verus!
