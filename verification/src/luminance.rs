//! Mapping of pixel brightness onto a ramp of characters.
//!
//! A ramp is an ordered run of ASCII bytes, darkest first. A pixel darker
//! than the threshold becomes a space; every other pixel is quantized onto
//! the ramp so that a brighter pixel never gets an earlier character.

use vstd::prelude::*;
use vstd::arithmetic::div_mod::lemma_div_is_ordered;
use vstd::arithmetic::mul::lemma_mul_inequality;
use crate::error::{ConfigFault, ConvertError};

verus! {

/// The byte emitted for pixels below the threshold.
pub const SPACE: u8 = 32;

/// Brightness of an RGB triple: `0.2126 R + 0.7152 G + 0.0722 B`, truncated
/// to an integer. The weights are held in ten-thousandths.
pub open spec fn luminance_of(r: u8, g: u8, b: u8) -> int {
    (2126 * r + 7152 * g + 722 * b) / 10000
}

/// The brightness always fits a byte, since the weights sum to one.
pub proof fn lemma_luminance_bounds(r: u8, g: u8, b: u8)
    ensures
        0 <= luminance_of(r, g, b) <= 255,
{
}

/// Computes the brightness of one pixel.
pub fn luminance(r: u8, g: u8, b: u8) -> (l: u8)
    ensures
        l == luminance_of(r, g, b),
{
    let weighted: u32 = 2126 * (r as u32) + 7152 * (g as u32) + 722 * (b as u32);
    (weighted / 10000) as u8
}

/// The width of the brightness interval that the ramp covers: `255 -
/// threshold`, but never less than one.
pub open spec fn ramp_range(threshold: u8) -> int {
    if 255 - threshold >= 1 {
        255 - threshold
    } else {
        1
    }
}

/// The position in a ramp of `ramp_len` characters that is chosen for a
/// brightness at or above the threshold.
pub open spec fn ramp_index(luma: u8, threshold: u8, ramp_len: nat) -> int
    recommends
        luma >= threshold,
        ramp_len >= 1,
{
    let scaled = ((luma - threshold) * (ramp_len - 1)) / ramp_range(threshold);
    if scaled <= ramp_len - 1 {
        scaled
    } else {
        ramp_len - 1
    }
}

/// The byte that stands for a brightness: a space below the threshold, the
/// ramp's character at `ramp_index` otherwise.
pub open spec fn mapped_byte(luma: u8, threshold: u8, ramp: Seq<u8>) -> u8
    recommends
        ramp.len() >= 1,
{
    if luma < threshold {
        SPACE
    } else {
        ramp[ramp_index(luma, threshold, ramp.len())]
    }
}

/// The chosen position always lies inside the ramp.
pub proof fn lemma_ramp_index_in_range(luma: u8, threshold: u8, ramp_len: nat)
    requires
        luma >= threshold,
        ramp_len >= 1,
    ensures
        0 <= ramp_index(luma, threshold, ramp_len) < ramp_len,
{
    let k = (ramp_len - 1) as int;
    let e = (luma - threshold) as int;
    assert(0 <= e * k) by (nonlinear_arith)
        requires
            0 <= e,
            0 <= k,
    ;
    assert(0 <= (e * k) / ramp_range(threshold)) by (nonlinear_arith)
        requires
            0 <= e * k,
            0 < ramp_range(threshold),
    ;
}

/// The mapping is monotonic: of two brightnesses at or above the threshold,
/// the brighter one never gets an earlier position in the ramp.
pub proof fn lemma_ramp_index_monotonic(brighter: u8, darker: u8, threshold: u8, ramp_len: nat)
    requires
        brighter >= darker,
        darker >= threshold,
        ramp_len >= 1,
    ensures
        ramp_index(brighter, threshold, ramp_len) >= ramp_index(darker, threshold, ramp_len),
{
    let k = (ramp_len - 1) as int;
    let hi = (brighter - threshold) as int;
    let lo = (darker - threshold) as int;
    lemma_mul_inequality(lo, hi, k);
    assert(0 <= lo * k) by (nonlinear_arith)
        requires
            0 <= lo,
            0 <= k,
    ;
    lemma_div_is_ordered(lo * k, hi * k, ramp_range(threshold));
}

/// Below the threshold the mapping yields a space, whatever the ramp holds.
pub proof fn lemma_below_threshold_is_space(luma: u8, threshold: u8, ramp: Seq<u8>)
    requires
        luma < threshold,
    ensures
        mapped_byte(luma, threshold, ramp) == SPACE,
{
}

/// Chooses the character for one brightness value.
pub fn char_for(luma: u8, threshold: u8, ascii_chars: &[u8]) -> (c: u8)
    requires
        ascii_chars@.len() >= 1,
    ensures
        c == mapped_byte(luma, threshold, ascii_chars@),
        luma < threshold ==> c == SPACE,
        luma >= threshold ==> c == ascii_chars@[ramp_index(luma, threshold, ascii_chars@.len())],
{
    if luma < threshold {
        return SPACE;
    }
    let effective: u128 = (luma - threshold) as u128;
    let range: u128 = if 255 - threshold >= 1 {
        (255 - threshold) as u128
    } else {
        1
    };
    let last: u128 = (ascii_chars.len() - 1) as u128;
    assert(effective * last <= 255 * last) by (nonlinear_arith)
        requires
            effective <= 255,
            0 <= last,
    ;
    let scaled: u128 = (effective * last) / range;
    let index: u128 = if scaled <= last {
        scaled
    } else {
        last
    };
    proof {
        lemma_ramp_index_in_range(luma, threshold, ascii_chars@.len());
    }
    ascii_chars[index as usize]
}

/// Whether a ramp can be used: it holds at least one byte, and only ASCII.
pub open spec fn ramp_is_valid(ramp: Seq<u8>) -> bool {
    &&& ramp.len() >= 1
    &&& forall|i: int| 0 <= i < ramp.len() ==> ramp[i] < 128
}

/// Checks a ramp once, before any frame is converted with it. An empty
/// ramp is reported as such; otherwise the first byte outside ASCII is named.
pub fn validate_ramp(ascii_chars: &[u8]) -> (r: Result<(), ConvertError>)
    ensures
        r is Ok <==> ramp_is_valid(ascii_chars@),
        ascii_chars@.len() == 0 ==> r == Err::<(), ConvertError>(
            ConvertError::Config(ConfigFault::EmptyRamp),
        ),
        r matches Err(ConvertError::Config(ConfigFault::NonAsciiRamp { index })) ==> {
            &&& index < ascii_chars@.len()
            &&& ascii_chars@[index as int] >= 128
            &&& forall|i: int| 0 <= i < index ==> ascii_chars@[i] < 128
        },
        r matches Err(e) ==> e matches ConvertError::Config(fault) && (fault is EmptyRamp || fault
            is NonAsciiRamp),
{
    if ascii_chars.len() == 0 {
        return Err(ConvertError::Config(ConfigFault::EmptyRamp));
    }
    let mut i: usize = 0;
    while i < ascii_chars.len()
        invariant
            i <= ascii_chars@.len(),
            forall|j: int| 0 <= j < i ==> ascii_chars@[j] < 128,
        decreases ascii_chars@.len() - i,
    {
        if ascii_chars[i] >= 128 {
            return Err(ConvertError::Config(ConfigFault::NonAsciiRamp { index: i }));
        }
        i += 1;
    }
    Ok(())
}

/// A ramp that has been checked: at least one byte, all of them ASCII.
pub struct CharacterRamp {
    chars: Vec<u8>,
}

impl View for CharacterRamp {
    type V = Seq<u8>;

    closed spec fn view(&self) -> Seq<u8> {
        self.chars@
    }
}

impl CharacterRamp {
    #[verifier::type_invariant]
    spec fn inv(self) -> bool {
        ramp_is_valid(self.chars@)
    }

    /// Checks a run of bytes and keeps it as a ramp. What is refused, and
    /// with which fault, is what `validate_ramp` says.
    pub fn new(ascii_chars: Vec<u8>) -> (r: Result<CharacterRamp, ConvertError>)
        ensures
            r is Ok <==> ramp_is_valid(ascii_chars@),
            r matches Ok(ramp) ==> ramp@ == ascii_chars@,
            ascii_chars@.len() == 0 ==> r matches Err(ConvertError::Config(ConfigFault::EmptyRamp)),
            r matches Err(ConvertError::Config(ConfigFault::NonAsciiRamp { index })) ==> {
                &&& index < ascii_chars@.len()
                &&& ascii_chars@[index as int] >= 128
                &&& forall|i: int| 0 <= i < index ==> ascii_chars@[i] < 128
            },
            r matches Err(e) ==> e matches ConvertError::Config(fault) && (fault
                is EmptyRamp || fault is NonAsciiRamp),
    {
        match validate_ramp(ascii_chars.as_slice()) {
            Ok(()) => Ok(CharacterRamp { chars: ascii_chars }),
            Err(e) => Err(e),
        }
    }

    /// The bytes of the ramp, darkest first.
    pub fn as_bytes(&self) -> (bytes: &[u8])
        ensures
            bytes@ == self@,
            ramp_is_valid(self@),
    {
        proof {
            use_type_invariant(self);
        }
        self.chars.as_slice()
    }
}

} // verus!
