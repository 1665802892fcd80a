//! Biquad filter kinds and design methods, and the integer codes by which the
//! filter engine takes a design method.

use vstd::prelude::*;

verus! {

/// Biquad filter design methods.
#[derive(Debug, Clone, Copy, PartialEq, Eq, Structural)]
pub enum BiquadDesign {
    /// Standard bilinear transform
    Bilinear,
    /// Robert Bristow-Johnson's cookbook
    Cookbook,
    /// One-sided designs with better phase
    OneSided,
    /// Urs Vicanek's method
    Vicanek,
}

/// Filter types for biquad filters.
#[derive(Debug, Clone, Copy, PartialEq, Eq, Structural)]
pub enum FilterType {
    /// Low-pass filter (passes low frequencies)
    LowPass,
    /// High-pass filter (passes high frequencies)
    HighPass,
    /// Band-pass filter (passes a band of frequencies)
    BandPass,
    /// Notch filter (rejects a band of frequencies)
    Notch,
    /// Peak filter (boosts or cuts a band of frequencies)
    Peak,
    /// Low shelf filter (boosts or cuts low frequencies)
    LowShelf,
    /// High shelf filter (boosts or cuts high frequencies)
    HighShelf,
    /// All-pass filter (changes phase, not magnitude)
    AllPass,
}

/// The engine's code for a design method: its position in the declaration
/// order, counting from zero.
pub open spec fn design_index(design: BiquadDesign) -> i32 {
    match design {
        BiquadDesign::Bilinear => 0,
        BiquadDesign::Cookbook => 1,
        BiquadDesign::OneSided => 2,
        BiquadDesign::Vicanek => 3,
    }
}

impl From<BiquadDesign> for i32 {
    fn from(design: BiquadDesign) -> (code: i32) {
        match design {
            BiquadDesign::Bilinear => 0,
            BiquadDesign::Cookbook => 1,
            BiquadDesign::OneSided => 2,
            BiquadDesign::Vicanek => 3,
        }
    }
}

impl vstd::std_specs::convert::FromSpecImpl<BiquadDesign> for i32 {
    open spec fn obeys_from_spec() -> bool {
        true
    }

    open spec fn from_spec(design: BiquadDesign) -> i32 {
        design_index(design)
    }
}

/// The code of an optional design method, as the filter configuration calls
/// hand it to the engine: the cookbook design where none is given.
pub fn design_code(design: Option<BiquadDesign>) -> (code: i32)
    ensures
        code == match design {
            Some(d) => design_index(d),
            None => design_index(BiquadDesign::Cookbook),
        },
{
    design.unwrap_or(BiquadDesign::Cookbook).into()
}

} // verus!
