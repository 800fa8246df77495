//! Display windows: the intensity range that is mapped to the display
//! ramp, and the direction of the ramp.
//!
//! A window is configured by a level and a width. Its edges, `level -
//! width / 2` and `level + width / 2`, are real-number arithmetic and are
//! computed by the caller; this module takes the edges as intensity bits
//! and decides the order in which they are handed to the renderer.

use vstd::prelude::*;

verus! {

/// The direction of the display ramp.
#[derive(Clone, Copy, Debug, PartialEq, Eq, Structural)]
pub enum DisplayPolarity {
    /// Low intensities are dark.
    Positive,
    /// Low intensities are bright.
    Negative,
}

impl DisplayPolarity {
    /// The integer that stands for this polarity at a serialization
    /// boundary.
    pub open spec fn code(self) -> u32 {
        match self {
            DisplayPolarity::Positive => 0,
            DisplayPolarity::Negative => 1,
        }
    }

    /// Encodes this polarity as 0 (positive) or 1 (negative).
    pub fn encode(self) -> (code: u32)
        ensures
            code == self.code(),
    {
        match self {
            DisplayPolarity::Positive => 0,
            DisplayPolarity::Negative => 1,
        }
    }

    /// The polarity that a code stands for, if any.
    pub fn decode(code: u32) -> (polarity: Option<DisplayPolarity>)
        ensures
            polarity.is_some() <==> code <= 1,
            polarity matches Some(p) ==> p.code() == code,
    {
        if code == 0 {
            Some(DisplayPolarity::Positive)
        } else if code == 1 {
            Some(DisplayPolarity::Negative)
        } else {
            None
        }
    }
}

/// The edges of a display window, each as the bits of an intensity, and
/// the polarity of the ramp between them. The edges are taken as they
/// are: a window that lies outside the intensities of a scan is valid.
#[derive(Clone, Copy, Debug, PartialEq, Eq, Structural)]
pub struct DisplayRange {
    pub min: u32,
    pub max: u32,
    pub polarity: DisplayPolarity,
}

/// The pair that the renderer takes for the given edges and polarity:
/// minimum first for a positive ramp, maximum first for a negative one.
pub open spec fn ramp(min: u32, max: u32, polarity: DisplayPolarity) -> Seq<u32> {
    match polarity {
        DisplayPolarity::Positive => seq![min, max],
        DisplayPolarity::Negative => seq![max, min],
    }
}

/// The pair of a negative ramp is the pair of the positive ramp over the
/// same edges, reversed.
pub proof fn lemma_negative_reverses(min: u32, max: u32)
    ensures
        ramp(min, max, DisplayPolarity::Negative) == ramp(
            min,
            max,
            DisplayPolarity::Positive,
        ).reverse(),
{
    let positive = ramp(min, max, DisplayPolarity::Positive);
    let negative = ramp(min, max, DisplayPolarity::Negative);
    assert(positive.len() == 2 && positive[0] == min && positive[1] == max);
    assert(negative.len() == 2 && negative[0] == max && negative[1] == min);
    assert(negative =~= positive.reverse());
}

impl DisplayRange {
    /// The pair that the renderer takes: `[min, max]` for a positive
    /// ramp, `[max, min]` for a negative one.
    pub fn vec(&self) -> (pair: [u32; 2])
        ensures
            pair@ == ramp(self.min, self.max, self.polarity),
    {
        let pair = match self.polarity {
            DisplayPolarity::Positive => [self.min, self.max],
            DisplayPolarity::Negative => [self.max, self.min],
        };
        assert(pair@ =~= ramp(self.min, self.max, self.polarity));
        pair
    }
}

} // verus!
