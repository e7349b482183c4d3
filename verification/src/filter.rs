//! The chroma-key filter: decides per pixel whether the key colour dominates,
//! and substitutes the background pixel wherever it does.

use vstd::prelude::*;
use crate::pixel::Color;

verus! {

/// Key channel bounds: a pixel can be cut off only when its key channel lies
/// in the half-open range `[CUT_OFF_LOW, CUT_OFF_HIGH)`.
pub const CUT_OFF_LOW: u8 = 150;
/// Upper bound of the key-channel range (exclusive).
pub const CUT_OFF_HIGH: u8 = 255;
/// Reference level both non-key channels are compared against.
pub const REFERENCE_LEVEL: u8 = 20;
/// A pixel is cut off only when the summed distance of its two non-key
/// channels from `REFERENCE_LEVEL` stays below this threshold.
pub const VARIANCE_LIMIT: u32 = 120;

/// Which channel is the chroma key; the other two are the reference channels.
#[derive(Clone, Copy, PartialEq, Eq, Structural, Debug)]
pub enum FilterType {
    Red,
    Blue,
    Green,
}

/// Unsigned distance between two channel values.
pub open spec fn abs_diff_spec(a: int, b: int) -> int {
    if a >= b {
        a - b
    } else {
        b - a
    }
}

impl FilterType {
    /// The key channel of `color` under this filter.
    pub open spec fn key_channel(self, color: Color) -> int {
        match self {
            FilterType::Red => color.r as int,
            FilterType::Blue => color.b as int,
            FilterType::Green => color.g as int,
        }
    }

    /// Summed distance of the two non-key channels from the reference level.
    pub open spec fn variance(self, color: Color) -> int {
        match self {
            FilterType::Red => abs_diff_spec(color.g as int, REFERENCE_LEVEL as int)
                + abs_diff_spec(color.b as int, REFERENCE_LEVEL as int),
            FilterType::Blue => abs_diff_spec(color.g as int, REFERENCE_LEVEL as int)
                + abs_diff_spec(color.r as int, REFERENCE_LEVEL as int),
            FilterType::Green => abs_diff_spec(color.b as int, REFERENCE_LEVEL as int)
                + abs_diff_spec(color.r as int, REFERENCE_LEVEL as int),
        }
    }

    /// The chroma-key decision: the key channel is strongly saturated and the
    /// other two channels are both close to the reference level.
    pub open spec fn spec_should_cut_off(self, color: Color) -> bool {
        &&& CUT_OFF_LOW as int <= self.key_channel(color) < CUT_OFF_HIGH as int
        &&& self.variance(color) < VARIANCE_LIMIT as int
    }

    /// The filtered frame: wherever the decision fires, the background pixel
    /// replaces the current one; everywhere else the current pixel passes
    /// through unchanged.
    pub open spec fn apply_spec(self, background: Seq<Color>, current: Seq<Color>) -> Seq<Color> {
        Seq::new(current.len(), |i: int| if self.spec_should_cut_off(current[i]) {
            background[i]
        } else {
            current[i]
        })
    }

    /// Classifies one pixel as key-coloured background or foreground.
    pub fn should_cut_off(&self, color: &Color) -> (cut: bool)
        ensures
            cut == self.spec_should_cut_off(*color),
    {
        let target_color: u8;
        let mut target_color_variance: u32 = 0;

        match self {
            FilterType::Red => {
                target_color_variance += channel_distance(color.g);
                target_color_variance += channel_distance(color.b);
                target_color = color.r;
            }
            FilterType::Blue => {
                target_color_variance += channel_distance(color.g);
                target_color_variance += channel_distance(color.r);
                target_color = color.b;
            }
            FilterType::Green => {
                target_color_variance += channel_distance(color.b);
                target_color_variance += channel_distance(color.r);
                target_color = color.g;
            }
        }

        CUT_OFF_LOW <= target_color && target_color < CUT_OFF_HIGH
            && target_color_variance < VARIANCE_LIMIT
    }

    /// Substitutes the background wherever the per-pixel decision fires.
    /// Both frames must share one geometry; a mismatch is a programming
    /// error, not a runtime condition, and is excluded here.
    pub fn apply_to(&self, back_ground_frame: &Vec<Color>, current_frame: Vec<Color>) -> (out: Vec<Color>)
        requires
            back_ground_frame@.len() == current_frame@.len(),
        ensures
            out@ == self.apply_spec(back_ground_frame@, current_frame@),
            out@.len() == current_frame@.len(),
            forall|i: int| 0 <= i < current_frame@.len() ==> out@[i] == (
                if self.spec_should_cut_off(current_frame@[i]) {
                    back_ground_frame@[i]
                } else {
                    current_frame@[i]
                }),
    {
        let n = current_frame.len();
        let mut out: Vec<Color> = Vec::new();
        let mut index: usize = 0;
        while index < n
            invariant
                n == current_frame@.len(),
                back_ground_frame@.len() == n,
                index <= n,
                out@.len() == index,
                forall|i: int| 0 <= i < index ==> out@[i] == (
                    if self.spec_should_cut_off(current_frame@[i]) {
                        back_ground_frame@[i]
                    } else {
                        current_frame@[i]
                    }),
            decreases n - index,
        {
            let color = current_frame[index];
            if self.should_cut_off(&color) {
                out.push(back_ground_frame[index]);
            } else {
                out.push(color);
            }
            index += 1;
        }
        proof {
            assert(out@ =~= self.apply_spec(back_ground_frame@, current_frame@));
        }
        out
    }
}

/// Unsigned distance of one channel from the reference level, widened so the
/// two distances can be summed without overflow.
fn channel_distance(channel: u8) -> (d: u32)
    ensures
        d == abs_diff_spec(channel as int, REFERENCE_LEVEL as int),
        d <= 255,
{
    if channel >= REFERENCE_LEVEL {
        (channel - REFERENCE_LEVEL) as u32
    } else {
        (REFERENCE_LEVEL - channel) as u32
    }
}

} // verus!
