use vstd::prelude::*;
use vstd::arithmetic::div_mod::{lemma_add_mod_noop, lemma_mod_twice, lemma_mul_mod_noop_general};
use vstd::arithmetic::mul::lemma_mul_upper_bound;

verus! {

/// Default hue rotation between consecutive series of a group, in degrees.
pub const DEFAULT_SHIFT_DEGREES: u32 = 70;

/// A color by lightness, chroma and hue, the hue in whole degrees below 360.
#[derive(Clone, Copy, Debug, PartialEq, Eq, Structural)]
pub struct Color {
    pub lightness: u32,
    pub chroma: u32,
    pub hue: u32,
}

/// The hue reached from `hue` after `index` rotations by `degrees`.
pub open spec fn rotated_hue(hue: int, degrees: int, index: int) -> int {
    (hue + degrees * index) % 360
}

impl Color {
    /// The hue is a whole number of degrees below 360.
    pub open spec fn wf(&self) -> bool {
        self.hue < 360
    }

    /// A color; the hue is taken modulo 360.
    pub fn new(lightness: u32, chroma: u32, hue: u32) -> (r: Color)
        ensures
            r.wf(),
            r.lightness == lightness,
            r.chroma == chroma,
            r.hue == hue % 360,
    {
        Color { lightness, chroma, hue: hue % 360 }
    }

    /// The color of series `index` in a group: the hue rotated by
    /// `degrees * index` modulo 360, lightness and chroma kept.
    pub fn shift_hue_degrees_index(&self, degrees: u32, index: usize) -> (r: Color)
        requires
            self.wf(),
        ensures
            r.wf(),
            r.lightness == self.lightness,
            r.chroma == self.chroma,
            r.hue == rotated_hue(self.hue as int, degrees as int, index as int),
    {
        let d = (degrees % 360) as u64;
        let i = (index % 360) as u64;
        proof {
            lemma_mul_upper_bound(d as int, 359, i as int, 359);
        }
        let step = (d * i) % 360;
        let hue = ((self.hue as u64 + step) % 360) as u32;
        proof {
            let (h, dd, ii) = (self.hue as int, degrees as int, index as int);
            lemma_mul_mod_noop_general(dd, ii, 360);
            lemma_add_mod_noop(h, dd * ii, 360);
            lemma_add_mod_noop(h, (dd * ii) % 360, 360);
            lemma_mod_twice(dd * ii, 360);
        }
        Color { lightness: self.lightness, chroma: self.chroma, hue }
    }
}

/// Rotating by zero steps keeps the color, and any rotation whose total angle is a
/// multiple of 360 degrees keeps the hue.
pub proof fn lemma_hue_full_turn(c: Color, degrees: u32, index: usize)
    requires
        c.wf(),
    ensures
        index == 0 ==> rotated_hue(c.hue as int, degrees as int, index as int) == c.hue,
        (degrees as int * index as int) % 360 == 0 ==> rotated_hue(c.hue as int, degrees as int, index as int) == c.hue,
{
    let (h, t) = (c.hue as int, degrees as int * index as int);
    lemma_add_mod_noop(h, t, 360);
    assert(h % 360 == h);
}

} // verus!
