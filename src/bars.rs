use vstd::prelude::*;
use crate::scale::Ratio;

verus! {

/// Largest label count or group size that bar placement handles.
pub open spec fn max_slots() -> int {
    0xffff_ffff
}

/// Largest pixel extent of an axis that bar placement handles.
pub open spec fn max_extent() -> int {
    0x1_0000_0000
}

/// Left edge of band `index` of a group of `group` series in slot `rank`,
/// in units of one `20 * group`-th of a slot (a tenth of the slot is left
/// as gutter, half of it before the first band).
pub open spec fn band_low(rank: int, index: int, group: int) -> int {
    20 * group * rank + 18 * index + group
}

/// Right edge of the band, in the same units: each band is nine tenths of a slot over `group`.
pub open spec fn band_high(rank: int, index: int, group: int) -> int {
    band_low(rank, index, group) + 18
}

/// Center of the band, in the same units.
pub open spec fn band_mid(rank: int, index: int, group: int) -> int {
    band_low(rank, index, group) + 9
}

/// Pixel position of the band center on an axis of `extent` pixels with `labels` slots.
pub open spec fn band_center_spec(rank: int, labels: int, index: int, group: int, extent: int) -> (int, int) {
    (extent * band_mid(rank, index, group), 20 * group * labels)
}

/// Pixel width of each band on an axis of `extent` pixels with `labels` slots.
pub open spec fn band_width_spec(labels: int, group: int, extent: int) -> (int, int) {
    (18 * extent, 20 * group * labels)
}

/// Pixel position on the label axis of the bar of series `index` (of `group`)
/// at the label of rank `rank` (of `labels`).
pub fn band_center(rank: usize, labels: usize, index: usize, group: usize, extent: i64) -> (r: Ratio)
    requires
        rank < labels <= max_slots(),
        index < group <= max_slots(),
        -max_extent() <= extent <= max_extent(),
    ensures
        r.pair() == band_center_spec(rank as int, labels as int, index as int, group as int, extent as int),
{
    proof {
        let (k, l, s, g) = (rank as int, labels as int, index as int, group as int);
        assert(0 < 20 * g * l <= 20 * 0xffff_ffff * 0xffff_ffff) by (nonlinear_arith)
            requires 0 < g <= 0xffff_ffff, 0 < l <= 0xffff_ffff;
        assert(0 <= 20 * g * k <= 20 * 0xffff_ffff * 0xffff_ffff) by (nonlinear_arith)
            requires 0 < g <= 0xffff_ffff, 0 <= k <= 0xffff_ffff;
        let m = band_mid(k, s, g);
        assert(0 < m < 0x100_0000_0000_0000_0000);
        assert(-0x100_0000_0000_0000_0000 * 0x1_0000_0000 <= extent * m <= 0x100_0000_0000_0000_0000 * 0x1_0000_0000)
            by (nonlinear_arith) requires 0 < m < 0x100_0000_0000_0000_0000, -0x1_0000_0000 <= extent <= 0x1_0000_0000;
    }
    let g = group as i128;
    let mid = 20 * g * (rank as i128) + 18 * (index as i128) + 9 + g;
    Ratio { num: (extent as i128) * mid, den: 20 * g * (labels as i128) }
}

/// Pixel width of each bar of a group of `group` series over `labels` slots.
pub fn band_width(labels: usize, group: usize, extent: i64) -> (r: Ratio)
    requires
        0 < labels <= max_slots(),
        0 < group <= max_slots(),
        -max_extent() <= extent <= max_extent(),
    ensures
        r.pair() == band_width_spec(labels as int, group as int, extent as int),
{
    proof {
        let (l, g) = (labels as int, group as int);
        assert(0 < 20 * g * l <= 20 * 0xffff_ffff * 0xffff_ffff) by (nonlinear_arith)
            requires 0 < g <= 0xffff_ffff, 0 < l <= 0xffff_ffff;
    }
    Ratio { num: 18 * (extent as i128), den: 20 * (group as i128) * (labels as i128) }
}

/// Within one label slot, the bands of a group's series follow the series' order,
/// each band lies strictly inside the slot, consecutive bands do not overlap, and the
/// pixel center is the band's middle scaled by the axis extent.
pub proof fn lemma_bands_ordered(rank: int, labels: int, i: int, j: int, group: int, extent: int)
    requires
        0 <= rank < labels,
        0 <= i < j < group,
    ensures
        band_mid(rank, i, group) < band_mid(rank, j, group),
        band_high(rank, i, group) <= band_low(rank, j, group),
        20 * group * rank < band_low(rank, i, group),
        band_high(rank, j, group) < 20 * group * (rank + 1),
        band_low(rank, i, group) < band_mid(rank, i, group) < band_high(rank, i, group),
        band_center_spec(rank, labels, i, group, extent).0 == extent * band_mid(rank, i, group),
        band_center_spec(rank, labels, i, group, extent).1 == 20 * group * labels,
{
    assert(20 * group * (rank + 1) == 20 * group * rank + 20 * group) by (nonlinear_arith);
}

} // verus!
