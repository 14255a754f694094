use vstd::prelude::*;
use crate::error::ChartError;
use crate::text::{tenths_text, tenths_to_text};
use crate::series::{SeriesModel, label_views, first_seen, lemma_first_seen, distinct_labels, Series};

verus! {

/// Number of equal segments a numeric axis is partitioned into by its ticks.
pub const NUMERIC_TICK_SEGMENTS: usize = 5;

/// An exact fraction `num / den`.
#[derive(Clone, Copy, Debug, PartialEq, Eq, Structural)]
pub struct Ratio {
    pub num: i128,
    pub den: i128,
}

/// Bound on the numerator of a domain value handed to `Scale::scale`.
pub open spec fn num_bound() -> int {
    0x1_0000_0000_0000_0000_0000_0000
}

/// Bound on the denominator of a domain value handed to `Scale::scale`.
pub open spec fn den_bound() -> int {
    0x1_0000_0000
}

impl Ratio {
    /// Numerator and denominator as whole numbers.
    pub open spec fn pair(self) -> (int, int) {
        (self.num as int, self.den as int)
    }

    /// A fraction that `Scale::scale` accepts as a domain value.
    pub open spec fn is_domain_value(self) -> bool {
        0 < self.den <= den_bound() && -num_bound() <= self.num <= num_bound()
    }

    /// The whole number `v` as a fraction.
    pub fn from_int(v: i64) -> (r: Ratio)
        ensures
            r.pair() == (v as int, 1int),
            r.is_domain_value(),
    {
        Ratio { num: v as i128, den: 1 }
    }
}

/// Two fractions stand for the same rational number.
pub open spec fn same_value(a: (int, int), b: (int, int)) -> bool {
    a.0 * b.1 == b.0 * a.1
}

/// A tick on an axis: where it stands in [0, 1], the domain value there, and its
/// text (the label, or the value in decimal).
#[derive(Clone, Debug)]
pub struct Tick {
    pub position: Ratio,
    pub value: Ratio,
    pub text: Option<String>,
}

/// Maps domain values of one axis onto [0, 1].
#[derive(Clone, Debug)]
pub enum Scale {
    /// A numeric domain `[min, max]`.
    Numeric { min: i64, max: i64 },
    /// A categorical domain: the distinct labels in first-seen order.
    Label { labels: Vec<String> },
}

/// Whether `s` is the least element of `v`.
pub open spec fn is_min_of(v: Seq<i64>, s: i64) -> bool {
    v.contains(s) && forall|i: int| 0 <= i < v.len() ==> s <= #[trigger] v[i]
}

/// Whether `s` is the greatest element of `v`.
pub open spec fn is_max_of(v: Seq<i64>, s: i64) -> bool {
    v.contains(s) && forall|i: int| 0 <= i < v.len() ==> #[trigger] v[i] <= s
}

/// Normalized position of the domain value `v` on the numeric domain `[min, max]`,
/// clamped to [0, 1]; one half on a degenerate domain.
pub open spec fn numeric_position(min: int, max: int, v: (int, int)) -> (int, int) {
    if min == max {
        (1, 2)
    } else if v.0 <= min * v.1 {
        (0, 1)
    } else if v.0 >= max * v.1 {
        (1, 1)
    } else {
        (v.0 - min * v.1, v.1 * (max - min))
    }
}

/// Normalized position of the rank `v` among `count` labels; one half when there are none.
pub open spec fn label_position(count: int, v: (int, int)) -> (int, int) {
    if count == 0 {
        (1, 2)
    } else {
        (v.0, v.1 * count)
    }
}

/// The domain value of numeric tick `k` on `[min, max]`.
pub open spec fn numeric_tick_value(min: int, max: int, k: int) -> (int, int) {
    (min * NUMERIC_TICK_SEGMENTS + k * (max - min), NUMERIC_TICK_SEGMENTS as int)
}

/// The least element of a non-empty sequence.
pub open spec fn seq_min(v: Seq<i64>) -> i64 {
    choose|m: i64| is_min_of(v, m)
}

/// The greatest element of a non-empty sequence.
pub open spec fn seq_max(v: Seq<i64>) -> i64 {
    choose|m: i64| is_max_of(v, m)
}

/// The normalized position of `v` on the scale fitted to `s`.
pub open spec fn series_position(s: SeriesModel, v: (int, int)) -> (int, int) {
    match s {
        SeriesModel::Numeric(xs) =>
            if xs.len() == 0 { (1, 2) }
            else { numeric_position(seq_min(xs) as int, seq_max(xs) as int, v) },
        SeriesModel::Label(ls) => label_position(first_seen(ls).len() as int, v),
    }
}

/// A whole domain value within 64 bits and a sign: what plotting hands to a scale.
pub open spec fn small_value(value: Ratio) -> bool {
    value.den == 1 && -0x1_0000_0000_0000_0000 <= value.num <= 0x1_0000_0000_0000_0000
}

/// A position whose parts fit 64 bits and a sign, so that it can be scaled by a pixel extent.
pub open spec fn small_result(r: Ratio) -> bool {
    &&& -0x1_0000_0000_0000_0000 <= r.num <= 0x1_0000_0000_0000_0000
    &&& 0 < r.den <= 0x1_0000_0000_0000_0000
}

/// The position of `value` on the numeric domain `[min, max]`.
fn numeric_scale(min: i64, max: i64, value: Ratio) -> (r: Ratio)
    requires
        min <= max,
        value.is_domain_value(),
    ensures
        r.pair() == numeric_position(min as int, max as int, value.pair()),
        small_value(value) ==> small_result(r),
{
    let lo = min as i128;
    let hi = max as i128;
    if lo == hi {
        return Ratio { num: 1, den: 2 };
    }
    let d = value.den;
    proof {
        assert(-0x8000_0000_0000_0000 * 0x1_0000_0000 <= lo * d <= 0x8000_0000_0000_0000 * 0x1_0000_0000)
            by (nonlinear_arith) requires -0x8000_0000_0000_0000 <= lo <= 0x8000_0000_0000_0000, 0 < d <= 0x1_0000_0000;
        assert(-0x8000_0000_0000_0000 * 0x1_0000_0000 <= hi * d <= 0x8000_0000_0000_0000 * 0x1_0000_0000)
            by (nonlinear_arith) requires -0x8000_0000_0000_0000 <= hi <= 0x8000_0000_0000_0000, 0 < d <= 0x1_0000_0000;
        assert(0 < d * (hi - lo) <= 0x1_0000_0000 * 0x1_0000_0000_0000_0000)
            by (nonlinear_arith) requires 0 < d <= 0x1_0000_0000, 0 < hi - lo <= 0x1_0000_0000_0000_0000;
    }
    let lo_scaled = lo * d;
    let hi_scaled = hi * d;
    if value.num <= lo_scaled {
        Ratio { num: 0, den: 1 }
    } else if value.num >= hi_scaled {
        Ratio { num: 1, den: 1 }
    } else {
        proof {
            if d == 1 {
                assert(lo * d == lo && hi * d == hi && d * (hi - lo) == hi - lo) by (nonlinear_arith)
                    requires d == 1;
            }
        }
        Ratio { num: value.num - lo_scaled, den: d * (hi - lo) }
    }
}

/// The position of the rank `value` among `n` labels.
fn label_scale(n: usize, value: Ratio) -> (r: Ratio)
    requires
        value.is_domain_value(),
    ensures
        r.pair() == label_position(n as int, value.pair()),
        small_value(value) ==> small_result(r),
{
    if n == 0 {
        return Ratio { num: 1, den: 2 };
    }
    let d = value.den;
    proof {
        assert(0 < d * n <= 0x1_0000_0000 * 0x1_0000_0000_0000_0000)
            by (nonlinear_arith) requires 0 < d <= 0x1_0000_0000, 0 < n <= 0x1_0000_0000_0000_0000;
        if d == 1 {
            assert(d * n == n) by (nonlinear_arith) requires d == 1;
        }
    }
    Ratio { num: value.num, den: d * (n as i128) }
}

/// One tick per label, at its rank over the label count.
fn label_ticks(labels: &Vec<String>) -> (out: Vec<Tick>)
    ensures
        out@.len() == labels@.len(),
        forall|j: int| 0 <= j < out@.len() ==> {
            &&& (#[trigger] out@[j]).position.pair() == (j, labels@.len() as int)
            &&& out@[j].value.pair() == (j, 1int)
            &&& out@[j].value.is_domain_value()
            &&& out@[j].text == Some(labels@[j])
        },
{
    let mut out: Vec<Tick> = Vec::new();
    let mut k: usize = 0;
    while k < labels.len()
        invariant
            k <= labels.len(),
            out@.len() == k,
            forall|j: int| 0 <= j < k ==> {
                &&& (#[trigger] out@[j]).position.pair() == (j, labels@.len() as int)
                &&& out@[j].value.pair() == (j, 1int)
                &&& out@[j].value.is_domain_value()
                &&& out@[j].text == Some(labels@[j])
            },
        decreases labels.len() - k,
    {
        let t = Tick {
            position: Ratio { num: k as i128, den: labels.len() as i128 },
            value: Ratio { num: k as i128, den: 1 },
            text: Some(labels[k].clone()),
        };
        out.push(t);
        k = k + 1;
    }
    out
}

impl Scale {
    /// A numeric domain is ordered; a label domain holds each label once.
    pub open spec fn wf(&self) -> bool {
        match self {
            Scale::Numeric { min, max } => *min <= *max,
            Scale::Label { labels } => label_views(labels@).no_duplicates(),
        }
    }

    /// The labels of a categorical domain (empty for a numeric one).
    pub open spec fn label_seq(&self) -> Seq<Seq<char>> {
        match self {
            Scale::Numeric { .. } => Seq::empty(),
            Scale::Label { labels } => label_views(labels@),
        }
    }

    /// Number of domain buckets.
    pub open spec fn spec_count(&self) -> int {
        match self {
            Scale::Numeric { .. } => NUMERIC_TICK_SEGMENTS as int,
            Scale::Label { labels } => labels@.len() as int,
        }
    }

    /// The normalized position of `v`.
    pub open spec fn position(&self, v: (int, int)) -> (int, int) {
        match self {
            Scale::Numeric { min, max } => numeric_position(*min as int, *max as int, v),
            Scale::Label { labels } => label_position(labels@.len() as int, v),
        }
    }

    /// Fits a scale to a series: `[min, max]` of the numbers, or the distinct labels.
    pub fn fit(s: &Series) -> (r: Scale)
        ensures
            r.wf(),
            forall|v: (int, int)| #[trigger] r.position(v) == series_position(s@, v),
            match (s, r) {
                (Series::Numeric(v), Scale::Numeric { min, max }) =>
                    if v@.len() == 0 { min == 0 && max == 0 }
                    else { is_min_of(v@, min) && is_max_of(v@, max) },
                (Series::Label(v), Scale::Label { labels }) =>
                    label_views(labels@) == first_seen(label_views(v@)),
                _ => false,
            },
    {
        match s {
            Series::Numeric(v) => {
                if v.len() == 0 {
                    return Scale::Numeric { min: 0, max: 0 };
                }
                let mut lo: i64 = v[0];
                let mut hi: i64 = v[0];
                let mut i: usize = 1;
                assert(v@.subrange(0, 1)[0] == v@[0]);
                while i < v.len()
                    invariant
                        1 <= i <= v.len(),
                        v@.subrange(0, i as int).contains(lo),
                        v@.subrange(0, i as int).contains(hi),
                        forall|j: int| 0 <= j < i ==> lo <= #[trigger] v@[j] <= hi,
                    decreases v.len() - i,
                {
                    proof {
                        let a = choose|j: int| 0 <= j < i && v@.subrange(0, i as int)[j] == lo;
                        let b = choose|j: int| 0 <= j < i && v@.subrange(0, i as int)[j] == hi;
                        assert(v@.subrange(0, i + 1)[a] == lo);
                        assert(v@.subrange(0, i + 1)[b] == hi);
                        assert(v@.subrange(0, i + 1)[i as int] == v@[i as int]);
                    }
                    if v[i] < lo {
                        lo = v[i];
                    }
                    if v[i] > hi {
                        hi = v[i];
                    }
                    i = i + 1;
                }
                assert(v@.subrange(0, v.len() as int) =~= v@);
                proof {
                    let a = seq_min(v@);
                    let b = seq_max(v@);
                    assert(is_min_of(v@, lo));
                    assert(is_max_of(v@, hi));
                    let ia = choose|j: int| 0 <= j < v@.len() && v@[j] == a;
                    let ib = choose|j: int| 0 <= j < v@.len() && v@[j] == b;
                    let il = choose|j: int| 0 <= j < v@.len() && v@[j] == lo;
                    let ih = choose|j: int| 0 <= j < v@.len() && v@[j] == hi;
                    assert(v@[ia] >= lo && v@[il] >= a);
                    assert(v@[ib] <= hi && v@[ih] <= b);
                }
                Scale::Numeric { min: lo, max: hi }
            },
            Series::Label(v) => {
                let labels = distinct_labels(v);
                proof {
                    lemma_first_seen(label_views(v@));
                    assert(labels@.len() == label_views(labels@).len());
                }
                Scale::Label { labels }
            },
        }
    }

    /// Number of ticks `gen_axes` produces.
    pub open spec fn tick_count(&self) -> int {
        match self {
            Scale::Numeric { min, max } => if *min == *max { 1 } else { NUMERIC_TICK_SEGMENTS + 1 },
            Scale::Label { labels } => labels@.len() as int,
        }
    }

    /// Normalized position of tick `k`.
    pub open spec fn tick_position(&self, k: int) -> (int, int) {
        match self {
            Scale::Numeric { min, max } => if *min == *max { (1, 2) } else { (k, NUMERIC_TICK_SEGMENTS as int) },
            Scale::Label { labels } => (k, labels@.len() as int),
        }
    }

    /// Domain value of tick `k`.
    pub open spec fn tick_value(&self, k: int) -> (int, int) {
        match self {
            Scale::Numeric { min, max } => numeric_tick_value(*min as int, *max as int, k),
            Scale::Label { .. } => (k, 1),
        }
    }

    /// The ticks of the axis: an even partition of a numeric domain into
    /// `NUMERIC_TICK_SEGMENTS` segments (one middle tick on a degenerate domain),
    /// each with its value in decimal (the value has fifths, so one decimal
    /// place is exact), or one tick per label at its rank, with the label as text.
    pub fn gen_axes(&self) -> (r: Vec<Tick>)
        requires
            self.wf(),
        ensures
            r@.len() == self.tick_count(),
            forall|k: int| 0 <= k < r@.len() ==> {
                &&& #[trigger] r@[k].position.pair() == self.tick_position(k)
                &&& r@[k].value.pair() == self.tick_value(k)
                &&& r@[k].value.is_domain_value()
                &&& match self {
                    Scale::Numeric { .. } => r@[k].text matches Some(t) && t@ == tenths_text(2 * r@[k].value.num),
                    Scale::Label { labels } => r@[k].text == Some(labels@[k]),
                }
            },
    {
        let mut out: Vec<Tick> = Vec::new();
        match self {
            Scale::Numeric { min, max } => {
                let seg = NUMERIC_TICK_SEGMENTS as i128;
                if *min == *max {
                    let v = (*min as i128) * seg;
                    out.push(Tick { position: Ratio { num: 1, den: 2 }, value: Ratio { num: v, den: seg }, text: Some(tenths_to_text(2 * v)) });
                    return out;
                }
                let span = (*max as i128) - (*min as i128);
                let mut k: usize = 0;
                while k <= NUMERIC_TICK_SEGMENTS
                    invariant
                        k <= NUMERIC_TICK_SEGMENTS + 1,
                        *min < *max,
                        *self == (Scale::Numeric { min: *min, max: *max }),
                        span == *max - *min,
                        seg == NUMERIC_TICK_SEGMENTS,
                        out@.len() == k,
                        forall|j: int| 0 <= j < k ==> {
                            &&& #[trigger] out@[j].position.pair() == self.tick_position(j)
                            &&& out@[j].value.pair() == self.tick_value(j)
                            &&& out@[j].value.is_domain_value()
                            &&& out@[j].text matches Some(t) && t@ == tenths_text(2 * out@[j].value.num)
                        },
                    decreases NUMERIC_TICK_SEGMENTS + 1 - k,
                {
                    proof {
                        let kk = k as int;
                        assert(0 <= kk * span <= 5 * 0x1_0000_0000_0000_0000)
                            by (nonlinear_arith) requires 0 <= kk <= 5, 0 < span <= 0x1_0000_0000_0000_0000;
                    }
                    let v = (*min as i128) * seg + (k as i128) * span;
                    out.push(Tick { position: Ratio { num: k as i128, den: seg }, value: Ratio { num: v, den: seg }, text: Some(tenths_to_text(2 * v)) });
                    k = k + 1;
                }
            },
            Scale::Label { labels } => {
                out = label_ticks(labels);
            },
        }
        out
    }

    /// Number of domain buckets: the label count, or the numeric tick segments.
    pub fn get_count(&self) -> (r: usize)
        ensures
            r as int == self.spec_count(),
    {
        match self {
            Scale::Numeric { .. } => NUMERIC_TICK_SEGMENTS,
            Scale::Label { labels } => labels.len(),
        }
    }

    /// The normalized position of the domain value `value`, in [0, 1] on a numeric domain.
    pub fn scale(&self, value: Ratio) -> (r: Ratio)
        requires
            self.wf(),
            value.is_domain_value(),
        ensures
            r.pair() == self.position(value.pair()),
            small_value(value) ==> small_result(r),
    {
        match self {
            Scale::Numeric { min, max } => numeric_scale(*min, *max, value),
            Scale::Label { labels } => label_scale(labels.len(), value),
        }
    }

    /// The rank of `label` in the categorical domain; an error when it is not there.
    pub fn scale_index(&self, label: &String) -> (r: Result<usize, ChartError>)
        requires
            self.wf(),
        ensures
            match r {
                Ok(i) => i < self.label_seq().len() && self.label_seq()[i as int] == label@,
                Err(e) => e == ChartError::UnknownLabel && !self.label_seq().contains(label@),
            },
    {
        match self {
            Scale::Numeric { .. } => Err(ChartError::UnknownLabel),
            Scale::Label { labels } => {
                let mut i: usize = 0;
                while i < labels.len()
                    invariant
                        i <= labels.len(),
                        self.label_seq() == label_views(labels@),
                        forall|j: int| 0 <= j < i ==> labels@[j]@ != label@,
                    decreases labels.len() - i,
                {
                    if labels[i] == *label {
                        assert(label_views(labels@)[i as int] == labels@[i as int]@);
                        return Ok(i);
                    }
                    i = i + 1;
                }
                proof {
                    if label_views(labels@).contains(label@) {
                        let j = choose|j: int| 0 <= j < labels@.len() && label_views(labels@)[j] == label@;
                        assert(labels@[j]@ == label@);
                    }
                }
                Err(ChartError::UnknownLabel)
            },
        }
    }
}

/// On a numeric domain with `min < max`, the domain's ends map to exactly 0 and 1.
pub proof fn lemma_scale_ends(v: Seq<i64>, min: i64, max: i64)
    requires
        is_min_of(v, min),
        is_max_of(v, max),
        min < max,
    ensures
        (Scale::Numeric { min, max }).position((min as int, 1)) == (0int, 1int),
        (Scale::Numeric { min, max }).position((max as int, 1)) == (1int, 1int),
{
}

/// On a degenerate numeric domain every value maps to one half.
pub proof fn lemma_scale_degenerate(min: i64, max: i64, v: (int, int))
    requires
        min == max,
    ensures
        (Scale::Numeric { min, max }).position(v) == (1int, 2int),
{
}

/// On a label domain, two ranks hold the same label exactly when they are the same rank.
pub proof fn lemma_rank_unique(s: Scale, i: int, j: int)
    requires
        s.wf(),
        s is Label,
        0 <= i < s.label_seq().len(),
        0 <= j < s.label_seq().len(),
    ensures
        (s.label_seq()[i] == s.label_seq()[j]) <==> (i == j),
{
}

/// Round trip of one tick of a numeric domain.
proof fn lemma_numeric_tick(lo: int, hi: int, k: int)
    requires
        lo < hi,
        0 <= k <= NUMERIC_TICK_SEGMENTS,
    ensures
        same_value(numeric_position(lo, hi, numeric_tick_value(lo, hi, k)), (k, NUMERIC_TICK_SEGMENTS as int)),
{
    let n = NUMERIC_TICK_SEGMENTS as int;
    let d = hi - lo;
    let v = numeric_tick_value(lo, hi, k);
    assert(v.0 - lo * n == k * d) by (nonlinear_arith) requires v.0 == lo * n + k * d;
    assert(v.0 <= lo * v.1 <==> k == 0) by (nonlinear_arith) requires v.0 == lo * n + k * d, v.1 == n, n == 5, d > 0, 0 <= k <= 5;
    assert(v.0 >= hi * v.1 <==> k == 5) by (nonlinear_arith) requires v.0 == lo * n + k * d, v.1 == n, n == 5, d > 0, 0 <= k <= 5, hi == lo + d;
    let p = numeric_position(lo, hi, v);
    if k == 0 {
        assert(p == (0int, 1int));
        assert(p.0 * n == k * p.1);
    } else if k == 5 {
        assert(p == (1int, 1int));
        assert(p.0 * n == k * p.1);
    } else {
        assert(p == (k * d, n * d));
        assert((k * d) * n == k * (n * d)) by (nonlinear_arith);
    }
}

/// Scaling the domain value of any tick gives back that tick's position.
pub proof fn lemma_tick_round_trip(s: Scale, k: int)
    requires
        s.wf(),
        0 <= k < s.tick_count(),
    ensures
        same_value(s.position(s.tick_value(k)), s.tick_position(k)),
{
    match s {
        Scale::Numeric { min, max } => {
            let lo = min as int;
            let hi = max as int;
            if lo < hi {
                lemma_numeric_tick(lo, hi, k);
            }
        },
        Scale::Label { labels } => {
            let n = labels@.len() as int;
            assert(k * n == k * (1 * n)) by (nonlinear_arith);
        },
    }
}

} // verus!
