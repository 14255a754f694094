use vstd::prelude::*;
use crate::bars::{band_center, band_center_spec, band_width, band_width_spec, max_slots, max_extent};
use crate::chart::{error_after_view, pixel};
use crate::color::{rotated_hue, Color};
use crate::error::ChartError;
use crate::layout::{request, Viewport};
use crate::scale::{series_position, small_result, Ratio, Scale};
use crate::series::{copy_series, first_seen, label_views, lemma_first_seen, rank_in, Series, SeriesModel};

verus! {

/// The models of a list of series.
pub open spec fn models(ss: Seq<Series>) -> Seq<SeriesModel> {
    ss.map_values(|s: Series| s@)
}

/// All labels of the label series in `ms`, series after series.
pub open spec fn label_cat(ms: Seq<SeriesModel>) -> Seq<Seq<char>>
    decreases ms.len(),
{
    if ms.len() == 0 {
        Seq::empty()
    } else {
        match ms.last() {
            SeriesModel::Label(ls) => label_cat(ms.drop_last()) + ls,
            SeriesModel::Numeric(_) => label_cat(ms.drop_last()),
        }
    }
}

/// All numbers of the numeric series in `ms`, series after series.
pub open spec fn numeric_cat(ms: Seq<SeriesModel>) -> Seq<i64>
    decreases ms.len(),
{
    if ms.len() == 0 {
        Seq::empty()
    } else {
        match ms.last() {
            SeriesModel::Numeric(v) => numeric_cat(ms.drop_last()) + v,
            SeriesModel::Label(_) => numeric_cat(ms.drop_last()),
        }
    }
}

/// The series a group's axis is scaled by: the entries of every series of the
/// first series' kind.
pub open spec fn merged(ms: Seq<SeriesModel>) -> SeriesModel {
    if ms.len() > 0 && ms[0] is Label {
        SeriesModel::Label(label_cat(ms))
    } else {
        SeriesModel::Numeric(numeric_cat(ms))
    }
}

/// Label `i` of a label series.
pub open spec fn label_at(m: SeriesModel, i: int) -> Seq<char> {
    match m {
        SeriesModel::Label(ls) => ls[i],
        SeriesModel::Numeric(_) => Seq::empty(),
    }
}

/// Every label of a label series of `ms` is among the merged labels.
proof fn lemma_label_cat_contains(ms: Seq<SeriesModel>, s: int, i: int)
    requires
        0 <= s < ms.len(),
        ms[s] is Label,
        0 <= i < ms[s].len(),
    ensures
        label_cat(ms).contains(label_at(ms[s], i)),
    decreases ms.len(),
{
    let prev = label_cat(ms.drop_last());
    if s < ms.len() - 1 {
        assert(ms.drop_last()[s] == ms[s]);
        lemma_label_cat_contains(ms.drop_last(), s, i);
        let j = choose|j: int| 0 <= j < prev.len() && prev[j] == label_at(ms[s], i);
        assert(label_cat(ms)[j] == prev[j]);
    } else {
        let ls = ms[s]->Label_0;
        assert(label_cat(ms) == prev + ls);
        assert(label_cat(ms)[prev.len() + i] == ls[i]);
    }
}

/// One series of `ss` merged into one: see `merged`.
fn merge_series(ss: &Vec<Series>) -> (r: Series)
    ensures
        r@ == merged(models(ss@)),
{
    let label = ss.len() > 0 && ss[0].is_label_series();
    if label {
        let mut out: Vec<String> = Vec::new();
        let mut k: usize = 0;
        while k < ss.len()
            invariant
                k <= ss.len(),
                label_views(out@) == label_cat(models(ss@.subrange(0, k as int))),
            decreases ss.len() - k,
        {
            let ghost before = label_views(out@);
            assert(models(ss@.subrange(0, k + 1)).drop_last() =~= models(ss@.subrange(0, k as int)));
            assert(models(ss@.subrange(0, k + 1)).last() == ss@[k as int]@);
            match &ss[k] {
                Series::Label(v) => {
                    let mut j: usize = 0;
                    while j < v.len()
                        invariant
                            j <= v.len(),
                            label_views(out@) == before + label_views(v@.subrange(0, j as int)),
                        decreases v.len() - j,
                    {
                        let ghost prev = label_views(out@);
                        out.push(v[j].clone());
                        assert(label_views(out@) =~= prev.push(v@[j as int]@));
                        assert(label_views(v@.subrange(0, j + 1)) =~= label_views(v@.subrange(0, j as int)).push(v@[j as int]@));
                        assert(label_views(out@) =~= before + label_views(v@.subrange(0, j + 1)));
                        j = j + 1;
                    }
                    assert(v@.subrange(0, v.len() as int) =~= v@);
                },
                Series::Numeric(_) => {},
            }
            k = k + 1;
        }
        assert(ss@.subrange(0, ss.len() as int) =~= ss@);
        Series::Label(out)
    } else {
        let mut out: Vec<i64> = Vec::new();
        let mut k: usize = 0;
        while k < ss.len()
            invariant
                k <= ss.len(),
                out@ == numeric_cat(models(ss@.subrange(0, k as int))),
            decreases ss.len() - k,
        {
            let ghost before = out@;
            assert(models(ss@.subrange(0, k + 1)).drop_last() =~= models(ss@.subrange(0, k as int)));
            assert(models(ss@.subrange(0, k + 1)).last() == ss@[k as int]@);
            match &ss[k] {
                Series::Numeric(v) => {
                    let mut j: usize = 0;
                    while j < v.len()
                        invariant
                            j <= v.len(),
                            out@ == before + v@.subrange(0, j as int),
                        decreases v.len() - j,
                    {
                        out.push(v[j]);
                        assert(out@ =~= before + v@.subrange(0, j + 1));
                        j = j + 1;
                    }
                    assert(v@.subrange(0, v.len() as int) =~= v@);
                },
                Series::Label(_) => {},
            }
            k = k + 1;
        }
        assert(ss@.subrange(0, ss.len() as int) =~= ss@);
        Series::Numeric(out)
    }
}

/// One bar of a grouped bar chart, in the plot area's pixels: its center along the
/// label axis, its length along the value axis, its thickness and its color.
#[derive(Clone, Copy, Debug, PartialEq, Eq, Structural)]
pub struct Bar {
    pub center: Ratio,
    pub length: Ratio,
    pub width: Ratio,
    pub color: Color,
}

/// Whether `b` is the bar of entry `i` of series `s`, on a label axis of `cat_extent`
/// pixels and a value axis of `val_extent` pixels.
pub open spec fn bar_spec(
    b: Bar,
    cats: Seq<SeriesModel>,
    vals: Seq<SeriesModel>,
    s: int,
    i: int,
    cat_extent: int,
    val_extent: int,
    color: Color,
    shift: u32,
) -> bool {
    let labels = first_seen(label_cat(cats));
    let (l, g) = (labels.len() as int, cats.len() as int);
    &&& b.center.pair() == band_center_spec(rank_in(labels, label_at(cats[s], i)), l, s, g, cat_extent)
    &&& b.length.pair() == pixel(series_position(merged(vals), (vals[s].stick_value(i), 1)), val_extent)
    &&& b.width.pair() == band_width_spec(l, g, cat_extent)
    &&& b.color.lightness == color.lightness
    &&& b.color.chroma == color.chroma
    &&& b.color.hue == rotated_hue(color.hue as int, shift as int, s)
}

/// Whether `r` holds, per series of the group, the bars of its entries in order.
pub open spec fn bars_spec(
    r: Seq<Vec<Bar>>,
    cats: Seq<SeriesModel>,
    vals: Seq<SeriesModel>,
    cat_extent: int,
    val_extent: int,
    color: Color,
    shift: u32,
) -> bool {
    &&& r.len() == cats.len()
    &&& forall|s: int| 0 <= s < r.len() ==> (#[trigger] r[s])@.len() == cats[s].len()
    &&& forall|s: int, i: int| 0 <= s < r.len() && 0 <= i < r[s]@.len() ==>
        bar_spec(#[trigger] r[s]@[i], cats, vals, s, i, cat_extent, val_extent, color, shift)
}

/// Whether a group with label series `cats` and value series `vals` can be laid out.
pub open spec fn bars_fit(cats: Seq<SeriesModel>, vals: Seq<SeriesModel>) -> bool {
    &&& 0 < cats.len() <= max_slots()
    &&& cats.len() == vals.len()
    &&& forall|s: int| 0 <= s < cats.len() ==> (#[trigger] cats[s]) is Label && cats[s].len() == vals[s].len()
    &&& first_seen(label_cat(cats)).len() <= max_slots()
}

/// Whether the series can be laid out as bars: see `bars_fit`.
fn check_fit(cats: &Vec<Series>, vals: &Vec<Series>, label_count: usize) -> (r: bool)
    requires
        label_count == first_seen(label_cat(models(cats@))).len(),
    ensures
        r == bars_fit(models(cats@), models(vals@)),
{
    if cats.len() == 0 || cats.len() > 0xffff_ffff || cats.len() != vals.len() || label_count > 0xffff_ffff {
        return false;
    }
    let mut s: usize = 0;
    while s < cats.len()
        invariant
            s <= cats.len(),
            cats.len() == vals.len(),
            forall|t: int| 0 <= t < s ==> (#[trigger] models(cats@)[t]) is Label && models(cats@)[t].len() == models(vals@)[t].len(),
        decreases cats.len() - s,
    {
        if !cats[s].is_label_series() || cats[s].len() != vals[s].len() {
            assert(!((models(cats@)[s as int]) is Label && models(cats@)[s as int].len() == models(vals@)[s as int].len()));
            return false;
        }
        s = s + 1;
    }
    true
}

/// The bars of every series: series `s` centered in band `s` of the slot of each of
/// its labels, with length given by the value scale.
fn bars_along(
    cats: &Vec<Series>,
    vals: &Vec<Series>,
    cat_scale: &Scale,
    val_scale: &Scale,
    cat_extent: i64,
    val_extent: i64,
    color: Color,
    shift: u32,
) -> (r: Vec<Vec<Bar>>)
    requires
        bars_fit(models(cats@), models(vals@)),
        cat_scale.wf(),
        cat_scale is Label,
        cat_scale.label_seq() == first_seen(label_cat(models(cats@))),
        val_scale.wf(),
        forall|p: (int, int)| #[trigger] val_scale.position(p) == series_position(merged(models(vals@)), p),
        -max_extent() <= cat_extent <= max_extent(),
        -max_extent() <= val_extent <= max_extent(),
        color.wf(),
    ensures
        bars_spec(r@, models(cats@), models(vals@), cat_extent as int, val_extent as int, color, shift),
{
    let ghost cm = models(cats@);
    let ghost vm = models(vals@);
    let g = cats.len();
    let l = cat_scale.get_count();
    proof {
        lemma_first_seen(label_cat(cm));
        assert(cm[0] is Label);
        assert(cm[0].len() >= 0);
    }
    let width = if l > 0 { band_width(l, g, cat_extent) } else { Ratio { num: 0, den: 1 } };
    let mut out: Vec<Vec<Bar>> = Vec::new();
    let mut s: usize = 0;
    while s < g
        invariant
            s <= g,
            g == cats.len(),
            cm == models(cats@),
            vm == models(vals@),
            bars_fit(cm, vm),
            cat_scale.wf(),
            cat_scale.label_seq() == first_seen(label_cat(cm)),
            l == first_seen(label_cat(cm)).len(),
            val_scale.wf(),
            forall|p: (int, int)| #[trigger] val_scale.position(p) == series_position(merged(vm), p),
            -max_extent() <= cat_extent <= max_extent(),
            -max_extent() <= val_extent <= max_extent(),
            color.wf(),
            first_seen(label_cat(cm)).no_duplicates(),
            forall|x: Seq<char>| #[trigger] first_seen(label_cat(cm)).contains(x) <==> label_cat(cm).contains(x),
            l > 0 ==> width.pair() == band_width_spec(l as int, g as int, cat_extent as int),
            out@.len() == s,
            forall|t: int| 0 <= t < s ==> (#[trigger] out@[t])@.len() == cm[t].len(),
            forall|t: int, i: int| 0 <= t < s && 0 <= i < out@[t]@.len() ==>
                bar_spec(#[trigger] out@[t]@[i], cm, vm, t, i, cat_extent as int, val_extent as int, color, shift),
        decreases g - s,
    {
        let hue = color.shift_hue_degrees_index(shift, s);
        let cst = cats[s].to_stick();
        let vst = vals[s].to_stick();
        assert(cm[s as int] == cats@[s as int]@);
        assert(vm[s as int] == vals@[s as int]@);
        let mut row: Vec<Bar> = Vec::new();
        let mut i: usize = 0;
        while i < cst.len()
            invariant
                s < g,
                g == cats.len(),
                cm == models(cats@),
                vm == models(vals@),
                cm[s as int] == cats@[s as int]@,
                vm[s as int] == vals@[s as int]@,
                bars_fit(cm, vm),
                cat_scale.wf(),
                cat_scale.label_seq() == first_seen(label_cat(cm)),
                l == first_seen(label_cat(cm)).len(),
                val_scale.wf(),
                forall|p: (int, int)| #[trigger] val_scale.position(p) == series_position(merged(vm), p),
                -max_extent() <= cat_extent <= max_extent(),
                -max_extent() <= val_extent <= max_extent(),
                first_seen(label_cat(cm)).no_duplicates(),
                forall|x: Seq<char>| #[trigger] first_seen(label_cat(cm)).contains(x) <==> label_cat(cm).contains(x),
                l > 0 ==> width.pair() == band_width_spec(l as int, g as int, cat_extent as int),
                hue.lightness == color.lightness,
                hue.chroma == color.chroma,
                hue.hue == rotated_hue(color.hue as int, shift as int, s as int),
                cst@.len() == cats@[s as int].spec_len(),
                vst@.len() == vals@[s as int].spec_len(),
                forall|j: int| 0 <= j < cst@.len() ==> cats@[s as int].stick_at(j, #[trigger] cst@[j]),
                forall|j: int| 0 <= j < vst@.len() ==> vals@[s as int].stick_at(j, #[trigger] vst@[j]),
                forall|j: int| 0 <= j < vst@.len() ==> -0x1_0000_0000_0000_0000 <= (#[trigger] vst@[j]).value <= 0x1_0000_0000_0000_0000,
                i <= cst@.len(),
                row@.len() == i,
                forall|j: int| 0 <= j < i ==>
                    bar_spec(#[trigger] row@[j], cm, vm, s as int, j, cat_extent as int, val_extent as int, color, shift),
            decreases cst@.len() - i,
        {
            assert(cats@[s as int].stick_at(i as int, cst@[i as int]));
            assert(vals@[s as int].stick_at(i as int, vst@[i as int]));
            assert(cm[s as int] is Label);
            assert(cm[s as int].len() == vm[s as int].len());
            let label = match &cst[i].label {
                Some(x) => x,
                None => { proof { assert(false); } return out; },
            };
            proof {
                assert(label@ == label_at(cm[s as int], i as int));
                lemma_label_cat_contains(cm, s as int, i as int);
            }
            let rank = match cat_scale.scale_index(label) {
                Ok(k) => k,
                Err(_) => { proof { assert(false); } return out; },
            };
            proof {
                let labels = first_seen(label_cat(cm));
                let c = rank_in(labels, label@);
                assert(0 <= c < labels.len() && labels[c] == label@);
                assert(c == rank);
            }
            let center = band_center(rank, l, s, g, cat_extent);
            let p = val_scale.scale(Ratio { num: vst[i].value, den: 1 });
            proof {
                assert(small_result(p));
                assert(-0x1_0000_0000_0000_0000 * 0x1_0000_0000 <= p.num * val_extent <= 0x1_0000_0000_0000_0000 * 0x1_0000_0000)
                    by (nonlinear_arith) requires small_result(p), -0x1_0000_0000 <= val_extent <= 0x1_0000_0000;
            }
            let length = Ratio { num: p.num * (val_extent as i128), den: p.den };
            row.push(Bar { center, length, width, color: hue });
            i = i + 1;
        }
        assert(row@.len() == cm[s as int].len());
        out.push(row);
        s = s + 1;
    }
    out
}

/// The x series of each pair.
pub open spec fn x_models(data: Seq<(Series, Series)>) -> Seq<SeriesModel> {
    data.map_values(|p: (Series, Series)| p.0@)
}

/// The y series of each pair.
pub open spec fn y_models(data: Seq<(Series, Series)>) -> Seq<SeriesModel> {
    data.map_values(|p: (Series, Series)| p.1@)
}

/// A grouped chart: pairs of series sharing one layout.
#[derive(Clone, Debug)]
pub struct CartesianGroup {
    pub data: Vec<(Series, Series)>,
    pub view: Option<Viewport>,
    pub error: Option<ChartError>,
}

impl CartesianGroup {
    /// The error after appending the pair `(ax, ay)`: an earlier error stays; else the
    /// pair's lengths must agree, and its kinds must match those of the first pair.
    pub open spec fn error_after_add(&self, ax: Series, ay: Series) -> Option<ChartError> {
        if self.error is Some {
            self.error
        } else if ax.spec_len() != ay.spec_len() {
            Some(ChartError::LengthMismatch)
        } else if self.data@.len() > 0 && (ax.is_label() != self.data@[0].0.is_label()
            || ay.is_label() != self.data@[0].1.is_label()) {
            Some(ChartError::MixedSeries)
        } else {
            None
        }
    }

    /// An empty group without layout.
    pub fn new() -> (r: CartesianGroup)
        ensures
            r.data@.len() == 0,
            r.view is None,
            r.error is None,
    {
        CartesianGroup { data: Vec::new(), view: None, error: None }
    }

    /// Appends the pair `(ax, ay)`; its index in the group is its position.
    pub fn add_data(self, ax: Series, ay: Series) -> (r: CartesianGroup)
        ensures
            r.data@ == self.data@.push((ax, ay)),
            r.view == self.view,
            r.error == self.error_after_add(ax, ay),
    {
        let mut error = self.error;
        if error.is_none() {
            if ax.len() != ay.len() {
                error = Some(ChartError::LengthMismatch);
            } else if self.data.len() > 0 && (ax.is_label_series() != self.data[0].0.is_label_series()
                || ay.is_label_series() != self.data[0].1.is_label_series()) {
                error = Some(ChartError::MixedSeries);
            }
        }
        let CartesianGroup { data, view, error: _ } = self;
        let mut data = data;
        data.push((ax, ay));
        CartesianGroup { data, view, error }
    }

    /// Lays the group out on a canvas (see `Viewport::new`); an invalid layout is
    /// recorded as the error unless an earlier one is there.
    pub fn set_view(self, width: u32, height: u32, corner: usize, x_axis_height: u32, y_axis_width: u32, margin: u32) -> (r: CartesianGroup)
        ensures
            r.data == self.data,
            r.error == error_after_view(self.error, request(width, height, corner, x_axis_height, y_axis_width, margin).is_valid()),
            request(width, height, corner, x_axis_height, y_axis_width, margin).is_valid() <==> r.view is Some,
            r.view matches Some(v) ==> v.wf() && v.matches_request(width, height, corner, x_axis_height, y_axis_width, margin),
    {
        let CartesianGroup { data, view: _, error } = self;
        match Viewport::new(width, height, corner, x_axis_height, y_axis_width, margin) {
            Ok(v) => CartesianGroup { data, view: Some(v), error },
            Err(e) => {
                let error = if error.is_some() { error } else { Some(e) };
                CartesianGroup { data, view: None, error }
            },
        }
    }

    /// The layout, once set.
    pub fn get_view(&self) -> (r: Option<Viewport>)
        ensures
            r == self.view,
    {
        self.view
    }

    /// The recorded error, if any.
    pub fn get_error(&self) -> (r: Option<ChartError>)
        ensures
            r == self.error,
    {
        self.error
    }

    /// The x series and the y series of every pair, apart.
    fn split(&self) -> (r: (Vec<Series>, Vec<Series>))
        ensures
            models(r.0@) == x_models(self.data@),
            models(r.1@) == y_models(self.data@),
    {
        let mut xs: Vec<Series> = Vec::new();
        let mut ys: Vec<Series> = Vec::new();
        let mut k: usize = 0;
        while k < self.data.len()
            invariant
                k <= self.data.len(),
                models(xs@) == x_models(self.data@.subrange(0, k as int)),
                models(ys@) == y_models(self.data@.subrange(0, k as int)),
            decreases self.data.len() - k,
        {
            let ghost (px, py) = (models(xs@), models(ys@));
            xs.push(copy_series(&self.data[k].0));
            ys.push(copy_series(&self.data[k].1));
            assert(models(xs@) =~= px.push(self.data@[k as int].0@));
            assert(models(ys@) =~= py.push(self.data@[k as int].1@));
            assert(x_models(self.data@.subrange(0, k + 1)) =~= x_models(self.data@.subrange(0, k as int)).push(self.data@[k as int].0@));
            assert(y_models(self.data@.subrange(0, k + 1)) =~= y_models(self.data@.subrange(0, k as int)).push(self.data@[k as int].1@));
            k = k + 1;
        }
        assert(self.data@.subrange(0, self.data.len() as int) =~= self.data@);
        (xs, ys)
    }

    /// The series the x axis is scaled by: the x entries of every pair of the first
    /// pair's kind, pair after pair.
    pub fn get_ax_group(&self) -> (r: Series)
        ensures
            r@ == merged(x_models(self.data@)),
    {
        let (xs, _) = self.split();
        merge_series(&xs)
    }

    /// The series the y axis is scaled by: the y entries of every pair of the first
    /// pair's kind, pair after pair.
    pub fn get_ay_group(&self) -> (r: Series)
        ensures
            r@ == merged(y_models(self.data@)),
    {
        let (_, ys) = self.split();
        merge_series(&ys)
    }

    /// Whether the group has no error and a layout whose extents fit.
    pub open spec fn laid_out(&self) -> bool {
        self.error is None && (self.view matches Some(v) && v.wf())
    }

    /// Whether the bars stand along the x axis: the first pair's x series holds labels.
    pub open spec fn vertical(&self) -> bool {
        self.data@.len() > 0 && x_models(self.data@)[0] is Label
    }

    /// Whether the bars stand along the y axis: the first pair's y series holds labels
    /// and its x series does not.
    pub open spec fn horizontal(&self) -> bool {
        self.data@.len() > 0 && !(x_models(self.data@)[0] is Label) && y_models(self.data@)[0] is Label
    }

    /// The bars of every series of the group, per series in entry order. Along the
    /// label axis, series `s` of `G` takes band `s` of the slot of each label (see
    /// `band_center`); along the other axis each bar reaches the value scale's
    /// position times the plot extent. Series `s` is colored `color` turned by
    /// `shift_degrees * s`. Nothing when the group has an error or no layout,
    /// when no series holds labels, or when the label axis is not all labels.
    pub fn bars(&self, color: Color, shift_degrees: u32) -> (r: Vec<Vec<Bar>>)
        requires
            color.wf(),
        ensures
            ({
                let (xm, ym) = (x_models(self.data@), y_models(self.data@));
                let v = self.view->0.chart.vector;
                if self.laid_out() && self.vertical() && bars_fit(xm, ym) {
                    bars_spec(r@, xm, ym, v.x as int, v.y as int, color, shift_degrees)
                } else if self.laid_out() && self.horizontal() && bars_fit(ym, xm) {
                    bars_spec(r@, ym, xm, v.y as int, v.x as int, color, shift_degrees)
                } else {
                    r@.len() == 0
                }
            }),
    {
        let empty: Vec<Vec<Bar>> = Vec::new();
        if self.error.is_some() || self.data.len() == 0 {
            return empty;
        }
        let v = match self.view {
            Some(v) => v,
            None => { return empty; },
        };
        if !v.check_wf() {
            return empty;
        }
        let (xs, ys) = self.split();
        proof {
            assert(models(xs@).len() == xs@.len() && x_models(self.data@).len() == self.data@.len());
            assert(models(ys@).len() == ys@.len() && y_models(self.data@).len() == self.data@.len());
            assert(models(xs@)[0] == x_models(self.data@)[0]);
            assert(models(ys@)[0] == y_models(self.data@)[0]);
            assert(models(xs@)[0] == xs@[0]@);
            assert(models(ys@)[0] == ys@[0]@);
        }
        let vertical = xs[0].is_label_series();
        let horizontal = !vertical && ys[0].is_label_series();
        if !vertical && !horizontal {
            return empty;
        }
        let (cats, vals, cat_extent, val_extent) = if vertical {
            (xs, ys, v.chart.vector.x, v.chart.vector.y)
        } else {
            (ys, xs, v.chart.vector.y, v.chart.vector.x)
        };
        let cat_series = merge_series(&cats);
        let val_series = merge_series(&vals);
        let cat_scale = Scale::fit(&cat_series);
        let val_scale = Scale::fit(&val_series);
        let l = cat_scale.get_count();
        proof {
            assert(models(cats@)[0] == cats@[0]@);
        }
        match &cat_scale {
            Scale::Label { labels } => {
                if !check_fit(&cats, &vals, l) {
                    return empty;
                }
                bars_along(&cats, &vals, &cat_scale, &val_scale, cat_extent, val_extent, color, shift_degrees)
            },
            Scale::Numeric { .. } => {
                proof { assert(false); }
                empty
            },
        }
    }
}

} // verus!
