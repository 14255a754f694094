use vstd::prelude::*;
use crate::error::ChartError;
use crate::layout::{Viewport, request};
use crate::scale::{Ratio, Scale, series_position, small_result};
use crate::series::{copy_series, Series};

verus! {

/// A point of a chart in the plot area's pixel coordinates, as exact fractions.
#[derive(Clone, Copy, Debug, PartialEq, Eq, Structural)]
pub struct PlotPoint {
    pub x: Ratio,
    pub y: Ratio,
}

/// The pixel offset `extent * p` of a normalized position `p`.
pub open spec fn pixel(p: (int, int), extent: int) -> (int, int) {
    (p.0 * extent, p.1)
}

/// A single-series chart: one x series, one y series and their layout.
#[derive(Clone, Debug)]
pub struct Cartesian {
    pub ax: Series,
    pub ay: Series,
    pub view: Option<Viewport>,
    pub error: Option<ChartError>,
}

/// The error recorded after laying out a chart whose earlier error was `prev`.
pub open spec fn error_after_view(prev: Option<ChartError>, geometry_ok: bool) -> Option<ChartError> {
    if prev is Some {
        prev
    } else if geometry_ok {
        None
    } else {
        Some(ChartError::InvalidGeometry)
    }
}

impl Cartesian {
    /// A chart of `ax` against `ay`; records a length mismatch as its error.
    pub fn new(ax: Series, ay: Series) -> (r: Cartesian)
        ensures
            r.ax == ax,
            r.ay == ay,
            r.view is None,
            r.error == (if ax.spec_len() != ay.spec_len() { Some(ChartError::LengthMismatch) } else { None }),
    {
        let error = if ax.len() != ay.len() { Some(ChartError::LengthMismatch) } else { None };
        Cartesian { ax, ay, view: None, error }
    }

    /// Lays the chart out on a canvas (see `Viewport::new`); an invalid layout is
    /// recorded as the error unless an earlier one is there.
    pub fn set_view(self, width: u32, height: u32, corner: usize, x_axis_height: u32, y_axis_width: u32, margin: u32) -> (r: Cartesian)
        ensures
            r.ax == self.ax,
            r.ay == self.ay,
            r.error == error_after_view(self.error, request(width, height, corner, x_axis_height, y_axis_width, margin).is_valid()),
            request(width, height, corner, x_axis_height, y_axis_width, margin).is_valid() <==> r.view is Some,
            r.view matches Some(v) ==> v.wf() && v.matches_request(width, height, corner, x_axis_height, y_axis_width, margin),
    {
        let Cartesian { ax, ay, view: _, error } = self;
        match Viewport::new(width, height, corner, x_axis_height, y_axis_width, margin) {
            Ok(v) => Cartesian { ax, ay, view: Some(v), error },
            Err(e) => {
                let error = if error.is_some() { error } else { Some(e) };
                Cartesian { ax, ay, view: None, error }
            },
        }
    }

    /// The layout, once set.
    pub fn get_view(&self) -> (r: Option<Viewport>)
        ensures
            r == self.view,
    {
        self.view
    }

    /// The x series.
    pub fn get_ax(&self) -> (r: Series)
        ensures
            r@ == self.ax@,
    {
        copy_series(&self.ax)
    }

    /// The y series.
    pub fn get_ay(&self) -> (r: Series)
        ensures
            r@ == self.ay@,
    {
        copy_series(&self.ay)
    }

    /// The recorded error, if any.
    pub fn get_error(&self) -> (r: Option<ChartError>)
        ensures
            r == self.error,
    {
        self.error
    }

    /// Whether the chart can be drawn: no error, a layout, and equally long series.
    pub open spec fn drawable(&self) -> bool {
        &&& self.error is None
        &&& self.view matches Some(v) && v.wf()
        &&& self.ax.spec_len() == self.ay.spec_len()
    }

    /// The points of the line, in series order: entry `i` goes to the x scale's
    /// position of its x stick times the plot width, and likewise for y. Nothing
    /// when the chart cannot be drawn.
    pub fn plot_points(&self) -> (r: Vec<PlotPoint>)
        ensures
            !self.drawable() ==> r@.len() == 0,
            self.drawable() ==> {
                &&& r@.len() == self.ax.spec_len()
                &&& forall|i: int| 0 <= i < r@.len() ==> {
                    &&& (#[trigger] r@[i]).x.pair() == pixel(
                        series_position(self.ax@, (self.ax.stick_value(i), 1)),
                        self.view->0.chart.vector.x as int,
                    )
                    &&& r@[i].y.pair() == pixel(
                        series_position(self.ay@, (self.ay.stick_value(i), 1)),
                        self.view->0.chart.vector.y as int,
                    )
                }
            },
    {
        let mut out: Vec<PlotPoint> = Vec::new();
        if self.error.is_some() || self.ax.len() != self.ay.len() {
            return out;
        }
        let v = match self.view {
            Some(v) => v,
            None => { return out; },
        };
        if !v.check_wf() {
            return out;
        }
        let vx = v.chart.vector.x as i128;
        let vy = v.chart.vector.y as i128;
        let xs = Scale::fit(&self.ax);
        let ys = Scale::fit(&self.ay);
        let xst = self.ax.to_stick();
        let yst = self.ay.to_stick();
        let mut i: usize = 0;
        while i < xst.len()
            invariant
                self.drawable(),
                self.view == Some(v),
                vx == v.chart.vector.x,
                vy == v.chart.vector.y,
                -0x1_0000_0000 <= vx <= 0x1_0000_0000,
                -0x1_0000_0000 <= vy <= 0x1_0000_0000,
                xs.wf(),
                ys.wf(),
                forall|p: (int, int)| #[trigger] xs.position(p) == series_position(self.ax@, p),
                forall|p: (int, int)| #[trigger] ys.position(p) == series_position(self.ay@, p),
                xst@.len() == self.ax.spec_len(),
                yst@.len() == self.ay.spec_len(),
                forall|j: int| 0 <= j < xst@.len() ==> self.ax.stick_at(j, #[trigger] xst@[j]),
                forall|j: int| 0 <= j < yst@.len() ==> self.ay.stick_at(j, #[trigger] yst@[j]),
                forall|j: int| 0 <= j < xst@.len() ==> -0x1_0000_0000_0000_0000 <= (#[trigger] xst@[j]).value <= 0x1_0000_0000_0000_0000,
                forall|j: int| 0 <= j < yst@.len() ==> -0x1_0000_0000_0000_0000 <= (#[trigger] yst@[j]).value <= 0x1_0000_0000_0000_0000,
                i <= xst@.len(),
                out@.len() == i,
                forall|j: int| 0 <= j < i ==> {
                    &&& (#[trigger] out@[j]).x.pair() == pixel(series_position(self.ax@, (self.ax.stick_value(j), 1)), vx as int)
                    &&& out@[j].y.pair() == pixel(series_position(self.ay@, (self.ay.stick_value(j), 1)), vy as int)
                },
            decreases xst@.len() - i,
        {
            let px = xs.scale(Ratio { num: xst[i].value, den: 1 });
            let py = ys.scale(Ratio { num: yst[i].value, den: 1 });
            proof {
                assert(small_result(px) && small_result(py));
                assert(-0x1_0000_0000_0000_0000 * 0x1_0000_0000 <= px.num * vx <= 0x1_0000_0000_0000_0000 * 0x1_0000_0000)
                    by (nonlinear_arith) requires small_result(px), -0x1_0000_0000 <= vx <= 0x1_0000_0000;
                assert(-0x1_0000_0000_0000_0000 * 0x1_0000_0000 <= py.num * vy <= 0x1_0000_0000_0000_0000 * 0x1_0000_0000)
                    by (nonlinear_arith) requires small_result(py), -0x1_0000_0000 <= vy <= 0x1_0000_0000;
                assert(self.ax.stick_at(i as int, xst@[i as int]));
                assert(self.ay.stick_at(i as int, yst@[i as int]));
            }
            out.push(PlotPoint {
                x: Ratio { num: px.num * vx, den: px.den },
                y: Ratio { num: py.num * vy, den: py.den },
            });
            i = i + 1;
        }
        out
    }
}

/// A chart whose series differ in length records an error and draws nothing,
/// whatever layout it is given.
pub proof fn lemma_mismatch_draws_nothing(ax: Series, ay: Series, c: Cartesian)
    requires
        ax.spec_len() != ay.spec_len(),
        c.ax == ax,
        c.ay == ay,
    ensures
        !c.drawable(),
{
}

} // verus!
