use vstd::prelude::*;
use crate::error::ChartError;

verus! {

/// A point, or a signed extent, in pixels.
#[derive(Clone, Copy, Debug, PartialEq, Eq, Structural)]
pub struct Point {
    pub x: i64,
    pub y: i64,
}

/// A region: a corner `origin` and a signed `vector` to the opposite corner.
#[derive(Clone, Copy, Debug, PartialEq, Eq, Structural)]
pub struct Rect {
    pub origin: Point,
    pub vector: Point,
}

impl Rect {
    /// Origin and vector as whole numbers.
    pub open spec fn quad(self) -> (int, int, int, int) {
        (self.origin.x as int, self.origin.y as int, self.vector.x as int, self.vector.y as int)
    }
}

/// Origin at the top left corner of the plot area.
pub const TOP_LEFT: usize = 0;
/// Origin at the top right corner of the plot area.
pub const TOP_RIGHT: usize = 1;
/// Origin at the bottom right corner of the plot area.
pub const BOTTOM_RIGHT: usize = 2;
/// Origin at the bottom left corner of the plot area.
pub const BOTTOM_LEFT: usize = 3;

/// The requested sizes of a chart.
pub struct ViewRequest {
    pub width: int,
    pub height: int,
    pub corner: int,
    pub x_axis_height: int,
    pub y_axis_width: int,
    pub margin: int,
}

impl ViewRequest {
    /// Whether the y-axis strip is on the left.
    pub open spec fn y_left(self) -> bool {
        self.corner == 0 || self.corner == 3
    }

    /// Whether the x-axis strip is on the top.
    pub open spec fn x_top(self) -> bool {
        self.corner == 0 || self.corner == 1
    }

    /// Width of the plot area: what the y-axis strip and the margin leave.
    pub open spec fn plot_width(self) -> int {
        self.width - self.y_axis_width - self.margin
    }

    /// Height of the plot area: what the x-axis strip and the margin leave.
    pub open spec fn plot_height(self) -> int {
        self.height - self.x_axis_height - self.margin
    }

    /// Left edge of the plot area: after the y-axis strip or after the margin.
    pub open spec fn plot_left(self) -> int {
        if self.y_left() { self.y_axis_width } else { self.margin }
    }

    /// Top edge of the plot area: below the x-axis strip or below the margin.
    pub open spec fn plot_top(self) -> int {
        if self.x_top() { self.x_axis_height } else { self.margin }
    }

    /// A known corner, and room left for the plot area.
    pub open spec fn is_valid(self) -> bool {
        0 <= self.corner <= 3 && self.plot_width() > 0 && self.plot_height() > 0
    }

    /// The plot area, with its origin at the chosen corner and its vector pointing
    /// away from both axis strips.
    pub open spec fn chart(self) -> (int, int, int, int) {
        let (w, h) = (self.plot_width(), self.plot_height());
        (
            if self.y_left() { self.plot_left() } else { self.plot_left() + w },
            if self.x_top() { self.plot_top() } else { self.plot_top() + h },
            if self.y_left() { w } else { -w },
            if self.x_top() { h } else { -h },
        )
    }

    /// The x-axis strip: along the plot area, on the far side from its vector.
    pub open spec fn x_axis(self) -> (int, int, int, int) {
        let c = self.chart();
        (c.0, c.1, c.2, if self.x_top() { -self.x_axis_height } else { self.x_axis_height })
    }

    /// The y-axis strip: along the plot area, on the far side from its vector.
    pub open spec fn y_axis(self) -> (int, int, int, int) {
        let c = self.chart();
        (c.0, c.1, if self.y_left() { -self.y_axis_width } else { self.y_axis_width }, c.3)
    }
}

/// The pixel layout of a chart: the whole canvas, the plot area and the two axis strips.
#[derive(Clone, Copy, Debug, PartialEq, Eq, Structural)]
pub struct Viewport {
    pub canvas: Rect,
    pub chart: Rect,
    pub x_axis: Rect,
    pub y_axis: Rect,
    pub corner: usize,
    pub margin: u32,
}

/// The request made by the arguments of `Viewport::new`.
pub open spec fn request(width: u32, height: u32, corner: usize, x_axis_height: u32, y_axis_width: u32, margin: u32) -> ViewRequest {
    ViewRequest {
        width: width as int,
        height: height as int,
        corner: corner as int,
        x_axis_height: x_axis_height as int,
        y_axis_width: y_axis_width as int,
        margin: margin as int,
    }
}

impl Viewport {
    /// The plot area's extent fits the sizes a canvas can have.
    pub open spec fn wf(&self) -> bool {
        &&& -0x1_0000_0000 <= self.chart.vector.x <= 0x1_0000_0000
        &&& -0x1_0000_0000 <= self.chart.vector.y <= 0x1_0000_0000
    }

    /// Whether the plot area's extent fits the sizes a canvas can have.
    pub fn check_wf(&self) -> (r: bool)
        ensures
            r == self.wf(),
    {
        -0x1_0000_0000 <= self.chart.vector.x && self.chart.vector.x <= 0x1_0000_0000
            && -0x1_0000_0000 <= self.chart.vector.y && self.chart.vector.y <= 0x1_0000_0000
    }

    /// This viewport is the layout of the given request.
    pub open spec fn matches_request(&self, width: u32, height: u32, corner: usize, x_axis_height: u32, y_axis_width: u32, margin: u32) -> bool {
        let q = request(width, height, corner, x_axis_height, y_axis_width, margin);
        &&& self.canvas.quad() == (0int, 0int, width as int, height as int)
        &&& self.chart.quad() == q.chart()
        &&& self.x_axis.quad() == q.x_axis()
        &&& self.y_axis.quad() == q.y_axis()
        &&& self.corner == corner
        &&& self.margin == margin
    }

    /// Lays out a `width` x `height` canvas with the origin at `corner`
    /// (`TOP_LEFT`, `TOP_RIGHT`, `BOTTOM_RIGHT` or `BOTTOM_LEFT`). The axis strips
    /// sit at the canvas edges next to the origin, the margin at the opposite edges.
    /// Fails when the corner is unknown or no plot area is left.
    pub fn new(width: u32, height: u32, corner: usize, x_axis_height: u32, y_axis_width: u32, margin: u32) -> (r: Result<Viewport, ChartError>)
        ensures
            ({
                let q = request(width, height, corner, x_axis_height, y_axis_width, margin);
                match r {
                    Ok(v) => q.is_valid() && v.wf() && v.matches_request(width, height, corner, x_axis_height, y_axis_width, margin),
                    Err(e) => e == ChartError::InvalidGeometry && !q.is_valid(),
                }
            }),
    {
        let w = width as i64;
        let h = height as i64;
        let hx = x_axis_height as i64;
        let wy = y_axis_width as i64;
        let m = margin as i64;
        let pw = w - wy - m;
        let ph = h - hx - m;
        if corner > 3 || pw <= 0 || ph <= 0 {
            return Err(ChartError::InvalidGeometry);
        }
        let y_left = corner == 0 || corner == 3;
        let x_top = corner == 0 || corner == 1;
        let left = if y_left { wy } else { m };
        let top = if x_top { hx } else { m };
        let origin = Point { x: if y_left { left } else { left + pw }, y: if x_top { top } else { top + ph } };
        let vx = if y_left { pw } else { -pw };
        let vy = if x_top { ph } else { -ph };
        let chart = Rect { origin, vector: Point { x: vx, y: vy } };
        let x_axis = Rect { origin, vector: Point { x: vx, y: if x_top { -hx } else { hx } } };
        let y_axis = Rect { origin, vector: Point { x: if y_left { -wy } else { wy }, y: vy } };
        let canvas = Rect { origin: Point { x: 0, y: 0 }, vector: Point { x: w, y: h } };
        Ok(Viewport { canvas, chart, x_axis, y_axis, corner, margin })
    }
}

/// The plot area, the y-axis strip and the margin fill the canvas width exactly, and
/// the plot area, the x-axis strip and the margin fill its height, with the plot area
/// lying inside the canvas and off both strips.
pub proof fn lemma_layout_partition(width: u32, height: u32, corner: usize, x_axis_height: u32, y_axis_width: u32, margin: u32)
    requires
        request(width, height, corner, x_axis_height, y_axis_width, margin).is_valid(),
    ensures
        ({
            let q = request(width, height, corner, x_axis_height, y_axis_width, margin);
            &&& q.plot_width() + q.y_axis_width + q.margin == q.width
            &&& q.plot_height() + q.x_axis_height + q.margin == q.height
            &&& 0 <= q.plot_left() && q.plot_left() + q.plot_width() <= q.width
            &&& 0 <= q.plot_top() && q.plot_top() + q.plot_height() <= q.height
            &&& (q.y_left() ==> q.plot_left() >= q.y_axis_width)
            &&& (!q.y_left() ==> q.plot_left() + q.plot_width() <= q.width - q.y_axis_width)
            &&& (q.x_top() ==> q.plot_top() >= q.x_axis_height)
            &&& (!q.x_top() ==> q.plot_top() + q.plot_height() <= q.height - q.x_axis_height)
        }),
{
}

} // verus!
