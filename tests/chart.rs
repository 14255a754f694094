use leptos_chart::{
    band_center, band_width, Cartesian, CartesianGroup, ChartError, Color, Point, Ratio, Rect, Scale, Series,
    Viewport, BOTTOM_LEFT, BOTTOM_RIGHT, DEFAULT_SHIFT_DEGREES, TOP_LEFT, TOP_RIGHT,
};

fn labels(v: &[&str]) -> Vec<String> {
    v.iter().map(|s| s.to_string()).collect()
}

fn value(r: Ratio) -> f64 {
    r.num as f64 / r.den as f64
}

fn same(a: Ratio, num: i128, den: i128) -> bool {
    a.num * den == num * a.den
}

fn rect(x: i64, y: i64, vx: i64, vy: i64) -> Rect {
    Rect { origin: Point { x, y }, vector: Point { x: vx, y: vy } }
}

#[test]
fn layout_bottom_left_example() {
    let v = Viewport::new(840, 640, BOTTOM_LEFT, 50, 50, 20).unwrap();
    assert_eq!(v.canvas, rect(0, 0, 840, 640));
    assert_eq!(v.chart, rect(50, 590, 770, -570));
    assert_eq!(v.x_axis, rect(50, 590, 770, 50));
    assert_eq!(v.y_axis, rect(50, 590, -50, -570));
    // the plot area's top left corner
    assert_eq!(v.chart.origin.x.min(v.chart.origin.x + v.chart.vector.x), 50);
    assert_eq!(v.chart.origin.y.min(v.chart.origin.y + v.chart.vector.y), 20);
}

#[test]
fn layout_other_corners() {
    let v = Viewport::new(840, 640, TOP_LEFT, 50, 50, 20).unwrap();
    assert_eq!(v.chart, rect(50, 50, 770, 570));
    assert_eq!(v.x_axis, rect(50, 50, 770, -50));
    let v = Viewport::new(840, 640, TOP_RIGHT, 50, 50, 20).unwrap();
    assert_eq!(v.chart, rect(790, 50, -770, 570));
    assert_eq!(v.y_axis, rect(790, 50, 50, 570));
    let v = Viewport::new(840, 640, BOTTOM_RIGHT, 50, 50, 20).unwrap();
    assert_eq!(v.chart, rect(790, 590, -770, -570));
    assert_eq!(v.x_axis, rect(790, 590, -770, 50));
}

#[test]
fn layout_rejects_no_plot_area() {
    assert_eq!(Viewport::new(100, 640, BOTTOM_LEFT, 50, 80, 20), Err(ChartError::InvalidGeometry));
    assert_eq!(Viewport::new(840, 70, BOTTOM_LEFT, 50, 50, 20), Err(ChartError::InvalidGeometry));
    assert_eq!(Viewport::new(840, 640, 4, 50, 50, 20), Err(ChartError::InvalidGeometry));
}

#[test]
fn hue_rotation() {
    let c = Color::new(50, 40, 300);
    assert_eq!(c.shift_hue_degrees_index(70, 0), c);
    let d = c.shift_hue_degrees_index(DEFAULT_SHIFT_DEGREES, 2);
    assert_eq!((d.lightness, d.chroma, d.hue), (50, 40, 80));
    assert_eq!(c.shift_hue_degrees_index(90, 4).hue, 300);
    assert_eq!(c.shift_hue_degrees_index(u32::MAX, usize::MAX).hue, 165);
    assert_eq!(Color::new(1, 2, 725).hue, 5);
}

#[test]
fn band_center_matches_slot_formula() {
    // rank 1 of 3 labels, series 0 of 2, on 300 pixels
    let c = band_center(1, 3, 0, 2, 300);
    assert_eq!(value(c), 127.5);
    let c = band_center(1, 3, 1, 2, 300);
    assert_eq!(value(c), 172.5);
    assert_eq!(value(band_width(3, 2, 300)), 45.0);
}

#[test]
fn band_centers_increase_within_slot() {
    let (l, g, e) = (4usize, 3usize, 800i64);
    for rank in 0..l {
        let mut last = f64::MIN;
        for s in 0..g {
            let c = value(band_center(rank, l, s, g, e));
            assert!(c > last);
            let half = value(band_width(l, g, e)) / 2.0;
            assert!(c - half >= rank as f64 * 200.0);
            assert!(c + half <= (rank + 1) as f64 * 200.0);
            last = c;
        }
    }
}

#[test]
fn line_chart_points() {
    let chart = Cartesian::new(Series::Numeric(vec![1, 6, 9]), Series::Numeric(vec![1, 3, 5]))
        .set_view(820, 620, BOTTOM_LEFT, 100, 100, 20);
    assert_eq!(chart.get_error(), None);
    let pts = chart.plot_points();
    assert_eq!(pts.len(), 3);
    assert_eq!((value(pts[0].x), value(pts[0].y)), (0.0, 0.0));
    assert_eq!((value(pts[1].x), value(pts[1].y)), (437.5, -250.0));
    assert_eq!((value(pts[2].x), value(pts[2].y)), (700.0, -500.0));
}

#[test]
fn line_chart_keeps_series_order() {
    let chart = Cartesian::new(Series::Numeric(vec![9, 1, 5]), Series::Numeric(vec![0, 10, 5]))
        .set_view(120, 120, TOP_LEFT, 10, 10, 10);
    let pts = chart.plot_points();
    let xs: Vec<f64> = pts.iter().map(|p| value(p.x)).collect();
    assert_eq!(xs, vec![100.0, 0.0, 50.0]);
}

#[test]
fn mismatched_lengths_draw_nothing() {
    let chart = Cartesian::new(Series::Numeric(vec![1, 2, 3]), Series::Numeric(vec![1, 2]))
        .set_view(840, 640, BOTTOM_LEFT, 50, 50, 20);
    assert_eq!(chart.get_error(), Some(ChartError::LengthMismatch));
    assert!(!chart.get_error().unwrap().message().is_empty());
    assert!(chart.plot_points().is_empty());
    assert!(chart.get_view().is_some());
}

#[test]
fn invalid_view_is_recorded() {
    let chart = Cartesian::new(Series::Numeric(vec![1]), Series::Numeric(vec![2])).set_view(10, 10, TOP_LEFT, 50, 50, 20);
    assert_eq!(chart.get_error(), Some(ChartError::InvalidGeometry));
    assert!(chart.get_view().is_none());
    assert!(chart.plot_points().is_empty());
}

#[test]
fn empty_series_draw_nothing_without_error() {
    let chart = Cartesian::new(Series::Numeric(vec![]), Series::Label(vec![])).set_view(840, 640, BOTTOM_LEFT, 50, 50, 20);
    assert_eq!(chart.get_error(), None);
    assert!(chart.plot_points().is_empty());
}

#[test]
fn getters_return_the_series() {
    let chart = Cartesian::new(Series::Label(labels(&["a", "b"])), Series::Numeric(vec![4, 2]));
    assert_eq!(chart.get_ax().to_stick()[1].label, Some("b".to_string()));
    assert_eq!(chart.get_ay().to_stick()[1].value, 2);
}

#[test]
fn label_scenario_three_labels() {
    let chart = CartesianGroup::new()
        .set_view(840, 640, BOTTOM_LEFT, 50, 50, 20)
        .add_data(Series::Label(labels(&["A", "B", "C"])), Series::Numeric(vec![7, 15, 19]));
    let v = chart.get_view().unwrap();
    assert_eq!(v.chart.vector, Point { x: 770, y: -570 });
    let ticks = Scale::fit(&Series::Label(labels(&["A", "B", "C"]))).gen_axes();
    assert_eq!(ticks[1].text, Some("B".to_string()));
    assert_eq!(value(ticks[1].position) * 3.0, 1.0);
}

#[test]
fn grouped_bars_vertical() {
    let base = Color::new(50, 40, 10);
    let chart = CartesianGroup::new()
        .set_view(840, 640, BOTTOM_LEFT, 50, 50, 20)
        .add_data(Series::Label(labels(&["A", "B", "C"])), Series::Numeric(vec![7, 15, 19]))
        .add_data(Series::Label(labels(&["A", "B", "C"])), Series::Numeric(vec![3, 5, 9]));
    assert_eq!(chart.get_error(), None);
    let bars = chart.bars(base, 70);
    assert_eq!(bars.len(), 2);
    assert_eq!(bars[0].len(), 3);
    assert_eq!(value(bars[0][1].center), 327.25);
    assert_eq!(value(bars[0][1].length), -427.5);
    assert_eq!(value(bars[0][1].width), 115.5);
    assert!(same(bars[1][0].center, 770 * 29, 120));
    assert_eq!(value(bars[1][0].length), 0.0);
    assert_eq!(bars[0][0].color, base);
    assert_eq!(bars[1][0].color.hue, 80);
}

#[test]
fn grouped_bars_horizontal() {
    let chart = CartesianGroup::new()
        .set_view(840, 640, TOP_LEFT, 50, 50, 20)
        .add_data(Series::Numeric(vec![0, 10]), Series::Label(labels(&["p", "q"])));
    let bars = chart.bars(Color::new(1, 1, 1), 70);
    assert_eq!(bars.len(), 1);
    // y extent 570 over 2 slots; one series: mid = 20*1 + 9 + 1 = 30 of 40 units
    assert_eq!(value(bars[0][1].center), 570.0 * 30.0 / 40.0);
    assert_eq!(value(bars[0][1].length), 770.0);
}

#[test]
fn grouped_labels_merge_in_first_seen_order() {
    let chart = CartesianGroup::new()
        .set_view(840, 640, BOTTOM_LEFT, 50, 50, 20)
        .add_data(Series::Label(labels(&["A", "B"])), Series::Numeric(vec![1, 2]))
        .add_data(Series::Label(labels(&["C", "A"])), Series::Numeric(vec![3, 4]));
    let bars = chart.bars(Color::new(1, 1, 1), 70);
    // labels A, B, C: the second series' "C" has rank 2
    assert!(same(bars[1][0].center, 770 * (40 * 2 + 18 + 9 + 2), 20 * 2 * 3));
}

#[test]
fn grouped_errors() {
    let g = CartesianGroup::new()
        .set_view(840, 640, BOTTOM_LEFT, 50, 50, 20)
        .add_data(Series::Label(labels(&["A", "B", "C"])), Series::Numeric(vec![1, 2]));
    assert_eq!(g.get_error(), Some(ChartError::LengthMismatch));
    assert!(g.bars(Color::new(1, 1, 1), 70).is_empty());
    let g = CartesianGroup::new()
        .set_view(840, 640, BOTTOM_LEFT, 50, 50, 20)
        .add_data(Series::Label(labels(&["A"])), Series::Numeric(vec![1]))
        .add_data(Series::Numeric(vec![1]), Series::Numeric(vec![1]));
    assert_eq!(g.get_error(), Some(ChartError::MixedSeries));
    assert!(g.bars(Color::new(1, 1, 1), 70).is_empty());
    let g = CartesianGroup::new().add_data(Series::Label(labels(&["A"])), Series::Numeric(vec![1]));
    assert!(g.bars(Color::new(1, 1, 1), 70).is_empty());
    assert_eq!(ChartError::UnknownLabel.message().is_empty(), false);
}

#[test]
fn group_axis_series_merge_pairs() {
    let chart = CartesianGroup::new()
        .add_data(Series::Label(labels(&["A", "B"])), Series::Numeric(vec![1, 9]))
        .add_data(Series::Label(labels(&["C", "A"])), Series::Numeric(vec![-4, 2]));
    let x = Scale::fit(&chart.get_ax_group());
    assert_eq!(x.get_count(), 3);
    assert_eq!(x.scale_index(&"C".to_string()), Ok(2));
    let y = Scale::fit(&chart.get_ay_group());
    assert_eq!(y.scale(Ratio::from_int(-4)), Ratio { num: 0, den: 1 });
    assert_eq!(y.scale(Ratio::from_int(9)), Ratio { num: 1, den: 1 });
}
