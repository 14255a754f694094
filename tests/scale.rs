use leptos_chart::{Ratio, Scale, Series, ChartError, NUMERIC_TICK_SEGMENTS};

fn labels(v: &[&str]) -> Vec<String> {
    v.iter().map(|s| s.to_string()).collect()
}

fn same(a: Ratio, num: i128, den: i128) -> bool {
    a.num * den == num * a.den
}

#[test]
fn numeric_ends_map_to_zero_and_one() {
    let s = Scale::fit(&Series::Numeric(vec![3, -2, 8, 5]));
    assert_eq!(s.scale(Ratio::from_int(-2)), Ratio { num: 0, den: 1 });
    assert_eq!(s.scale(Ratio::from_int(8)), Ratio { num: 1, den: 1 });
    assert!(same(s.scale(Ratio::from_int(3)), 1, 2));
}

#[test]
fn numeric_scale_clamps_out_of_range() {
    let s = Scale::fit(&Series::Numeric(vec![0, 10]));
    assert_eq!(s.scale(Ratio::from_int(-5)), Ratio { num: 0, den: 1 });
    assert_eq!(s.scale(Ratio::from_int(50)), Ratio { num: 1, den: 1 });
}

#[test]
fn degenerate_domain_maps_to_half() {
    let s = Scale::fit(&Series::Numeric(vec![4, 4, 4]));
    for v in [-100i64, 4, 9] {
        assert_eq!(s.scale(Ratio::from_int(v)), Ratio { num: 1, den: 2 });
    }
}

#[test]
fn label_ranks_are_first_seen_and_stable() {
    let s = Scale::fit(&Series::Label(labels(&["B", "A", "B", "C"])));
    assert_eq!(s.get_count(), 3);
    assert_eq!(s.scale_index(&"B".to_string()), Ok(0));
    assert_eq!(s.scale_index(&"A".to_string()), Ok(1));
    assert_eq!(s.scale_index(&"C".to_string()), Ok(2));
    assert_eq!(s.scale_index(&"A".to_string()), Ok(1));
}

#[test]
fn unknown_label_is_an_error() {
    let s = Scale::fit(&Series::Label(labels(&["A", "B"])));
    assert_eq!(s.scale_index(&"Z".to_string()), Err(ChartError::UnknownLabel));
}

#[test]
fn numeric_ticks_round_trip() {
    let s = Scale::fit(&Series::Numeric(vec![7, 15, 19]));
    let ticks = s.gen_axes();
    assert_eq!(ticks.len(), NUMERIC_TICK_SEGMENTS + 1);
    assert_eq!(s.get_count(), NUMERIC_TICK_SEGMENTS);
    for (k, t) in ticks.iter().enumerate() {
        assert!(same(t.position, k as i128, 5));
        let back = s.scale(t.value);
        assert!(same(back, t.position.num, t.position.den));
    }
    assert!(same(ticks[1].value, 94, 10));
}

#[test]
fn label_tick_positions_are_rank_over_count() {
    let s = Scale::fit(&Series::Label(labels(&["A", "B", "C"])));
    let ticks = s.gen_axes();
    assert_eq!(ticks.len(), 3);
    assert!(same(ticks[1].position, 1, 3));
    assert_eq!(ticks[1].text, Some("B".to_string()));
    for t in ticks.iter() {
        let back = s.scale(t.value);
        assert!(same(back, t.position.num, t.position.den));
    }
}

#[test]
fn sticks_follow_series_order() {
    let st = Series::Label(labels(&["x", "y", "x"])).to_stick();
    assert_eq!(st.len(), 3);
    assert_eq!(st[0].label, Some("x".to_string()));
    assert_eq!(st[0].value, 0);
    assert_eq!(st[1].value, 1);
    assert_eq!(st[2].value, 0);
    let st = Series::Numeric(vec![5, -1]).to_stick();
    assert_eq!(st[0].label, None);
    assert_eq!(st[1].value, -1);
    assert!(Series::Numeric(vec![]).to_stick().is_empty());
}

#[test]
fn numeric_tick_texts_are_decimal() {
    let texts = |v: Vec<i64>| -> Vec<String> {
        Scale::fit(&Series::Numeric(v)).gen_axes().into_iter().map(|t| t.text.unwrap()).collect()
    };
    assert_eq!(texts(vec![7, 15, 19]), vec!["7", "9.4", "11.8", "14.2", "16.6", "19"]);
    assert_eq!(texts(vec![-3, 0]), vec!["-3", "-2.4", "-1.8", "-1.2", "-0.6", "0"]);
    assert_eq!(texts(vec![4, 4]), vec!["4"]);
}

#[test]
fn degenerate_domain_has_one_middle_tick() {
    let s = Scale::fit(&Series::Numeric(vec![4]));
    let ticks = s.gen_axes();
    assert_eq!(ticks.len(), 1);
    assert_eq!(ticks[0].position, Ratio { num: 1, den: 2 });
    assert_eq!(s.scale(ticks[0].value), Ratio { num: 1, den: 2 });
}
