use zenith_scene::chart_options::{chart_kind, ChartKind, FrameLayout, BarMode, LegendAlign, LegendLayout, LegendPosition, ValueLabelMode};
use zenith_scene::chart_options::ValueLabelMode::{Center, Off, Top};

#[test]
fn bar_mode_from_opt_stacked() {
    assert_eq!(BarMode::from_opt(Some("stacked")), BarMode::Stacked);
}

#[test]
fn bar_mode_from_opt_grouped_variants() {
    assert_eq!(BarMode::from_opt(None), BarMode::Grouped);
    assert_eq!(BarMode::from_opt(Some("grouped")), BarMode::Grouped);
    assert_eq!(BarMode::from_opt(Some("x")), BarMode::Grouped);
}

#[test]
fn value_label_mode_resolve() {
    // Explicit values.
    assert_eq!(ValueLabelMode::resolve(Some("none"), false), Off);
    assert_eq!(ValueLabelMode::resolve(Some("top"), true), Top);
    assert_eq!(ValueLabelMode::resolve(Some("center"), false), Center);
    // auto / None / unknown -> smart default by stacking.
    assert_eq!(ValueLabelMode::resolve(Some("auto"), true), Center);
    assert_eq!(ValueLabelMode::resolve(Some("auto"), false), Top);
    assert_eq!(ValueLabelMode::resolve(None, true), Center);
    assert_eq!(ValueLabelMode::resolve(None, false), Top);
    assert_eq!(ValueLabelMode::resolve(Some("???"), true), Center);
}

#[test]
fn position_from_opt_known() {
    assert_eq!(LegendPosition::from_opt(Some("left")), LegendPosition::Left);
    assert_eq!(LegendPosition::from_opt(Some("right")), LegendPosition::Right);
    assert_eq!(LegendPosition::from_opt(Some("top")), LegendPosition::Top);
    assert_eq!(LegendPosition::from_opt(Some("bottom")), LegendPosition::Bottom);
}

#[test]
fn position_from_opt_default() {
    // None and unknown strings both default to Right.
    assert_eq!(LegendPosition::from_opt(None), LegendPosition::Right);
    assert_eq!(LegendPosition::from_opt(Some("unknown")), LegendPosition::Right);
    assert_eq!(LegendPosition::from_opt(Some("")), LegendPosition::Right);
}

#[test]
fn position_is_side() {
    assert!(LegendPosition::Left.is_side());
    assert!(LegendPosition::Right.is_side());
    assert!(!LegendPosition::Top.is_side());
    assert!(!LegendPosition::Bottom.is_side());
}

#[test]
fn layout_from_opt_known() {
    assert_eq!(LegendLayout::from_opt(Some("list")), LegendLayout::List);
    assert_eq!(LegendLayout::from_opt(Some("wrapped")), LegendLayout::Wrapped);
}

#[test]
fn layout_from_opt_default() {
    // None and unknown strings default to Wrapped.
    assert_eq!(LegendLayout::from_opt(None), LegendLayout::Wrapped);
    assert_eq!(LegendLayout::from_opt(Some("unknown")), LegendLayout::Wrapped);
}

#[test]
fn align_from_opt_known() {
    assert_eq!(LegendAlign::from_opt(Some("left")), LegendAlign::Start);
    assert_eq!(LegendAlign::from_opt(Some("right")), LegendAlign::End);
    assert_eq!(LegendAlign::from_opt(Some("center")), LegendAlign::Center);
}

#[test]
fn align_from_opt_default() {
    // None and unknown strings default to Center.
    assert_eq!(LegendAlign::from_opt(None), LegendAlign::Center);
    assert_eq!(LegendAlign::from_opt(Some("unknown")), LegendAlign::Center);
}

#[test]
fn options_match_multibyte_and_case_exactly() {
    // Matching is exact: case and look-alike characters do not select a mode.
    assert_eq!(BarMode::from_opt(Some("Stacked")), BarMode::Grouped);
    assert_eq!(BarMode::from_opt(Some("stacked ")), BarMode::Grouped);
    assert_eq!(LegendPosition::from_opt(Some("léft")), LegendPosition::Right);
    assert_eq!(LegendAlign::from_opt(Some("right")), LegendAlign::End);
    assert_eq!(ValueLabelMode::resolve(Some("Top"), false), ValueLabelMode::Top);
    assert_eq!(ValueLabelMode::resolve(Some("Top"), true), ValueLabelMode::Center);
}

#[test]
fn chart_kind_gate() {
    assert_eq!(chart_kind("bar"), Some(ChartKind::Bar));
    assert_eq!(chart_kind("line"), Some(ChartKind::Line));
    assert_eq!(chart_kind("area"), Some(ChartKind::Area));
    assert_eq!(chart_kind("sparkline"), Some(ChartKind::Sparkline));
    assert_eq!(chart_kind("pie"), Some(ChartKind::Pie));
    assert_eq!(chart_kind("donut"), Some(ChartKind::Donut));
    assert_eq!(chart_kind("radar"), None);
    assert_eq!(chart_kind(""), None);
}

#[test]
fn frame_layout_from_opt() {
    assert_eq!(FrameLayout::from_opt(Some("flow")), FrameLayout::Flow);
    assert_eq!(FrameLayout::from_opt(Some("grid")), FrameLayout::Grid);
    assert_eq!(FrameLayout::from_opt(Some("stack")), FrameLayout::Absolute);
    assert_eq!(FrameLayout::from_opt(None), FrameLayout::Absolute);
}
