//! Chart presentation options resolved from optional string properties.

use vstd::prelude::*;

use crate::text::{opt_eq, opt_is};

verus! {

/// Layout mode for a bar chart.
#[derive(Clone, Copy, PartialEq, Eq, Structural, Debug)]
pub enum BarMode {
    /// Series bars are placed side-by-side within each category slot.
    Grouped,
    /// Series bars are stacked vertically within each category slot.
    Stacked,
}

impl BarMode {
    /// The mode a `bar_mode` property selects: only `"stacked"` stacks.
    pub open spec fn spec_from_opt(s: Option<&str>) -> BarMode {
        if opt_is(s, "stacked"@) {
            BarMode::Stacked
        } else {
            BarMode::Grouped
        }
    }

    /// Derive the bar mode from the optional `bar_mode` string property.
    ///
    /// `Some("stacked")` gives `Stacked`; everything else (including `None`,
    /// `Some("grouped")`, or any unrecognised string) gives `Grouped`.
    pub fn from_opt(s: Option<&str>) -> (m: BarMode)
        ensures
            m == BarMode::spec_from_opt(s),
    {
        if opt_eq(s, "stacked") {
            BarMode::Stacked
        } else {
            BarMode::Grouped
        }
    }
}


/// Where (and whether) per-bar value labels are drawn.
#[derive(Clone, Copy, PartialEq, Eq, Structural, Debug)]
pub enum ValueLabelMode {
    /// No value labels.
    Off,
    /// Above each bar.
    Top,
    /// Centered inside each bar or stacked segment.
    Center,
}

impl ValueLabelMode {
    /// The placement a `value-labels` property selects for a chart that is
    /// (or is not) stacked.
    pub open spec fn spec_resolve(value_labels: Option<&str>, is_stacked: bool) -> ValueLabelMode {
        if opt_is(value_labels, "none"@) {
            ValueLabelMode::Off
        } else if opt_is(value_labels, "top"@) {
            ValueLabelMode::Top
        } else if opt_is(value_labels, "center"@) {
            ValueLabelMode::Center
        } else if is_stacked {
            ValueLabelMode::Center
        } else {
            ValueLabelMode::Top
        }
    }

    /// Resolve the mode from the optional `value-labels` property.
    ///
    /// `"none"` gives `Off`, `"top"` gives `Top`, `"center"` gives `Center`.
    /// `"auto"`, `None`, and any unrecognised value resolve to the smart
    /// default: stacked bars center (so each segment shows its own value),
    /// everything else labels on top.
    pub fn resolve(value_labels: Option<&str>, is_stacked: bool) -> (m: ValueLabelMode)
        ensures
            m == ValueLabelMode::spec_resolve(value_labels, is_stacked),
    {
        if opt_eq(value_labels, "none") {
            ValueLabelMode::Off
        } else if opt_eq(value_labels, "top") {
            ValueLabelMode::Top
        } else if opt_eq(value_labels, "center") {
            ValueLabelMode::Center
        } else if is_stacked {
            ValueLabelMode::Center
        } else {
            ValueLabelMode::Top
        }
    }
}

/// Which side of the chart the legend is placed on.
#[derive(Clone, Copy, PartialEq, Eq, Structural, Debug)]
pub enum LegendPosition {
    Left,
    Right,
    Top,
    Bottom,
}

impl LegendPosition {
    /// The side a `legend-position` property selects; unknown values mean `Right`.
    pub open spec fn spec_from_opt(s: Option<&str>) -> LegendPosition {
        if opt_is(s, "left"@) {
            LegendPosition::Left
        } else if opt_is(s, "top"@) {
            LegendPosition::Top
        } else if opt_is(s, "bottom"@) {
            LegendPosition::Bottom
        } else {
            LegendPosition::Right
        }
    }

    /// Resolve from an optional node field; unknown values fall back to `Right`.
    pub fn from_opt(s: Option<&str>) -> (p: LegendPosition)
        ensures
            p == LegendPosition::spec_from_opt(s),
    {
        if opt_eq(s, "left") {
            LegendPosition::Left
        } else if opt_eq(s, "top") {
            LegendPosition::Top
        } else if opt_eq(s, "bottom") {
            LegendPosition::Bottom
        } else {
            LegendPosition::Right
        }
    }

    /// A vertical strip (left or right of the plot) rather than a band.
    pub open spec fn spec_is_side(self) -> bool {
        self == LegendPosition::Left || self == LegendPosition::Right
    }

    /// `true` for `Left` and `Right` (vertical strip); `false` for `Top` and
    /// `Bottom` (band).
    pub fn is_side(self) -> (b: bool)
        ensures
            b == self.spec_is_side(),
    {
        match self {
            LegendPosition::Left | LegendPosition::Right => true,
            LegendPosition::Top | LegendPosition::Bottom => false,
        }
    }
}

/// Entry layout within the legend area.
#[derive(Clone, Copy, PartialEq, Eq, Structural, Debug)]
pub enum LegendLayout {
    /// Single vertical column.
    List,
    /// Entries flow left-to-right, wrapping onto new rows.
    Wrapped,
}

impl LegendLayout {
    /// The layout a `legend-layout` property selects; only `"list"` is a list.
    pub open spec fn spec_from_opt(s: Option<&str>) -> LegendLayout {
        if opt_is(s, "list"@) {
            LegendLayout::List
        } else {
            LegendLayout::Wrapped
        }
    }

    /// Resolve from an optional node field; unknown values fall back to `Wrapped`.
    pub fn from_opt(s: Option<&str>) -> (l: LegendLayout)
        ensures
            l == LegendLayout::spec_from_opt(s),
    {
        if opt_eq(s, "list") {
            LegendLayout::List
        } else {
            LegendLayout::Wrapped
        }
    }
}

/// Horizontal alignment of the legend block within its area.
#[derive(Clone, Copy, PartialEq, Eq, Structural, Debug)]
pub enum LegendAlign {
    Start,
    Center,
    End,
}

impl LegendAlign {
    /// The alignment a `legend-align` property selects; unknown values center.
    pub open spec fn spec_from_opt(s: Option<&str>) -> LegendAlign {
        if opt_is(s, "left"@) {
            LegendAlign::Start
        } else if opt_is(s, "right"@) {
            LegendAlign::End
        } else {
            LegendAlign::Center
        }
    }

    /// Resolve from an optional node field; unknown values fall back to `Center`.
    pub fn from_opt(s: Option<&str>) -> (a: LegendAlign)
        ensures
            a == LegendAlign::spec_from_opt(s),
    {
        if opt_eq(s, "left") {
            LegendAlign::Start
        } else if opt_eq(s, "right") {
            LegendAlign::End
        } else {
            LegendAlign::Center
        }
    }
}


/// The chart kinds that render; any other `kind` string renders nothing.
#[derive(Clone, Copy, PartialEq, Eq, Structural, Debug)]
pub enum ChartKind {
    Bar,
    Line,
    Area,
    Sparkline,
    Pie,
    Donut,
}

/// The chart kind a `kind` string names.
pub open spec fn chart_kind_spec(kind: Seq<char>) -> Option<ChartKind> {
    if kind == "bar"@ {
        Some(ChartKind::Bar)
    } else if kind == "line"@ {
        Some(ChartKind::Line)
    } else if kind == "area"@ {
        Some(ChartKind::Area)
    } else if kind == "sparkline"@ {
        Some(ChartKind::Sparkline)
    } else if kind == "pie"@ {
        Some(ChartKind::Pie)
    } else if kind == "donut"@ {
        Some(ChartKind::Donut)
    } else {
        None
    }
}

/// Classify a chart's `kind`: `bar`, `line`, `area`, `sparkline`, `pie`, and
/// `donut` render; an unknown kind (forward compatibility) renders nothing.
pub fn chart_kind(kind: &str) -> (k: Option<ChartKind>)
    ensures
        k == chart_kind_spec(kind@),
{
    let s = Some(kind);
    if opt_eq(s, "bar") {
        Some(ChartKind::Bar)
    } else if opt_eq(s, "line") {
        Some(ChartKind::Line)
    } else if opt_eq(s, "area") {
        Some(ChartKind::Area)
    } else if opt_eq(s, "sparkline") {
        Some(ChartKind::Sparkline)
    } else if opt_eq(s, "pie") {
        Some(ChartKind::Pie)
    } else if opt_eq(s, "donut") {
        Some(ChartKind::Donut)
    } else {
        None
    }
}

/// How a frame places its children.
#[derive(Clone, Copy, PartialEq, Eq, Structural, Debug)]
pub enum FrameLayout {
    /// Children render at their own page coordinates (clip only).
    Absolute,
    /// Children stack vertically inside the padded content box.
    Flow,
    /// Children auto-place row-major into grid cells.
    Grid,
}

impl FrameLayout {
    /// The layout a frame's `layout` property selects.
    pub open spec fn spec_from_opt(s: Option<&str>) -> FrameLayout {
        if opt_is(s, "flow"@) {
            FrameLayout::Flow
        } else if opt_is(s, "grid"@) {
            FrameLayout::Grid
        } else {
            FrameLayout::Absolute
        }
    }

    /// `"flow"` and `"grid"` select those layouts; anything else (or nothing)
    /// keeps the absolute, clip-only model.
    pub fn from_opt(s: Option<&str>) -> (l: FrameLayout)
        ensures
            l == FrameLayout::spec_from_opt(s),
    {
        if opt_eq(s, "flow") {
            FrameLayout::Flow
        } else if opt_eq(s, "grid") {
            FrameLayout::Grid
        } else {
            FrameLayout::Absolute
        }
    }
}

/// The explicit value-label settings select their mode whatever the stacking:
/// `"none"` turns labels off, `"top"` puts them on top, `"center"` centers
/// them; only an absent, `"auto"` or unknown setting depends on stacking
/// (centered when stacked, on top otherwise).
pub proof fn law_value_labels_explicit_modes(value_labels: Option<&str>, is_stacked: bool)
    ensures
        opt_is(value_labels, "none"@) ==> ValueLabelMode::spec_resolve(value_labels, is_stacked)
            == ValueLabelMode::Off,
        opt_is(value_labels, "top"@) ==> ValueLabelMode::spec_resolve(value_labels, is_stacked)
            == ValueLabelMode::Top,
        opt_is(value_labels, "center"@) ==> ValueLabelMode::spec_resolve(value_labels, is_stacked)
            == ValueLabelMode::Center,
        value_labels is None ==> ValueLabelMode::spec_resolve(value_labels, is_stacked) == (if is_stacked {
            ValueLabelMode::Center
        } else {
            ValueLabelMode::Top
        }),
        ValueLabelMode::spec_resolve(value_labels, is_stacked) == ValueLabelMode::Off ==> opt_is(
            value_labels,
            "none"@,
        ),
{
    reveal_strlit("none");
    reveal_strlit("top");
    reveal_strlit("center");
    assert("none"@ != "top"@ && "none"@ != "center"@ && "top"@ != "center"@) by {
        assert("none"@[0] != "top"@[0]);
        assert("none"@[0] != "center"@[0]);
        assert("top"@[0] != "center"@[0]);
    }
}

/// Each option string selects exactly the value it names, and anything else
/// (absent or unknown) selects the documented fallback: bars stack only for
/// `"stacked"`; the legend sits left, top or bottom when so named and right
/// otherwise, and is a side strip exactly when left or right; it lists only
/// for `"list"`; it aligns to the start for `"left"`, the end for `"right"`,
/// and centers otherwise; a frame flows for `"flow"`, grids for `"grid"`, and
/// is absolute otherwise.
pub proof fn law_option_strings(s: Option<&str>)
    ensures
        (BarMode::spec_from_opt(s) == BarMode::Stacked) <==> opt_is(s, "stacked"@),
        opt_is(s, "left"@) ==> LegendPosition::spec_from_opt(s) == LegendPosition::Left,
        opt_is(s, "top"@) ==> LegendPosition::spec_from_opt(s) == LegendPosition::Top,
        opt_is(s, "bottom"@) ==> LegendPosition::spec_from_opt(s) == LegendPosition::Bottom,
        !opt_is(s, "left"@) && !opt_is(s, "top"@) && !opt_is(s, "bottom"@)
            ==> LegendPosition::spec_from_opt(s) == LegendPosition::Right,
        LegendPosition::spec_from_opt(s).spec_is_side() <==> !(opt_is(s, "top"@) || opt_is(
            s,
            "bottom"@,
        )),
        (LegendLayout::spec_from_opt(s) == LegendLayout::List) <==> opt_is(s, "list"@),
        opt_is(s, "left"@) ==> LegendAlign::spec_from_opt(s) == LegendAlign::Start,
        opt_is(s, "right"@) ==> LegendAlign::spec_from_opt(s) == LegendAlign::End,
        !opt_is(s, "left"@) && !opt_is(s, "right"@) ==> LegendAlign::spec_from_opt(s)
            == LegendAlign::Center,
        opt_is(s, "flow"@) ==> FrameLayout::spec_from_opt(s) == FrameLayout::Flow,
        opt_is(s, "grid"@) ==> FrameLayout::spec_from_opt(s) == FrameLayout::Grid,
        !opt_is(s, "flow"@) && !opt_is(s, "grid"@) ==> FrameLayout::spec_from_opt(s)
            == FrameLayout::Absolute,
{
    reveal_strlit("left");
    reveal_strlit("top");
    reveal_strlit("bottom");
    reveal_strlit("right");
    reveal_strlit("flow");
    reveal_strlit("grid");
    assert("left"@ != "top"@ && "left"@ != "bottom"@ && "top"@ != "bottom"@) by {
        assert("left"@[0] != "top"@[0] && "left"@[0] != "bottom"@[0] && "top"@[0] != "bottom"@[0]);
    }
    assert("left"@ != "right"@) by {
        assert("left"@[0] != "right"@[0]);
    }
    assert("flow"@ != "grid"@) by {
        assert("flow"@[0] != "grid"@[0]);
    }
}

/// The six chart kinds that render are named by exactly these strings;
/// every other kind string renders nothing.
pub proof fn law_chart_kinds(kind: Seq<char>)
    ensures
        kind == "bar"@ ==> chart_kind_spec(kind) == Some(ChartKind::Bar),
        kind == "line"@ ==> chart_kind_spec(kind) == Some(ChartKind::Line),
        kind == "area"@ ==> chart_kind_spec(kind) == Some(ChartKind::Area),
        kind == "sparkline"@ ==> chart_kind_spec(kind) == Some(ChartKind::Sparkline),
        kind == "pie"@ ==> chart_kind_spec(kind) == Some(ChartKind::Pie),
        kind == "donut"@ ==> chart_kind_spec(kind) == Some(ChartKind::Donut),
        chart_kind_spec(kind) is None <==> !(kind == "bar"@ || kind == "line"@ || kind == "area"@
            || kind == "sparkline"@ || kind == "pie"@ || kind == "donut"@),
{
    reveal_strlit("bar");
    reveal_strlit("line");
    reveal_strlit("area");
    reveal_strlit("sparkline");
    reveal_strlit("pie");
    reveal_strlit("donut");
    assert("line"@ != "bar"@ && "area"@ != "bar"@ && "area"@ != "line"@) by {
        assert("line"@[0] != "bar"@[0] && "area"@[0] != "bar"@[0] && "area"@[0] != "line"@[0]);
    }
    assert("sparkline"@ != "bar"@ && "sparkline"@ != "line"@ && "sparkline"@ != "area"@) by {
        assert("sparkline"@[0] != "bar"@[0] && "sparkline"@[0] != "line"@[0] && "sparkline"@[0]
            != "area"@[0]);
    }
    assert("pie"@ != "bar"@ && "pie"@ != "line"@ && "pie"@ != "area"@ && "pie"@ != "sparkline"@) by {
        assert("pie"@[0] != "bar"@[0] && "pie"@[0] != "line"@[0] && "pie"@[0] != "area"@[0]
            && "pie"@[0] != "sparkline"@[0]);
    }
    assert("donut"@ != "bar"@ && "donut"@ != "line"@ && "donut"@ != "area"@ && "donut"@
        != "sparkline"@ && "donut"@ != "pie"@) by {
        assert("donut"@[0] != "bar"@[0] && "donut"@[0] != "line"@[0] && "donut"@[0] != "area"@[0]
            && "donut"@[0] != "sparkline"@[0] && "donut"@[0] != "pie"@[0]);
    }
}

} // verus!
