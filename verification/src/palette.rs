//! Colors, the categorical series palette, and the fallback labels used by
//! chart legends and category axes.

use vstd::prelude::*;
use vstd::string::StringExecFns;

verus! {

/// An sRGB color with straight alpha, 8 bits per channel.
#[derive(Clone, Copy, PartialEq, Eq, Structural, Debug)]
pub struct Color {
    pub r: u8,
    pub g: u8,
    pub b: u8,
    pub a: u8,
}

impl Color {
    /// Build a color from its four channels.
    pub fn srgb(r: u8, g: u8, b: u8, a: u8) -> (c: Color)
        ensures
            c == (Color { r, g, b, a }),
    {
        Color { r, g, b, a }
    }
}

/// Number of entries in the series palette.
pub const PALETTE_LEN: usize = 8;

/// The deterministic categorical palette: blue, red, green, yellow, orange,
/// purple, cyan, pink.
pub open spec fn palette_spec(k: int) -> Color {
    if k == 0 {
        Color { r: 66, g: 133, b: 244, a: 255 }
    } else if k == 1 {
        Color { r: 234, g: 67, b: 53, a: 255 }
    } else if k == 2 {
        Color { r: 52, g: 168, b: 83, a: 255 }
    } else if k == 3 {
        Color { r: 251, g: 188, b: 4, a: 255 }
    } else if k == 4 {
        Color { r: 255, g: 109, b: 0, a: 255 }
    } else if k == 5 {
        Color { r: 103, g: 58, b: 183, a: 255 }
    } else if k == 6 {
        Color { r: 0, g: 172, b: 193, a: 255 }
    } else {
        Color { r: 233, g: 30, b: 99, a: 255 }
    }
}

/// Palette entry `k` (`k < 8`).
pub fn series_palette(k: usize) -> (c: Color)
    requires
        k < PALETTE_LEN,
    ensures
        c == palette_spec(k as int),
{
    match k {
        0 => Color::srgb(66, 133, 244, 255),
        1 => Color::srgb(234, 67, 53, 255),
        2 => Color::srgb(52, 168, 83, 255),
        3 => Color::srgb(251, 188, 4, 255),
        4 => Color::srgb(255, 109, 0, 255),
        5 => Color::srgb(103, 58, 183, 255),
        6 => Color::srgb(0, 172, 193, 255),
        _ => Color::srgb(233, 30, 99, 255),
    }
}

/// The palette color of slice (or series) `idx`: the palette cycles every 8.
pub open spec fn slice_color_spec(idx: int) -> Color {
    palette_spec(idx % (PALETTE_LEN as int))
}

/// Return the palette color for slice `idx` (cycles through the palette).
pub fn slice_color(idx: usize) -> (c: Color)
    ensures
        c == slice_color_spec(idx as int),
{
    series_palette(idx % PALETTE_LEN)
}

/// The fill of series (or slice) `idx` given the outcome of resolving its
/// explicit color property: that color when it resolved, else the palette
/// color for `idx`.
pub open spec fn resolved_fill_spec(explicit: Option<Color>, idx: int) -> Color {
    match explicit {
        Some(e) => e,
        None => slice_color_spec(idx),
    }
}

/// Resolve the display color of series (or slice) `idx` from the result of
/// resolving its explicit color property (see `resolved_fill_spec`).
pub fn series_color(explicit: Option<Color>, idx: usize) -> (c: Color)
    ensures
        c == resolved_fill_spec(explicit, idx as int),
{
    match explicit {
        Some(e) => e,
        None => slice_color(idx),
    }
}

/// The explicit color of slice `idx` as resolved: the outcome for the
/// slice's own color property, `None` for a slice without one.
pub open spec fn explicit_at(slice_colors: Seq<Option<Color>>, idx: int) -> Option<Color> {
    if 0 <= idx < slice_colors.len() {
        slice_colors[idx]
    } else {
        None
    }
}

/// The fill of pie slice `idx`: its own color when it declares one that
/// resolved, else the palette color for `idx`.
pub open spec fn slice_fill_spec(slice_colors: Seq<Option<Color>>, idx: int) -> Color {
    resolved_fill_spec(explicit_at(slice_colors, idx), idx)
}

/// Resolve the fill color of slice `i` of a pie or donut chart, given the
/// outcome of resolving each slice's own color property (`slice_colors[i]`,
/// absent past the end of the list). This is the one resolution path the
/// slices and the legend share.
pub fn resolve_slice_color(slice_colors: &[Option<Color>], i: usize) -> (c: Color)
    ensures
        c == slice_fill_spec(slice_colors@, i as int),
{
    let explicit = if i < slice_colors.len() {
        slice_colors[i]
    } else {
        None
    };
    series_color(explicit, i)
}

/// A pie legend swatch and the slice it stands for always agree: both are
/// the resolved fill of that slice, explicit color included.
pub proof fn law_legend_swatch_matches_slice_fill(slice_colors: Seq<Option<Color>>, idx: int)
    requires
        idx >= 0,
    ensures
        slice_fill_spec(slice_colors, idx) == resolved_fill_spec(explicit_at(slice_colors, idx), idx),
        explicit_at(slice_colors, idx) is None ==> slice_fill_spec(slice_colors, idx)
            == slice_color_spec(idx),
{
}

/// Cycling law: series `idx` and series `idx + 8` share a palette color.
pub proof fn law_palette_cycles(idx: int)
    requires
        idx >= 0,
    ensures
        slice_color_spec(idx) == slice_color_spec(idx + PALETTE_LEN as int),
{
    assert((idx + 8) % 8 == idx % 8);
}

/// Distinctness law: the 8 palette entries are pairwise different, so any 8
/// consecutive series get 8 different colors.
pub proof fn law_palette_distinct(i: int, j: int)
    requires
        0 <= i < PALETTE_LEN,
        0 <= j < PALETTE_LEN,
        i != j,
    ensures
        palette_spec(i) != palette_spec(j),
{
}

// ── Decimal labels ──────────────────────────────────────────────────────────

/// The ASCII digit for `d < 10`.
pub open spec fn digit_char(d: nat) -> char {
    if d == 0 {
        '0'
    } else if d == 1 {
        '1'
    } else if d == 2 {
        '2'
    } else if d == 3 {
        '3'
    } else if d == 4 {
        '4'
    } else if d == 5 {
        '5'
    } else if d == 6 {
        '6'
    } else if d == 7 {
        '7'
    } else if d == 8 {
        '8'
    } else {
        '9'
    }
}

/// The decimal spelling of `n` (no sign, no leading zeros, `"0"` for zero).
pub open spec fn decimal_chars(n: nat) -> Seq<char>
    decreases n,
{
    if n < 10 {
        seq![digit_char(n)]
    } else {
        decimal_chars(n / 10).push(digit_char(n % 10))
    }
}

fn digit_str(d: usize) -> (s: &'static str)
    requires
        d < 10,
    ensures
        s@ == seq![digit_char(d as nat)],
{
    match d {
        0 => {
            proof {
                reveal_strlit("0");
            }
            "0"
        },
        1 => {
            proof {
                reveal_strlit("1");
            }
            "1"
        },
        2 => {
            proof {
                reveal_strlit("2");
            }
            "2"
        },
        3 => {
            proof {
                reveal_strlit("3");
            }
            "3"
        },
        4 => {
            proof {
                reveal_strlit("4");
            }
            "4"
        },
        5 => {
            proof {
                reveal_strlit("5");
            }
            "5"
        },
        6 => {
            proof {
                reveal_strlit("6");
            }
            "6"
        },
        7 => {
            proof {
                reveal_strlit("7");
            }
            "7"
        },
        8 => {
            proof {
                reveal_strlit("8");
            }
            "8"
        },
        _ => {
            proof {
                reveal_strlit("9");
            }
            "9"
        },
    }
}

/// Spell `n` in decimal, as `n.to_string()` does.
pub fn decimal_string(n: usize) -> (s: String)
    ensures
        s@ == decimal_chars(n as nat),
    decreases n,
{
    if n < 10 {
        let mut s = String::new();
        s.append(digit_str(n));
        s
    } else {
        let mut s = decimal_string(n / 10);
        s.append(digit_str(n % 10));
        s
    }
}

/// The label of category `c`: its authored name, or the 1-based ordinal when
/// the category list is shorter.
pub open spec fn category_label_spec(categories: Seq<String>, c: int) -> Seq<char> {
    if 0 <= c < categories.len() {
        categories[c]@
    } else {
        decimal_chars((c + 1) as nat)
    }
}

/// Label for category slot `c`: `categories[c]` when present, else the
/// 1-based index (`"1"`, `"2"`, ...).
pub fn category_label(categories: &[String], c: usize) -> (s: String)
    requires
        c < usize::MAX,
    ensures
        s@ == category_label_spec(categories@, c as int),
{
    if c < categories.len() {
        categories[c].clone()
    } else {
        decimal_string(c + 1)
    }
}

/// Build legend entries for a pie or donut chart with `n` slices: one per
/// slice, labelled by its category (or 1-based ordinal) and colored with the
/// slice's resolved fill (`resolve_slice_color`), so legend and slices agree.
pub fn pie_legend_entries(categories: &[String], slice_colors: &[Option<Color>], n: usize) -> (entries: Vec<
    (String, Color),
>)
    ensures
        entries@.len() == n,
        forall|i: int|
            0 <= i < n ==> #[trigger] entries@[i].0@ == category_label_spec(categories@, i)
                && entries@[i].1 == slice_fill_spec(slice_colors@, i),
{
    let mut entries: Vec<(String, Color)> = Vec::new();
    let mut i: usize = 0;
    while i < n
        invariant
            i <= n,
            entries@.len() == i,
            forall|k: int|
                0 <= k < i ==> #[trigger] entries@[k].0@ == category_label_spec(categories@, k)
                    && entries@[k].1 == slice_fill_spec(slice_colors@, k),
        decreases n - i,
    {
        let label = category_label(categories, i);
        let color = resolve_slice_color(slice_colors, i);
        let ghost prev = entries@;
        entries.push((label, color));
        proof {
            assert forall|k: int| 0 <= k <= i implies #[trigger] entries@[k].0@ == category_label_spec(
                categories@,
                k,
            ) && entries@[k].1 == slice_fill_spec(slice_colors@, k) by {
                if k < i {
                    assert(entries@[k] == prev[k]);
                }
            }
        }
        i = i + 1;
    }
    entries
}

/// The legend label of series `s`: its authored label, else `"Series <s+1>"`.
pub open spec fn series_label_spec(label: Option<Seq<char>>, s: int) -> Seq<char> {
    match label {
        Some(l) => l,
        None => "Series "@ + decimal_chars((s + 1) as nat),
    }
}

/// Legend label for series `s` of an axis chart.
pub fn series_legend_label(label: Option<&String>, s: usize) -> (r: String)
    requires
        s < usize::MAX,
    ensures
        r@ == series_label_spec(
            match label {
                Some(l) => Some(l@),
                None => None,
            },
            s as int,
        ),
{
    match label {
        Some(l) => l.clone(),
        None => {
            let mut r = String::new();
            r.append("Series ");
            let d = decimal_string(s + 1);
            r.append(d.as_str());
            r
        },
    }
}

/// A series or slice is painted with its explicit color when that color
/// resolved, and otherwise with palette entry `idx mod 8`.
pub proof fn law_fill_resolution(explicit: Option<Color>, idx: int, c: Color)
    requires
        idx >= 0,
    ensures
        resolved_fill_spec(Some(c), idx) == c,
        resolved_fill_spec(None, idx) == palette_spec(idx % 8),
{
}

} // verus!
