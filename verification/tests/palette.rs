use zenith_scene::palette::{
    category_label, decimal_string, pie_legend_entries, resolve_slice_color, series_color,
    series_legend_label, slice_color, Color,
};

#[test]
fn slice_color_cycles_through_eight_entries() {
    assert_eq!(slice_color(0), Color::srgb(66, 133, 244, 255));
    assert_eq!(slice_color(1), Color::srgb(234, 67, 53, 255));
    assert_eq!(slice_color(7), Color::srgb(233, 30, 99, 255));
    assert_eq!(slice_color(8), slice_color(0));
    assert_eq!(slice_color(13), Color::srgb(103, 58, 183, 255));
    assert_eq!(slice_color(usize::MAX), slice_color(7));
}

#[test]
fn palette_entries_are_distinct() {
    for i in 0..8 {
        for j in 0..8 {
            if i != j {
                assert_ne!(slice_color(i), slice_color(j));
            }
        }
    }
}

#[test]
fn series_color_explicit_wins_else_palette() {
    let red = Color::srgb(255, 0, 0, 128);
    assert_eq!(series_color(Some(red), 3), red);
    assert_eq!(series_color(None, 3), Color::srgb(251, 188, 4, 255));
    assert_eq!(series_color(None, 10), Color::srgb(52, 168, 83, 255));
}

#[test]
fn decimal_string_spells_numbers() {
    assert_eq!(decimal_string(0), "0");
    assert_eq!(decimal_string(7), "7");
    assert_eq!(decimal_string(10), "10");
    assert_eq!(decimal_string(1234567890), "1234567890");
    assert_eq!(decimal_string(usize::MAX), usize::MAX.to_string());
}

#[test]
fn category_label_falls_back_to_one_based_index() {
    let cats = vec!["Q1".to_string(), "".to_string()];
    assert_eq!(category_label(&cats, 0), "Q1");
    assert_eq!(category_label(&cats, 1), "");
    assert_eq!(category_label(&cats, 2), "3");
    assert_eq!(category_label(&[], 9), "10");
}

#[test]
fn pie_legend_entries_label_and_color_each_slice() {
    let cats = vec!["Apples".to_string(), "Pears".to_string()];
    let entries = pie_legend_entries(&cats, &[], 3);
    assert_eq!(entries.len(), 3);
    assert_eq!(entries[0], ("Apples".to_string(), slice_color(0)));
    assert_eq!(entries[1], ("Pears".to_string(), slice_color(1)));
    assert_eq!(entries[2], ("3".to_string(), slice_color(2)));
    assert!(pie_legend_entries(&cats, &[], 0).is_empty());
}

#[test]
fn pie_legend_swatch_is_the_slice_fill() {
    let black = Color::srgb(0, 0, 0, 255);
    let colors = vec![Some(black), None];
    let cats = vec!["A".to_string(), "B".to_string(), "C".to_string()];
    let entries = pie_legend_entries(&cats, &colors, 3);
    for i in 0..3 {
        assert_eq!(entries[i].1, resolve_slice_color(&colors, i));
    }
    assert_eq!(entries[0].1, black);
    assert_eq!(entries[1].1, slice_color(1));
    assert_eq!(entries[2].1, slice_color(2));
}

#[test]
fn series_legend_label_defaults_to_series_ordinal() {
    let named = "Revenue".to_string();
    assert_eq!(series_legend_label(Some(&named), 4), "Revenue");
    assert_eq!(series_legend_label(None, 0), "Series 1");
    assert_eq!(series_legend_label(None, 11), "Series 12");
}
