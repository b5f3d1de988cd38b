use zenith_scene::data_binding::PropValue;
use zenith_scene::style::{cascade, style_prop, Style};

fn lit(s: &str) -> PropValue<f64> {
    PropValue::Literal(s.to_string())
}

fn styles() -> Vec<Style<f64>> {
    vec![
        Style {
            id: "style.card".to_string(),
            properties: vec![("fill".to_string(), lit("#111111")), ("radius".to_string(), PropValue::Dimension(4.0))],
        },
        Style { id: "style.title".to_string(), properties: vec![("font-size".to_string(), PropValue::Dimension(24.0))] },
        // A later style with the same id replaces the earlier one.
        Style { id: "style.card".to_string(), properties: vec![("fill".to_string(), lit("#222222"))] },
    ]
}

#[test]
fn style_lookup_by_ref_and_key() {
    let st = styles();
    assert_eq!(style_prop(Some("style.title"), &st, "font-size"), Some(&PropValue::Dimension(24.0)));
    assert_eq!(style_prop(Some("style.title"), &st, "fill"), None);
    assert_eq!(style_prop(None, &st, "fill"), None);
    assert_eq!(style_prop(Some("style.none"), &st, "fill"), None);
}

#[test]
fn last_declared_style_wins() {
    let st = styles();
    assert_eq!(style_prop(Some("style.card"), &st, "fill"), Some(&lit("#222222")));
    assert_eq!(style_prop(Some("style.card"), &st, "radius"), None);
}

#[test]
fn node_local_value_overrides_style() {
    let st = styles();
    let own = lit("#abcdef");
    assert_eq!(cascade(Some(&own), Some("style.card"), &st, "fill"), Some(&own));
    assert_eq!(cascade(None, Some("style.card"), &st, "fill"), Some(&lit("#222222")));
    assert_eq!(cascade(None, None, &st, "fill"), None);
}
