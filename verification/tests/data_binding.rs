use zenith_scene::data_binding::{
    any_prop, any_span, node_has_data_ref, scan_for_data_refs, substitute_color_prop,
    substitute_color_prop_opt, substitute_data_refs, substitute_dim_prop_opt, substitute_node,
    substitute_spans, BoundNode, BoundProp, DataContext, DataField, DataSpan, PropKind, PropValue,
};

fn field(path: &str, value: &str, px: Option<f64>) -> DataField<f64> {
    DataField { path: path.to_string(), value: value.to_string(), px }
}

fn ctx() -> DataContext<f64> {
    DataContext {
        fields: vec![
            field("brand.color", "#00ff00", None),
            field("brand.color", "#ff0000", None),
            field("title", "Hello", None),
            field("radius", " 8px ", Some(8.0)),
            field("price", "12.5", Some(12.5)),
        ],
    }
}

fn fmt(value: &String, format: &String) -> String {
    format!("{}[{}]", value, format)
}

fn prop(name: &str, kind: PropKind, value: Option<PropValue<f64>>) -> BoundProp<f64> {
    BoundProp { name: name.to_string(), kind, value }
}

fn data_ref(path: &str) -> Option<PropValue<f64>> {
    Some(PropValue::DataRef(path.to_string()))
}

fn span(text: &str, data_ref: Option<&str>, data_format: Option<&str>) -> DataSpan {
    DataSpan {
        text: text.to_string(),
        data_ref: data_ref.map(|s| s.to_string()),
        data_format: data_format.map(|s| s.to_string()),
    }
}

fn unit(subject: &str, props: Vec<BoundProp<f64>>, spans: Vec<DataSpan>, children: Vec<BoundNode<f64>>) -> BoundNode<f64> {
    BoundNode { subject: subject.to_string(), props, spans, children }
}

#[test]
fn data_context_lookup_later_field_wins() {
    let c = ctx();
    assert_eq!(c.get("brand.color"), Some("#ff0000"));
    assert_eq!(c.get("title"), Some("Hello"));
    assert_eq!(c.get("missing"), None);
    assert_eq!(c.field("radius").and_then(|f| f.px), Some(8.0));
}

#[test]
fn data_ref_becomes_literal() {
    let mut diags = Vec::new();
    let mut p: PropValue<f64> = PropValue::DataRef("brand.color".to_string());
    substitute_color_prop(&mut p, &ctx(), "card", "fill", &mut diags);
    assert!(diags.is_empty());
    assert_eq!(p, PropValue::Literal("#ff0000".to_string()));
}

#[test]
fn missing_field_keeps_ref_and_advises() {
    let mut diags = Vec::new();
    let mut p: PropValue<f64> = PropValue::DataRef("nope".to_string());
    substitute_color_prop(&mut p, &ctx(), "card", "stroke", &mut diags);
    assert_eq!(p, PropValue::DataRef("nope".to_string()));
    assert_eq!(diags.len(), 1);
    assert_eq!(diags[0].code, "data.missing_field");
    assert_eq!(
        diags[0].message,
        "node 'card': property 'stroke' references data field 'nope' which is not present in the data context (or is not a valid value for this property); left unresolved"
    );
    assert_eq!(diags[0].subject.as_deref(), Some("card"));
}

#[test]
fn other_values_untouched() {
    let mut diags = Vec::new();
    let mut p: PropValue<f64> = PropValue::Dimension(12.5);
    substitute_color_prop(&mut p, &ctx(), "card", "fill", &mut diags);
    assert_eq!(p, PropValue::Dimension(12.5));
    let mut t: PropValue<f64> = PropValue::TokenRef("color.brand".to_string());
    substitute_color_prop(&mut t, &ctx(), "card", "fill", &mut diags);
    assert_eq!(t, PropValue::TokenRef("color.brand".to_string()));
    let mut absent: Option<PropValue<f64>> = None;
    substitute_color_prop_opt(&mut absent, &ctx(), "card", "fill", &mut diags);
    assert_eq!(absent, None);
    assert!(diags.is_empty());
}

#[test]
fn dimension_refs_read_as_pixels() {
    let mut diags = Vec::new();
    let mut r = data_ref("radius");
    substitute_dim_prop_opt(&mut r, &ctx(), "box", "radius", &mut diags);
    assert_eq!(r, Some(PropValue::Dimension(8.0)));
    // A field that is present but not a number stays unresolved.
    let mut t = data_ref("title");
    substitute_dim_prop_opt(&mut t, &ctx(), "box", "stroke-width", &mut diags);
    assert_eq!(t, data_ref("title"));
    assert_eq!(diags.len(), 1);
    assert!(diags[0].message.starts_with("node 'box': property 'stroke-width' references data field 'title'"));
}

#[test]
fn scan_finds_refs_anywhere() {
    let plain = prop("fill", PropKind::Color, Some(PropValue::Literal("#000".to_string())));
    assert!(!any_prop(&vec![plain]));
    assert!(any_prop(&vec![prop("fill", PropKind::Color, data_ref("x"))]));
    assert!(!any_span(&vec![span("a", None, None)]));
    assert!(any_span(&vec![span("a", Some("title"), None)]));
    let deep = unit("page", vec![], vec![], vec![unit("g", vec![], vec![], vec![unit("t", vec![], vec![span("x", Some("title"), None)], vec![])])]);
    assert!(node_has_data_ref(&deep));
    let clean = unit("page", vec![prop("background", PropKind::Color, None)], vec![], vec![unit("r", vec![], vec![span("x", None, None)], vec![])]);
    assert!(!node_has_data_ref(&clean));
    assert!(scan_for_data_refs(&vec![clean, deep]));
    assert!(!scan_for_data_refs::<f64>(&vec![]));
}

#[test]
fn spans_take_field_values() {
    let mut diags = Vec::new();
    let mut spans = vec![
        span("fallback", Some("title"), None),
        span("0", Some("price"), Some("currency")),
        span("keep", Some("nope"), None),
        span("static", None, None),
    ];
    substitute_spans(&mut spans, &ctx(), "t1", &fmt, &mut diags);
    assert_eq!(spans[0].text, "Hello");
    assert_eq!(spans[1].text, "12.5[currency]");
    assert_eq!(spans[2].text, "keep");
    assert_eq!(spans[3].text, "static");
    assert_eq!(diags.len(), 1);
    assert!(diags[0].message.starts_with("node 't1': property 'span data-ref' references data field 'nope'"));
}

#[test]
fn document_walk_in_order() {
    let mut pages = vec![unit(
        "p1",
        vec![prop("background", PropKind::Color, data_ref("missing.bg"))],
        vec![],
        vec![
            unit(
                "r1",
                vec![
                    prop("fill", PropKind::Color, data_ref("brand.color")),
                    prop("stroke", PropKind::Color, data_ref("missing.stroke")),
                    prop("radius", PropKind::Dimension, data_ref("radius")),
                ],
                vec![],
                vec![],
            ),
            unit("t1", vec![], vec![span("x", Some("missing.text"), None)], vec![]),
        ],
    )];
    let mut diags = Vec::new();
    substitute_data_refs(&mut pages, &ctx(), &fmt, &mut diags);
    let r1 = &pages[0].children[0];
    assert_eq!(r1.props[0].value, Some(PropValue::Literal("#ff0000".to_string())));
    assert_eq!(r1.props[1].value, data_ref("missing.stroke"));
    assert_eq!(r1.props[2].value, Some(PropValue::Dimension(8.0)));
    let subjects: Vec<&str> = diags.iter().map(|d| d.subject.as_deref().unwrap()).collect();
    assert_eq!(subjects, vec!["p1", "r1", "t1"]);
    assert!(diags[0].message.contains("property 'background'"));
    assert!(diags[1].message.contains("data field 'missing.stroke'"));
    assert!(diags[2].message.contains("property 'span data-ref'"));
}

#[test]
fn document_without_refs_is_untouched() {
    let mut node = unit(
        "r",
        vec![prop("fill", PropKind::Color, Some(PropValue::TokenRef("color.ink".to_string())))],
        vec![span("hi", None, None)],
        vec![],
    );
    let mut diags = Vec::new();
    substitute_node(&mut node, &ctx(), &fmt, &mut diags);
    assert!(diags.is_empty());
    assert_eq!(node.props[0].value, Some(PropValue::TokenRef("color.ink".to_string())));
    assert_eq!(node.spans[0].text, "hi");
}
