use zenith_scene::data_binding::PropValue;
use zenith_scene::node_tree::{NodeKind, NodeProps, SceneNode};
use zenith_scene::property_resolve::{ResolvedValue, TokenEntry, TokenTable};
use zenith_scene::overrides::{
    apply_override, apply_override_to_node, find_override_target, set_node_fill, set_node_stroke,
    remap_import_override, set_node_stroke_width, set_node_svg_style, set_node_visible, Override,
};

fn no_props() -> NodeProps<f64> {
    NodeProps {
        spans: Vec::new(),
        fill: None,
        stroke: None,
        stroke_width: None,
        svg_stroke: None,
        svg_fill: None,
        svg_stroke_width: None,
        visible: None,
    }
}

fn leaf(kind: NodeKind, id: &str) -> SceneNode<f64> {
    SceneNode { kind, id: id.to_string(), asset: String::new(), props: no_props(), children: Vec::new() }
}

fn container(kind: NodeKind, id: &str, children: Vec<SceneNode<f64>>) -> SceneNode<f64> {
    SceneNode { kind, id: id.to_string(), asset: String::new(), props: no_props(), children }
}

fn override_for(ref_id: &str) -> Override<f64> {
    Override {
        ref_id: ref_id.to_string(),
        spans: None,
        fill: None,
        stroke: None,
        stroke_width: None,
        svg_stroke: None,
        svg_fill: None,
        svg_stroke_width: None,
        visible: None,
    }
}

fn s(v: &str) -> Option<PropValue<f64>> {
    Some(PropValue::Literal(v.to_string()))
}

fn lit(v: &str) -> PropValue<f64> {
    PropValue::Literal(v.to_string())
}

#[test]
fn override_target_first_match_in_document_order() {
    let kids = vec![
        container(NodeKind::Group, "g", vec![leaf(NodeKind::Rect, "x"), leaf(NodeKind::Text, "label")]),
        leaf(NodeKind::Text, "label"),
        container(NodeKind::Table, "t", vec![leaf(NodeKind::Rect, "in_table")]),
    ];
    assert_eq!(find_override_target(&kids, "label"), Some(vec![0, 1]));
    assert_eq!(find_override_target(&kids, "g"), Some(vec![0]));
    assert_eq!(find_override_target(&kids, "x"), Some(vec![0, 0]));
    // Tables are not searched; unmatched refs give None.
    assert_eq!(find_override_target(&kids, "in_table"), None);
    assert_eq!(find_override_target(&kids, "nope"), None);
    // Unknown nodes have no local id.
    let unk = vec![container(NodeKind::Unknown, "u", vec![])];
    assert_eq!(find_override_target(&unk, "u"), None);
}


#[test]
fn override_applies_to_first_match_only() {
    let mut kids = vec![
        container(NodeKind::Group, "g", vec![leaf(NodeKind::Rect, "x"), leaf(NodeKind::Text, "label")]),
        leaf(NodeKind::Text, "label"),
    ];
    let mut ov = override_for("label");
    ov.fill = s("#ff0000");
    ov.spans = Some(vec!["Hello".to_string()]);
    ov.visible = Some(false);
    assert!(apply_override(&mut kids, &ov));
    let hit = &kids[0].children[1];
    assert_eq!(hit.props.fill, s("#ff0000"));
    assert_eq!(hit.props.spans, vec!["Hello".to_string()]);
    assert_eq!(hit.props.visible, Some(false));
    // The later node with the same id is untouched, and so is the group.
    assert_eq!(kids[1].props.fill, None);
    assert!(kids[1].props.spans.is_empty());
    assert_eq!(kids[0].props.fill, None);
    assert_eq!(kids[0].children[0].props.fill, None);
}

#[test]
fn unmatched_override_changes_nothing() {
    let mut kids = vec![
        container(NodeKind::Table, "t", vec![leaf(NodeKind::Rect, "in_table")]),
        leaf(NodeKind::Rect, "r"),
    ];
    let mut ov = override_for("in_table");
    ov.fill = s("#000000");
    assert!(!apply_override(&mut kids, &ov));
    assert_eq!(kids[0].children[0].props.fill, None);
    assert_eq!(kids[1].props.fill, None);
}

#[test]
fn override_twice_same_as_once() {
    let mut kids = vec![container(NodeKind::Frame, "f", vec![leaf(NodeKind::Rect, "box")])];
    let mut ov = override_for("box");
    ov.fill = s("#00ff00");
    ov.stroke_width = s("2px");
    assert!(apply_override(&mut kids, &ov));
    assert!(apply_override(&mut kids, &ov));
    assert_eq!(find_override_target(&kids, "box"), Some(vec![0, 0]));
    assert_eq!(kids[0].children[0].props.fill, s("#00ff00"));
    assert_eq!(kids[0].children[0].props.stroke_width, s("2px"));
    assert_eq!(kids[0].children[0].props.stroke, None);
}

#[test]
fn fields_land_only_on_kinds_that_carry_them() {
    let mut rect = leaf(NodeKind::Rect, "r");
    let mut ov = override_for("r");
    ov.spans = Some(vec!["ignored".to_string()]);
    ov.fill = s("#111111");
    ov.svg_fill = s("#222222");
    apply_override_to_node(&mut rect, &ov);
    assert!(rect.props.spans.is_empty());
    assert_eq!(rect.props.fill, s("#111111"));
    assert_eq!(rect.props.svg_fill, None);

    let mut connector = leaf(NodeKind::Connector, "c");
    set_node_fill(&mut connector, lit("#333333"));
    assert_eq!(connector.props.fill, None);
    set_node_stroke(&mut connector, lit("#444444"));
    assert_eq!(connector.props.stroke, s("#444444"));

    let mut footnote = leaf(NodeKind::Footnote, "n");
    set_node_visible(&mut footnote, false);
    assert_eq!(footnote.props.visible, None);
    let mut light = leaf(NodeKind::Light, "l");
    set_node_visible(&mut light, false);
    assert_eq!(light.props.visible, Some(false));
    set_node_fill(&mut light, lit("#555555"));
    assert_eq!(light.props.fill, None);
}

#[test]
fn mesh_takes_fill_as_stroke_and_explicit_stroke_wins() {
    let mut mesh = leaf(NodeKind::Mesh, "m");
    let mut ov = override_for("m");
    ov.fill = s("#aaaaaa");
    ov.stroke_width = s("3");
    apply_override_to_node(&mut mesh, &ov);
    assert_eq!(mesh.props.stroke, s("#aaaaaa"));
    assert_eq!(mesh.props.fill, None);
    assert_eq!(mesh.props.stroke_width, None);

    let mut mesh2 = leaf(NodeKind::Mesh, "m");
    ov.stroke = s("#bbbbbb");
    apply_override_to_node(&mut mesh2, &ov);
    assert_eq!(mesh2.props.stroke, s("#bbbbbb"));

    let mut line = leaf(NodeKind::Line, "ln");
    set_node_stroke_width(&mut line, lit("4"));
    assert_eq!(line.props.stroke_width, s("4"));
}

#[test]
fn svg_style_only_on_images_field_by_field() {
    let mut img = leaf(NodeKind::Image, "i");
    img.props.svg_stroke = s("#010101");
    let mut ov = override_for("i");
    ov.svg_fill = s("#020202");
    set_node_svg_style(&mut img, &ov);
    assert_eq!(img.props.svg_stroke, s("#010101"));
    assert_eq!(img.props.svg_fill, s("#020202"));
    assert_eq!(img.props.svg_stroke_width, None);
    let mut text = leaf(NodeKind::Text, "t");
    set_node_svg_style(&mut text, &ov);
    assert_eq!(text.props.svg_fill, None);
}

#[test]
fn imported_overrides_remap_host_color_tokens() {
    let host = TokenTable {
        entries: vec![
            TokenEntry { id: "color.brand".to_string(), value: ResolvedValue::Color("#ff6600".to_string()), shown: String::new() },
            TokenEntry { id: "size.m".to_string(), value: ResolvedValue::Other, shown: String::new() },
        ],
    };
    let mut ov = override_for("box");
    ov.fill = Some(PropValue::TokenRef("color.brand".to_string()));
    ov.stroke = Some(PropValue::TokenRef("size.m".to_string()));
    ov.svg_fill = Some(PropValue::TokenRef("color.unknown".to_string()));
    ov.stroke_width = Some(PropValue::TokenRef("color.brand".to_string()));
    ov.visible = Some(true);
    let r = remap_import_override(&ov, &host);
    assert_eq!(r.ref_id, "box");
    assert_eq!(r.fill, s("#ff6600"));
    assert_eq!(r.stroke, Some(PropValue::TokenRef("size.m".to_string())));
    assert_eq!(r.svg_fill, Some(PropValue::TokenRef("color.unknown".to_string())));
    // stroke-width is not a color and is never remapped.
    assert_eq!(r.stroke_width, Some(PropValue::TokenRef("color.brand".to_string())));
    assert_eq!(r.visible, Some(true));
}
