use zenith_scene::node_tree::{
    instance_fit, node_local_id, prefix_ids_in_children, prefix_imported_asset_refs, FitMode,
    NodeKind, NodeProps, SceneNode,
};

fn no_props() -> NodeProps<f64> {
    NodeProps {
        spans: Vec::new(),
        fill: None,
        stroke: None,
        stroke_width: None,
        svg_stroke: None,
        svg_fill: None,
        svg_stroke_width: None,
        visible: None,
    }
}

fn leaf(kind: NodeKind, id: &str) -> SceneNode<f64> {
    SceneNode { kind, id: id.to_string(), asset: String::new(), props: no_props(), children: Vec::new() }
}

fn container(kind: NodeKind, id: &str, children: Vec<SceneNode<f64>>) -> SceneNode<f64> {
    SceneNode { kind, id: id.to_string(), asset: String::new(), props: no_props(), children }
}

fn image(id: &str, asset: &str) -> SceneNode<f64> {
    SceneNode {
        kind: NodeKind::Image,
        id: id.to_string(),
        asset: asset.to_string(),
        props: no_props(),
        children: Vec::new(),
    }
}

#[test]
fn prefix_ids_reaches_frames_groups_and_tables() {
    let mut kids = vec![
        leaf(NodeKind::Rect, "bg"),
        container(
            NodeKind::Group,
            "g",
            vec![leaf(NodeKind::Text, "title"), container(NodeKind::Frame, "f", vec![leaf(NodeKind::Rect, "r")])],
        ),
        container(NodeKind::Table, "t", vec![leaf(NodeKind::Text, "cell")]),
        container(NodeKind::Unknown, "?", vec![leaf(NodeKind::Rect, "hidden")]),
        container(NodeKind::Pattern, "p", vec![leaf(NodeKind::Rect, "motif")]),
    ];
    prefix_ids_in_children(&mut kids, "card/");
    assert_eq!(kids[0].id, "card/bg");
    assert_eq!(kids[1].id, "card/g");
    assert_eq!(kids[1].children[0].id, "card/title");
    assert_eq!(kids[1].children[1].id, "card/f");
    assert_eq!(kids[1].children[1].children[0].id, "card/r");
    assert_eq!(kids[2].id, "card/t");
    assert_eq!(kids[2].children[0].id, "card/cell");
    // Unknown nodes carry no id and are not descended into.
    assert_eq!(kids[3].id, "?");
    assert_eq!(kids[3].children[0].id, "hidden");
    // A pattern's motif is not part of the id walk.
    assert_eq!(kids[4].id, "card/p");
    assert_eq!(kids[4].children[0].id, "motif");
}

#[test]
fn imported_assets_prefixed_everywhere_reachable() {
    let mut kids = vec![
        image("logo", "logo.png"),
        container(NodeKind::Unknown, "", vec![image("a", "a.svg")]),
        container(NodeKind::Group, "g", vec![image("b", "b.png")]),
        container(NodeKind::Instance, "i", vec![image("c", "c.png")]),
    ];
    prefix_imported_asset_refs(&mut kids, "brand");
    assert_eq!(kids[0].asset, "brand/logo.png");
    assert_eq!(kids[0].id, "logo");
    assert_eq!(kids[1].children[0].asset, "brand/a.svg");
    assert_eq!(kids[2].children[0].asset, "brand/b.png");
    assert_eq!(kids[3].children[0].asset, "c.png");
}

#[test]
fn local_id_absent_for_unknown() {
    assert_eq!(node_local_id(&leaf(NodeKind::Rect, "r1")), Some("r1"));
    assert_eq!(node_local_id(&leaf(NodeKind::Unknown, "u")), None);
}

#[test]
fn instance_fit_modes() {
    assert_eq!(instance_fit("i", None), Ok(FitMode::Contain));
    assert_eq!(instance_fit("i", Some("contain")), Ok(FitMode::Contain));
    assert_eq!(instance_fit("i", Some("fill")), Ok(FitMode::Fill));
    assert_eq!(instance_fit("i", Some("none")), Ok(FitMode::Unscaled));
    let a = instance_fit("logo", Some("cover")).unwrap_err();
    assert_eq!(a.code, "scene.unsupported_import_target");
    assert_eq!(a.message, "instance 'logo' uses unsupported fit 'cover'; the instance is skipped");
    assert_eq!(a.subject.as_deref(), Some("logo"));
}
