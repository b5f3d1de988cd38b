use zenith_scene::dispatch::{dispatch_node, Dispatch};
use zenith_scene::node_tree::NodeKind;

#[test]
fn guide_nodes_are_never_rendered() {
    assert!(matches!(dispatch_node(NodeKind::Rect, Some("guide"), None, ""), Dispatch::Skip));
    assert!(matches!(dispatch_node(NodeKind::Group, Some("guide"), Some(true), ""), Dispatch::Skip));
    assert!(matches!(dispatch_node(NodeKind::Unknown, Some("guide"), None, "widget"), Dispatch::Skip));
}

#[test]
fn hidden_and_footnote_nodes_are_skipped() {
    assert!(matches!(dispatch_node(NodeKind::Ellipse, None, Some(false), ""), Dispatch::Skip));
    assert!(matches!(dispatch_node(NodeKind::Frame, Some("content"), Some(false), ""), Dispatch::Skip));
    assert!(matches!(dispatch_node(NodeKind::Footnote, None, None, ""), Dispatch::Skip));
    assert!(matches!(dispatch_node(NodeKind::Rect, None, Some(true), ""), Dispatch::Compile));
    assert!(matches!(dispatch_node(NodeKind::Text, None, None, ""), Dispatch::Compile));
}

#[test]
fn unknown_node_gets_one_advisory() {
    match dispatch_node(NodeKind::Unknown, None, None, "hologram") {
        Dispatch::Unsupported(a) => {
            assert_eq!(a.code, "scene.unsupported_node");
            assert_eq!(
                a.message,
                "unknown node kind 'hologram' cannot be compiled; the node is skipped (forward-compatibility: this kind may be supported in a later version)"
            );
            assert_eq!(a.subject, None);
        }
        _ => panic!("expected an advisory"),
    }
}
