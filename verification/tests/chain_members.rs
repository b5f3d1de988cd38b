use zenith_scene::chain_members::{collect_chains, ChainNode};
use zenith_scene::node_tree::NodeKind;

fn text(id: &str, chain: Option<&str>, has_spans: bool, has_box: bool) -> ChainNode {
    ChainNode {
        kind: NodeKind::Text,
        id: id.to_string(),
        chain: chain.map(|c| c.to_string()),
        has_spans,
        has_box,
        children: Vec::new(),
    }
}

fn holder(kind: NodeKind, children: Vec<ChainNode>) -> ChainNode {
    ChainNode {
        kind,
        id: "holder".to_string(),
        chain: None,
        has_spans: false,
        has_box: false,
        children,
    }
}

fn pair(a: &str, b: &str) -> (String, String) {
    (a.to_string(), b.to_string())
}

#[test]
fn members_in_source_order_across_containers() {
    let nodes = vec![
        text("p1", Some("article"), true, true),
        holder(NodeKind::Group, vec![text("p2", Some("article"), false, true)]),
        holder(NodeKind::Table, vec![text("p3", Some("article"), true, true)]),
        holder(NodeKind::Shape, vec![text("ignored", Some("article"), true, true)]),
        text("solo", None, true, true),
    ];
    let c = collect_chains(&nodes);
    assert_eq!(c.members, vec![pair("article", "p1"), pair("article", "p2"), pair("article", "p3")]);
    // Only the FIRST span-bearing member is the content source.
    assert_eq!(c.sources, vec![pair("article", "p1")]);
}

#[test]
fn member_without_box_is_skipped_but_can_be_source() {
    let nodes = vec![
        text("a", Some("x"), false, true),
        text("b", Some("x"), true, false),
        holder(NodeKind::Frame, vec![text("c", Some("y"), true, true)]),
        text("d", Some("x"), true, true),
    ];
    let c = collect_chains(&nodes);
    assert_eq!(c.members, vec![pair("x", "a"), pair("y", "c"), pair("x", "d")]);
    assert_eq!(c.sources, vec![pair("x", "b"), pair("y", "c")]);
}

#[test]
fn no_chains_gives_empty_collection() {
    let nodes = vec![text("t", None, true, true), holder(NodeKind::Group, vec![])];
    let c = collect_chains(&nodes);
    assert!(c.members.is_empty());
    assert!(c.sources.is_empty());
}
