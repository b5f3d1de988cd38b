use zenith_scene::anchor::{
    anchor_entry, anchor_reference, sibling_topo_order, AnchorReference, ScopeChild, SiblingOutcome,
};

fn anchored(id: &str, sibling: Option<&str>) -> ScopeChild {
    ScopeChild {
        anchor_id: Some(id.to_string()),
        anchor_sibling: sibling.map(|s| s.to_string()),
    }
}

fn plain() -> ScopeChild {
    ScopeChild {
        anchor_id: None,
        anchor_sibling: None,
    }
}

#[test]
fn independent_nodes_sorted_by_id() {
    let scope = vec![anchored("c", None), anchored("a", None), anchored("b", None)];
    assert_eq!(sibling_topo_order(&scope), vec![1, 2, 0]);
}

#[test]
fn dependent_after_target() {
    // "a" depends on "z": z must come first even though "a" sorts first.
    let scope = vec![anchored("a", Some("z")), anchored("z", None)];
    assert_eq!(sibling_topo_order(&scope), vec![1, 0]);
}

#[test]
fn chain_of_dependencies() {
    // c -> b -> a (c depends on b, b depends on a).
    let scope = vec![
        anchored("c", Some("b")),
        anchored("b", Some("a")),
        anchored("a", None),
        anchored("d", None),
    ];
    // Ready: a, d. Emit a (smallest), then b becomes ready; b < d.
    assert_eq!(sibling_topo_order(&scope), vec![2, 1, 0, 3]);
}

#[test]
fn non_anchor_kinds_follow_in_source_order() {
    let scope = vec![plain(), anchored("b", None), plain(), anchored("a", None)];
    assert_eq!(sibling_topo_order(&scope), vec![3, 1, 0, 2]);
}

#[test]
fn cycle_members_appended_in_source_order() {
    let scope = vec![
        anchored("x", Some("y")),
        anchored("q", None),
        anchored("y", Some("x")),
    ];
    assert_eq!(sibling_topo_order(&scope), vec![1, 0, 2]);
}

#[test]
fn self_reference_and_unknown_target_are_no_dependency() {
    let scope = vec![anchored("b", Some("b")), anchored("a", Some("missing"))];
    assert_eq!(sibling_topo_order(&scope), vec![1, 0]);
}

#[test]
fn duplicate_id_later_node_wins_earlier_dropped() {
    // Two nodes share id "a": the later one is the one looked up; both carry
    // the emitted id, so the earlier duplicate is not appended again.
    let scope = vec![anchored("a", None), anchored("b", None), anchored("a", None)];
    assert_eq!(sibling_topo_order(&scope), vec![2, 1]);
}

#[test]
fn byte_order_ties_uppercase_before_lowercase_and_prefix_first() {
    let scope = vec![
        anchored("ab", None),
        anchored("a", None),
        anchored("B", None),
        anchored("é", None),
    ];
    // "B" (0x42) < "a" < "ab" < "é" (0xC3 0xA9).
    assert_eq!(sibling_topo_order(&scope), vec![2, 1, 0, 3]);
}

#[test]
fn empty_scope() {
    assert_eq!(sibling_topo_order(&[]), Vec::<usize>::new());
}

#[test]
fn anchor_reference_precedence() {
    assert_eq!(anchor_reference(Some("safe"), Some("s"), Some(true)), AnchorReference::Zone);
    assert_eq!(anchor_reference(None, Some("s"), Some(true)), AnchorReference::Sibling);
    assert_eq!(anchor_reference(None, None, Some(true)), AnchorReference::Parent);
    assert_eq!(anchor_reference(None, None, Some(false)), AnchorReference::Page);
    assert_eq!(anchor_reference(None, None, None), AnchorReference::Page);
}

fn sib(in_scope: bool, size_px: bool, x_px: bool, y_px: bool, has_entry: bool) -> SiblingOutcome {
    SiblingOutcome { in_scope, size_px, x_px, y_px, has_entry }
}

#[test]
fn anchor_entry_needs_anchor_size_and_a_resolved_reference() {
    let none = sib(false, false, false, false, false);
    assert_eq!(anchor_entry(true, true, None, None, None, false, none, false), Some(AnchorReference::Page));
    assert_eq!(anchor_entry(false, true, None, None, None, true, none, true), None);
    assert_eq!(anchor_entry(true, false, None, None, None, true, none, true), None);
    assert_eq!(anchor_entry(true, true, Some("z"), Some("s"), Some(true), true, none, false), Some(AnchorReference::Zone));
    assert_eq!(anchor_entry(true, true, Some("z"), None, None, false, none, true), None);
    assert_eq!(anchor_entry(true, true, None, Some("s"), None, false, sib(true, true, false, true, true), false), Some(AnchorReference::Sibling));
    assert_eq!(anchor_entry(true, true, None, Some("s"), None, false, sib(true, true, false, true, false), false), None);
    assert_eq!(anchor_entry(true, true, None, None, Some(true), false, none, true), Some(AnchorReference::Parent));
    assert_eq!(anchor_entry(true, true, None, None, Some(true), false, none, false), None);
}
