//! The node dispatch gate: before a node is compiled, guide nodes and their
//! subtrees are dropped, hidden nodes are dropped, footnotes are left to the
//! page's footnote zone, and a node of an unknown kind is skipped with one
//! advisory.

use vstd::prelude::*;
use vstd::string::StringExecFns;

use crate::advisory::{concat, concat_spec, Advisory};
use crate::node_tree::NodeKind;
use crate::text::{opt_eq, opt_is};

verus! {

/// What the compiler does with a node.
pub enum Dispatch {
    /// Nothing is emitted for the node (or its subtree).
    Skip,
    /// The node is compiled by its kind's compiler.
    Compile,
    /// The node is skipped with this advisory.
    Unsupported(Advisory),
}

/// The kinds whose compiler drops a node marked `visible=false`, with its
/// subtree.
pub open spec fn hides_when_invisible(k: NodeKind) -> bool {
    match k {
        NodeKind::Rect | NodeKind::Ellipse | NodeKind::Line | NodeKind::Text | NodeKind::Code
        | NodeKind::Frame | NodeKind::Group | NodeKind::Image | NodeKind::Polygon
        | NodeKind::Polyline | NodeKind::Chart | NodeKind::Instance => true,
        _ => false,
    }
}

/// The `scene.unsupported_node` message for an unknown node of kind
/// `unknown_kind`.
pub open spec fn unsupported_node_message(unknown_kind: Seq<char>) -> Seq<char> {
    "unknown node kind '"@ + unknown_kind
        + "' cannot be compiled; the node is skipped (forward-compatibility: this kind may be supported in a later version)"@
}

/// Decide what the compiler does with a node of kind `kind`, authored role
/// `role` and visibility `visible`; `unknown_kind` is the kind name an
/// unknown node was written with. A `guide` role drops the node and its
/// subtree, whatever its kind; then an unknown node is skipped with
/// `scene.unsupported_node` (naming no node id); a footnote is skipped
/// (the page's footnote zone renders it); a hidden node of a kind that
/// honours `visible` is skipped; anything else is compiled.
pub fn dispatch_node(kind: NodeKind, role: Option<&str>, visible: Option<bool>, unknown_kind: &str) -> (r:
    Dispatch)
    ensures
        opt_is(role, "guide"@) ==> r is Skip,
        !opt_is(role, "guide"@) && kind == NodeKind::Unknown ==> (r matches Dispatch::Unsupported(a)
            && a.code@ == "scene.unsupported_node"@ && a.message@ == unsupported_node_message(
            unknown_kind@,
        ) && a.subject is None),
        !opt_is(role, "guide"@) && kind == NodeKind::Footnote ==> r is Skip,
        !opt_is(role, "guide"@) && hides_when_invisible(kind) && visible == Some(false) ==> r is Skip,
        !opt_is(role, "guide"@) && kind != NodeKind::Unknown && kind != NodeKind::Footnote && !(
        hides_when_invisible(kind) && visible == Some(false)) ==> r is Compile,
{
    if opt_eq(role, "guide") {
        return Dispatch::Skip;
    }
    match kind {
        NodeKind::Unknown => {
            let parts = [
                "unknown node kind '",
                unknown_kind,
                "' cannot be compiled; the node is skipped (forward-compatibility: this kind may be supported in a later version)",
            ];
            let message = concat(&parts);
            proof {
                reveal_with_fuel(concat_spec, 4);
                assert(parts@.drop_last().drop_last().drop_last() =~= Seq::<&str>::empty());
                assert(concat_spec(parts@) =~= unsupported_node_message(unknown_kind@));
            }
            Dispatch::Unsupported(
                Advisory {
                    code: String::from_str("scene.unsupported_node"),
                    message,
                    subject: None,
                },
            )
        },
        NodeKind::Footnote => Dispatch::Skip,
        NodeKind::Rect | NodeKind::Ellipse | NodeKind::Line | NodeKind::Text | NodeKind::Code
        | NodeKind::Frame | NodeKind::Group | NodeKind::Image | NodeKind::Polygon
        | NodeKind::Polyline | NodeKind::Chart | NodeKind::Instance => match visible {
            Some(false) => Dispatch::Skip,
            _ => Dispatch::Compile,
        },
        _ => Dispatch::Compile,
    }
}

/// The kinds whose compiler honours `visible=false` are exactly rects,
/// ellipses, lines, text, code, frames, groups, images, polygons,
/// polylines, charts and instances.
pub proof fn law_hidden_kinds(k: NodeKind)
    ensures
        hides_when_invisible(k) <==> (k == NodeKind::Rect || k == NodeKind::Ellipse || k
            == NodeKind::Line || k == NodeKind::Text || k == NodeKind::Code || k == NodeKind::Frame
            || k == NodeKind::Group || k == NodeKind::Image || k == NodeKind::Polygon || k
            == NodeKind::Polyline || k == NodeKind::Chart || k == NodeKind::Instance),
{
}

} // verus!
