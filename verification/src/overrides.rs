//! Instance overrides: locating the node an override targets inside an
//! expanded component, and merging the override's payload onto it.

use vstd::prelude::*;

use crate::data_binding::PropValue;
use crate::property_resolve::{token_get, ResolvedValue, TokenEntry, TokenTable};
use crate::node_tree::{
    lemma_same_ids_all_refl, lemma_same_ids_all_trans, lemma_same_ids_refl, local_id,
    node_local_id, same_ids, same_ids_all, NodeKind, NodeProps, SceneNode,
};
use crate::text::str_eq;

verus! {

// ── Override target search ──────────────────────────────────────────────────

/// The override search descends into frames and groups only.
pub open spec fn override_walk_descends(k: NodeKind) -> bool {
    k == NodeKind::Frame || k == NodeKind::Group
}

/// The path (child index at each level) to the first node, in document order,
/// whose local id is `r`, searching `children` from position `i` on and
/// descending into frames and groups.
pub open spec fn find_from<D>(children: Seq<SceneNode<D>>, r: Seq<char>, i: int) -> Option<Seq<usize>>
    decreases children, children.len() - i,
{
    if i < 0 || i >= children.len() {
        None
    } else if local_id(children[i]) == Some(r) {
        Some(seq![i as usize])
    } else {
        let sub = if override_walk_descends(children[i].kind) {
            proof {
                assert(decreases_to!(children => children[i]));
                assert(decreases_to!(children[i] => children[i].children));
            }
            find_from(children[i].children@, r, 0)
        } else {
            None
        };
        match sub {
            Some(p) => Some(seq![i as usize] + p),
            None => find_from(children, r, i + 1),
        }
    }
}

/// The node at `path` below `children`.
pub open spec fn node_at<D>(children: Seq<SceneNode<D>>, path: Seq<usize>) -> Option<SceneNode<D>>
    decreases path.len(),
{
    if path.len() == 0 || path[0] >= children.len() {
        None
    } else if path.len() == 1 {
        Some(children[path[0] as int])
    } else {
        node_at(children[path[0] as int].children@, path.drop_first())
    }
}

/// Locate the node an override with reference `ref_id` applies to: the first
/// descendant of `children` in document order whose LOCAL id equals `ref_id`,
/// descending into `group`/`frame` containers. Returns the child index at each
/// level, or `None` when nothing matches (an unmatched reference is ignored).
#[verifier::loop_isolation(false)]
pub fn find_override_target<D>(children: &Vec<SceneNode<D>>, ref_id: &str) -> (r: Option<Vec<usize>>)
    ensures
        match r {
            Some(p) => find_from(children@, ref_id@, 0) == Some(p@),
            None => find_from(children@, ref_id@, 0) is None,
        },
        r matches Some(p) ==> (node_at(children@, p@) matches Some(nd) && local_id(nd) == Some(
            ref_id@,
        )),
    decreases children,
{
    proof {
        assert(children@.len() == children.len());
        lemma_find_from_leads_to_match(children@, ref_id@, 0);
    }
    let n = children.len();
    let mut i: usize = 0;
    while i < n
        invariant
            n == children@.len(),
            i <= n,
            find_from(children@, ref_id@, 0) == find_from(children@, ref_id@, i as int),
        decreases n - i,
    {
        let child = &children[i];
        let matched = match node_local_id(child) {
            Some(lid) => str_eq(lid, ref_id),
            None => false,
        };
        if matched {
            let mut p: Vec<usize> = Vec::new();
            p.push(i);
            proof {
                assert(p@ =~= seq![i]);
            }
            return Some(p);
        }
        let descends = match child.kind {
            NodeKind::Frame | NodeKind::Group => true,
            _ => false,
        };
        if descends {
            proof {
                vstd::std_specs::vec::axiom_vec_index_decreases(*children, i as int);
                assert(decreases_to!(*children => children@[i as int]));
            }
            let sub = find_override_target(&child.children, ref_id);
            match sub {
                Some(rest) => {
                    let mut p: Vec<usize> = Vec::new();
                    p.push(i);
                    let mut j: usize = 0;
                    while j < rest.len()
                        invariant
                            j <= rest@.len(),
                            p@ == seq![i] + rest@.take(j as int),
                        decreases rest@.len() - j,
                    {
                        p.push(rest[j]);
                        j = j + 1;
                        proof {
                            assert(p@ =~= seq![i] + rest@.take(j as int));
                        }
                    }
                    proof {
                        assert(rest@.take(rest@.len() as int) =~= rest@);
                    }
                    return Some(p);
                },
                None => {},
            }
        }
        i = i + 1;
    }
    None
}

/// The search finds a node with the requested id: the path leads to a node
/// whose local id is `r`.
pub proof fn lemma_find_from_leads_to_match<D>(children: Seq<SceneNode<D>>, r: Seq<char>, i: int)
    requires
        children.len() <= usize::MAX,
    ensures
        find_from(children, r, i) matches Some(p) ==> (p.len() >= 1 && (node_at(
            children,
            p,
        ) matches Some(nd) && local_id(nd) == Some(r))),
    decreases children, children.len() - i,
{
    if 0 <= i < children.len() && local_id(children[i]) != Some(r) {
        if override_walk_descends(children[i].kind) {
            assert(decreases_to!(children => children[i]));
            assert(decreases_to!(children[i] => children[i].children));
            assert(children[i].children@.len() == children[i].children.len());
            lemma_find_from_leads_to_match(children[i].children@, r, 0);
        }
        lemma_find_from_leads_to_match(children, r, i + 1);
        if let Some(p) = find_from(children, r, i) {
            if override_walk_descends(children[i].kind) && find_from(
                children[i].children@,
                r,
                0,
            ) is Some {
                let q = find_from(children[i].children@, r, 0).unwrap();
                assert(p == seq![i as usize] + q);
                assert(p.drop_first() =~= q);
                assert(p.len() >= 2);
                assert(p[0] == i as usize);
                assert(node_at(children, p) == node_at(children[i].children@, q));
            }
        }
    }
}


// ── Override payload targets ────────────────────────────────────────────────

/// Kinds that carry a `fill` property.
pub open spec fn has_fill(k: NodeKind) -> bool {
    match k {
        NodeKind::Rect | NodeKind::Ellipse | NodeKind::Text | NodeKind::Code | NodeKind::Polygon
        | NodeKind::Polyline | NodeKind::Path | NodeKind::Field | NodeKind::Toc
        | NodeKind::Footnote | NodeKind::Table | NodeKind::Shape | NodeKind::Pattern
        | NodeKind::Chart => true,
        _ => false,
    }
}

/// Kinds that carry a `stroke` property.
pub open spec fn has_stroke(k: NodeKind) -> bool {
    match k {
        NodeKind::Rect | NodeKind::Ellipse | NodeKind::Line | NodeKind::Polygon
        | NodeKind::Polyline | NodeKind::Path | NodeKind::Connector | NodeKind::Shape
        | NodeKind::Mesh => true,
        _ => false,
    }
}

/// Kinds that carry a `stroke-width` property.
pub open spec fn has_stroke_width(k: NodeKind) -> bool {
    match k {
        NodeKind::Rect | NodeKind::Ellipse | NodeKind::Line | NodeKind::Polygon
        | NodeKind::Polyline | NodeKind::Path | NodeKind::Connector | NodeKind::Shape => true,
        _ => false,
    }
}

// ── Override application ────────────────────────────────────────────────────

/// An instance override: the local id of the node it targets, and the
/// properties it replaces there (each carried through as authored).
pub struct Override<D> {
    pub ref_id: String,
    pub spans: Option<Vec<String>>,
    pub fill: Option<PropValue<D>>,
    pub stroke: Option<PropValue<D>>,
    pub stroke_width: Option<PropValue<D>>,
    pub svg_stroke: Option<PropValue<D>>,
    pub svg_fill: Option<PropValue<D>>,
    pub svg_stroke_width: Option<PropValue<D>>,
    pub visible: Option<bool>,
}

/// `v` replaces `old` when the node carries the property and the override
/// sets it.
pub open spec fn replaced<T>(carries: bool, v: Option<T>, old: Option<T>) -> Option<T> {
    if carries && v is Some {
        v
    } else {
        old
    }
}

/// `q` is `p` on a node of kind `k` after merging the override `ov`: spans
/// on text, fill/stroke/stroke-width on the kinds that carry them (a mesh
/// takes a fill as its stroke, and a stroke set alongside wins), SVG styling
/// on images, and `visible` on every kind but footnotes and unknown nodes.
pub open spec fn props_after<D>(k: NodeKind, p: NodeProps<D>, ov: Override<D>, q: NodeProps<D>) -> bool {
    &&& q.spans@ == (if k == NodeKind::Text && ov.spans is Some {
        ov.spans.unwrap()@
    } else {
        p.spans@
    })
    &&& q.fill == replaced(has_fill(k), ov.fill, p.fill)
    &&& q.stroke == replaced(
        has_stroke(k),
        ov.stroke,
        replaced(k == NodeKind::Mesh, ov.fill, p.stroke),
    )
    &&& q.stroke_width == replaced(has_stroke_width(k), ov.stroke_width, p.stroke_width)
    &&& q.svg_stroke == replaced(k == NodeKind::Image, ov.svg_stroke, p.svg_stroke)
    &&& q.svg_fill == replaced(k == NodeKind::Image, ov.svg_fill, p.svg_fill)
    &&& q.svg_stroke_width == replaced(
        k == NodeKind::Image,
        ov.svg_stroke_width,
        p.svg_stroke_width,
    )
    &&& q.visible == replaced(
        k != NodeKind::Footnote && k != NodeKind::Unknown,
        ov.visible,
        p.visible,
    )
}

/// `b` is `a` with at most its properties changed.
pub open spec fn same_but_props<D>(a: SceneNode<D>, b: SceneNode<D>) -> bool {
    &&& b.kind == a.kind
    &&& b.id == a.id
    &&& b.asset == a.asset
    &&& b.children@ == a.children@
}

/// `new` is `old` with the override merged onto the node at `path` and
/// nothing else changed: the nodes along the path keep everything but the
/// one child on the path, and the node at its end keeps everything but its
/// properties.
pub open spec fn applied_at<D>(
    old: Seq<SceneNode<D>>,
    new: Seq<SceneNode<D>>,
    path: Seq<usize>,
    ov: Override<D>,
) -> bool
    decreases path.len(),
{
    &&& path.len() >= 1
    &&& path[0] < old.len()
    &&& new.len() == old.len()
    &&& forall|j: int| 0 <= j < old.len() && j != path[0] ==> #[trigger] new[j] == old[j]
    &&& if path.len() == 1 {
        &&& same_but_props(old[path[0] as int], new[path[0] as int])
        &&& props_after(
            old[path[0] as int].kind,
            old[path[0] as int].props,
            ov,
            new[path[0] as int].props,
        )
    } else {
        &&& new[path[0] as int].kind == old[path[0] as int].kind
        &&& new[path[0] as int].id == old[path[0] as int].id
        &&& new[path[0] as int].asset == old[path[0] as int].asset
        &&& new[path[0] as int].props == old[path[0] as int].props
        &&& applied_at(
            old[path[0] as int].children@,
            new[path[0] as int].children@,
            path.drop_first(),
            ov,
        )
    }
}

fn copy_str(s: &String) -> (r: String)
    ensures
        r == *s,
{
    s.clone()
}

fn copy_value<D: Copy>(v: &PropValue<D>) -> (r: PropValue<D>)
    ensures
        r == *v,
{
    match v {
        PropValue::Literal(s) => PropValue::Literal(copy_str(s)),
        PropValue::TokenRef(s) => PropValue::TokenRef(copy_str(s)),
        PropValue::DataRef(s) => PropValue::DataRef(copy_str(s)),
        PropValue::Dimension(d) => PropValue::Dimension(*d),
    }
}

fn copy_opt<D: Copy>(o: &Option<PropValue<D>>) -> (r: Option<PropValue<D>>)
    ensures
        r == *o,
{
    match o {
        Some(v) => Some(copy_value(v)),
        None => None,
    }
}

fn copy_strs(v: &Vec<String>) -> (r: Vec<String>)
    ensures
        r@ == v@,
{
    let mut out: Vec<String> = Vec::new();
    let mut i: usize = 0;
    while i < v.len()
        invariant
            i <= v@.len(),
            out@ == v@.take(i as int),
        decreases v@.len() - i,
    {
        out.push(copy_str(&v[i]));
        i = i + 1;
        proof {
            assert(out@ =~= v@.take(i as int));
        }
    }
    proof {
        assert(v@.take(v@.len() as int) =~= v@);
    }
    out
}

/// Set the `fill` of a node kind that carries one; a mesh takes it as its
/// stroke; a no-op for other kinds.
pub fn set_node_fill<D>(node: &mut SceneNode<D>, fill: PropValue<D>)
    ensures
        same_but_props(*old(node), *final(node)),
        final(node).props.fill == (if has_fill(old(node).kind) {
            Some(fill)
        } else {
            old(node).props.fill
        }),
        final(node).props.stroke == (if old(node).kind == NodeKind::Mesh {
            Some(fill)
        } else {
            old(node).props.stroke
        }),
        final(node).props.spans == old(node).props.spans,
        final(node).props.stroke_width == old(node).props.stroke_width,
        final(node).props.svg_stroke == old(node).props.svg_stroke,
        final(node).props.svg_fill == old(node).props.svg_fill,
        final(node).props.svg_stroke_width == old(node).props.svg_stroke_width,
        final(node).props.visible == old(node).props.visible,
{
    match node.kind {
        NodeKind::Rect | NodeKind::Ellipse | NodeKind::Text | NodeKind::Code | NodeKind::Polygon
        | NodeKind::Polyline | NodeKind::Path | NodeKind::Field | NodeKind::Toc
        | NodeKind::Footnote | NodeKind::Table | NodeKind::Shape | NodeKind::Pattern
        | NodeKind::Chart => {
            node.props.fill = Some(fill);
        },
        NodeKind::Mesh => {
            node.props.stroke = Some(fill);
        },
        NodeKind::Light | NodeKind::Line | NodeKind::Frame | NodeKind::Group | NodeKind::Image
        | NodeKind::Instance | NodeKind::Connector | NodeKind::Unknown => {},
    }
}

/// Set the `stroke` of a node kind that carries one; a no-op for other kinds.
pub fn set_node_stroke<D>(node: &mut SceneNode<D>, stroke: PropValue<D>)
    ensures
        same_but_props(*old(node), *final(node)),
        final(node).props.stroke == (if has_stroke(old(node).kind) {
            Some(stroke)
        } else {
            old(node).props.stroke
        }),
        final(node).props.spans == old(node).props.spans,
        final(node).props.fill == old(node).props.fill,
        final(node).props.stroke_width == old(node).props.stroke_width,
        final(node).props.svg_stroke == old(node).props.svg_stroke,
        final(node).props.svg_fill == old(node).props.svg_fill,
        final(node).props.svg_stroke_width == old(node).props.svg_stroke_width,
        final(node).props.visible == old(node).props.visible,
{
    match node.kind {
        NodeKind::Rect | NodeKind::Ellipse | NodeKind::Line | NodeKind::Polygon
        | NodeKind::Polyline | NodeKind::Path | NodeKind::Connector | NodeKind::Shape
        | NodeKind::Mesh => {
            node.props.stroke = Some(stroke);
        },
        _ => {},
    }
}

/// Set the `stroke-width` of a node kind that carries one; a no-op for other
/// kinds (a mesh included).
pub fn set_node_stroke_width<D>(node: &mut SceneNode<D>, stroke_width: PropValue<D>)
    ensures
        same_but_props(*old(node), *final(node)),
        final(node).props.stroke_width == (if has_stroke_width(old(node).kind) {
            Some(stroke_width)
        } else {
            old(node).props.stroke_width
        }),
        final(node).props.spans == old(node).props.spans,
        final(node).props.fill == old(node).props.fill,
        final(node).props.stroke == old(node).props.stroke,
        final(node).props.svg_stroke == old(node).props.svg_stroke,
        final(node).props.svg_fill == old(node).props.svg_fill,
        final(node).props.svg_stroke_width == old(node).props.svg_stroke_width,
        final(node).props.visible == old(node).props.visible,
{
    match node.kind {
        NodeKind::Rect | NodeKind::Ellipse | NodeKind::Line | NodeKind::Polygon
        | NodeKind::Polyline | NodeKind::Path | NodeKind::Connector | NodeKind::Shape => {
            node.props.stroke_width = Some(stroke_width);
        },
        _ => {},
    }
}

/// Set the `visible` flag of every node kind that carries one (all but
/// footnotes and unknown nodes).
pub fn set_node_visible<D>(node: &mut SceneNode<D>, v: bool)
    ensures
        same_but_props(*old(node), *final(node)),
        final(node).props.visible == (if old(node).kind != NodeKind::Footnote && old(node).kind
            != NodeKind::Unknown {
            Some(v)
        } else {
            old(node).props.visible
        }),
        final(node).props.spans == old(node).props.spans,
        final(node).props.fill == old(node).props.fill,
        final(node).props.stroke == old(node).props.stroke,
        final(node).props.stroke_width == old(node).props.stroke_width,
        final(node).props.svg_stroke == old(node).props.svg_stroke,
        final(node).props.svg_fill == old(node).props.svg_fill,
        final(node).props.svg_stroke_width == old(node).props.svg_stroke_width,
{
    match node.kind {
        NodeKind::Footnote | NodeKind::Unknown => {},
        _ => {
            node.props.visible = Some(v);
        },
    }
}

/// Merge the override's SVG styling onto an image: each of `svg-stroke`,
/// `svg-fill`, and `svg-stroke-width` that the override sets replaces the
/// image's own. A no-op for other kinds.
pub fn set_node_svg_style<D: Copy>(node: &mut SceneNode<D>, ov: &Override<D>)
    ensures
        same_but_props(*old(node), *final(node)),
        final(node).props.svg_stroke == replaced(
            old(node).kind == NodeKind::Image,
            ov.svg_stroke,
            old(node).props.svg_stroke,
        ),
        final(node).props.svg_fill == replaced(
            old(node).kind == NodeKind::Image,
            ov.svg_fill,
            old(node).props.svg_fill,
        ),
        final(node).props.svg_stroke_width == replaced(
            old(node).kind == NodeKind::Image,
            ov.svg_stroke_width,
            old(node).props.svg_stroke_width,
        ),
        final(node).props.spans == old(node).props.spans,
        final(node).props.fill == old(node).props.fill,
        final(node).props.stroke == old(node).props.stroke,
        final(node).props.stroke_width == old(node).props.stroke_width,
        final(node).props.visible == old(node).props.visible,
{
    match node.kind {
        NodeKind::Image => {},
        _ => {
            return;
        },
    }
    if ov.svg_stroke.is_some() {
        node.props.svg_stroke = copy_opt(&ov.svg_stroke);
    }
    if ov.svg_fill.is_some() {
        node.props.svg_fill = copy_opt(&ov.svg_fill);
    }
    if ov.svg_stroke_width.is_some() {
        node.props.svg_stroke_width = copy_opt(&ov.svg_stroke_width);
    }
}

/// Merge an override's supported fields onto a single matched node, in the
/// order spans, fill, stroke, stroke-width, SVG styling, visibility. A field
/// the node's kind does not carry is a no-op for that node.
pub fn apply_override_to_node<D: Copy>(node: &mut SceneNode<D>, ov: &Override<D>)
    ensures
        same_but_props(*old(node), *final(node)),
        props_after(old(node).kind, old(node).props, *ov, final(node).props),
{
    match &ov.spans {
        Some(spans) => match node.kind {
            NodeKind::Text => {
                node.props.spans = copy_strs(spans);
            },
            _ => {},
        },
        None => {},
    }
    match &ov.fill {
        Some(fill) => set_node_fill(node, copy_value(fill)),
        None => {},
    }
    match &ov.stroke {
        Some(stroke) => set_node_stroke(node, copy_value(stroke)),
        None => {},
    }
    match &ov.stroke_width {
        Some(w) => set_node_stroke_width(node, copy_value(w)),
        None => {},
    }
    if ov.svg_stroke.is_some() || ov.svg_fill.is_some() || ov.svg_stroke_width.is_some() {
        set_node_svg_style(node, ov);
    }
    match ov.visible {
        Some(v) => set_node_visible(node, v),
        None => {},
    }
}

/// Merge `ov` onto the node that `path[k..]` leads to below `children`.
fn apply_along<D: Copy>(children: &mut Vec<SceneNode<D>>, path: &Vec<usize>, k: usize, ov: &Override<D>)
    requires
        k < path@.len(),
        node_at(old(children)@, path@.skip(k as int)) is Some,
    ensures
        applied_at(old(children)@, final(children)@, path@.skip(k as int), *ov),
    decreases path@.len() - k,
{
    let ghost entry = children@;
    let ghost p = path@.skip(k as int);
    let i = path[k];
    proof {
        assert(p[0] == i);
    }
    let mut node = children.remove(i);
    if k == path.len() - 1 {
        apply_override_to_node(&mut node, ov);
    } else {
        proof {
            assert(p.drop_first() =~= path@.skip(k + 1));
        }
        apply_along(&mut node.children, path, k + 1, ov);
    }
    children.insert(i, node);
    proof {
        if k + 1 < path@.len() {
            assert(p.drop_first() =~= path@.skip(k + 1));
        }
        assert forall|j: int| 0 <= j < entry.len() && j != i implies #[trigger] children@[j]
            == entry[j] by {}
    }
}

/// Apply `ov` to the first descendant of `children` in document order whose
/// LOCAL id equals `ov.ref_id`, descending into `group`/`frame` containers.
/// Returns whether a node matched; an unmatched reference leaves the tree
/// unchanged (the validator reports it elsewhere).
pub fn apply_override<D: Copy>(children: &mut Vec<SceneNode<D>>, ov: &Override<D>) -> (matched: bool)
    ensures
        matched == find_from(old(children)@, ov.ref_id@, 0) is Some,
        !matched ==> *final(children) == *old(children),
        find_from(old(children)@, ov.ref_id@, 0) matches Some(p) ==> applied_at(
            old(children)@,
            final(children)@,
            p,
            *ov,
        ),
{
    match find_override_target(children, ov.ref_id.as_str()) {
        None => false,
        Some(path) => {
            proof {
                assert(path@.skip(0) =~= path@);
            }
            apply_along(children, &path, 0, ov);
            true
        },
    }
}

/// `new` is `old` after one override: merged onto its target, or unchanged
/// when nothing matches.
pub open spec fn override_step<D>(old: Seq<SceneNode<D>>, new: Seq<SceneNode<D>>, ov: Override<D>) -> bool {
    match find_from(old, ov.ref_id@, 0) {
        Some(p) => applied_at(old, new, p, ov),
        None => new == old,
    }
}

/// `new` is `old` after the overrides `ovs`, applied one after another in
/// order.
pub open spec fn overrides_applied<D>(
    old: Seq<SceneNode<D>>,
    new: Seq<SceneNode<D>>,
    ovs: Seq<Override<D>>,
) -> bool
    decreases ovs.len(),
{
    if ovs.len() == 0 {
        new == old
    } else {
        exists|mid: Seq<SceneNode<D>>|
            overrides_applied(old, mid, ovs.drop_last()) && #[trigger] override_step(
                mid,
                new,
                ovs.last(),
            )
    }
}

/// Apply an instance's overrides to its (cloned) component subtree, in
/// authored order; each applies to the first node its reference finds at
/// that point.
pub fn apply_overrides<D: Copy>(children: &mut Vec<SceneNode<D>>, overrides: &Vec<Override<D>>)
    ensures
        overrides_applied(old(children)@, final(children)@, overrides@),
{
    let ghost start = children@;
    let mut k: usize = 0;
    proof {
        assert(overrides@.take(0) =~= Seq::<Override<D>>::empty());
    }
    while k < overrides.len()
        invariant
            k <= overrides@.len(),
            overrides_applied(start, children@, overrides@.take(k as int)),
        decreases overrides@.len() - k,
    {
        let ghost prev = children@;
        apply_override(children, &overrides[k]);
        proof {
            let t = overrides@.take(k + 1);
            assert(t.drop_last() =~= overrides@.take(k as int));
            assert(t.last() == overrides@[k as int]);
            assert(override_step(prev, children@, t.last()));
            assert(overrides_applied(start, prev, t.drop_last()));
        }
        k = k + 1;
    }
    proof {
        assert(overrides@.take(overrides@.len() as int) =~= overrides@);
    }
}

// ── Overrides of imported instances ─────────────────────────────────────────

/// `w` is the override value `v` with a reference to a host color token
/// replaced by that token's hex as a literal, so that it keeps its meaning
/// inside an imported subtree, which resolves tokens in the import's own
/// scope. Any other value is kept.
pub open spec fn remapped<D>(
    v: Option<PropValue<D>>,
    w: Option<PropValue<D>>,
    host: Seq<TokenEntry>,
) -> bool {
    match v {
        Some(PropValue::TokenRef(id)) => match token_get(host, id@) {
            Some(e) => match e.value {
                ResolvedValue::Color(hex) => w matches Some(PropValue::Literal(l)) && l@ == hex@,
                _ => w == v,
            },
            None => w == v,
        },
        _ => w == v,
    }
}

/// `r` is the override `ov` with its color values remapped against the host
/// tokens (`fill`, `stroke`, `svg-stroke`, `svg-fill`) and everything else
/// kept.
pub open spec fn override_remapped<D>(ov: Override<D>, r: Override<D>, host: Seq<TokenEntry>) -> bool {
    &&& r.ref_id == ov.ref_id
    &&& (match ov.spans {
        Some(sp) => r.spans matches Some(rs) && rs@ == sp@,
        None => r.spans is None,
    })
    &&& remapped(ov.fill, r.fill, host)
    &&& remapped(ov.stroke, r.stroke, host)
    &&& r.stroke_width == ov.stroke_width
    &&& remapped(ov.svg_stroke, r.svg_stroke, host)
    &&& remapped(ov.svg_fill, r.svg_fill, host)
    &&& r.svg_stroke_width == ov.svg_stroke_width
    &&& r.visible == ov.visible
}

/// Each override of `rs` is the matching one of `ovs`, remapped.
pub open spec fn overrides_remapped<D>(
    ovs: Seq<Override<D>>,
    rs: Seq<Override<D>>,
    host: Seq<TokenEntry>,
) -> bool {
    &&& rs.len() == ovs.len()
    &&& forall|i: int| 0 <= i < ovs.len() ==> override_remapped(#[trigger] ovs[i], rs[i], host)
}

/// Remap one override value against the host tokens (see `remapped`).
pub fn remap_color_override<D>(prop: &mut Option<PropValue<D>>, host: &TokenTable)
    ensures
        remapped(*old(prop), *final(prop), host.entries@),
{
    let hex = match prop {
        Some(PropValue::TokenRef(token_id)) => match host.get(token_id.as_str()) {
            Some(TokenEntry { value: ResolvedValue::Color(hex), .. }) => copy_str(hex),
            _ => {
                return;
            },
        },
        _ => {
            return;
        },
    };
    *prop = Some(PropValue::Literal(hex));
}

/// A copy of an imported instance's override with its color values remapped
/// against the host tokens (see `override_remapped`).
pub fn remap_import_override<D: Copy>(ov: &Override<D>, host: &TokenTable) -> (r: Override<D>)
    ensures
        override_remapped(*ov, r, host.entries@),
{
    let mut r = Override {
        ref_id: copy_str(&ov.ref_id),
        spans: match &ov.spans {
            Some(sp) => Some(copy_strs(sp)),
            None => None,
        },
        fill: copy_opt(&ov.fill),
        stroke: copy_opt(&ov.stroke),
        stroke_width: copy_opt(&ov.stroke_width),
        svg_stroke: copy_opt(&ov.svg_stroke),
        svg_fill: copy_opt(&ov.svg_fill),
        svg_stroke_width: copy_opt(&ov.svg_stroke_width),
        visible: ov.visible,
    };
    remap_color_override(&mut r.fill, host);
    remap_color_override(&mut r.stroke, host);
    remap_color_override(&mut r.svg_stroke, host);
    remap_color_override(&mut r.svg_fill, host);
    r
}

/// Remap every override of an imported instance, in order.
pub fn remap_import_overrides<D: Copy>(ovs: &Vec<Override<D>>, host: &TokenTable) -> (r: Vec<
    Override<D>,
>)
    ensures
        overrides_remapped(ovs@, r@, host.entries@),
{
    let mut out: Vec<Override<D>> = Vec::new();
    let mut i: usize = 0;
    while i < ovs.len()
        invariant
            i <= ovs@.len(),
            out@.len() == i,
            forall|j: int| 0 <= j < i ==> override_remapped(#[trigger] ovs@[j], out@[j], host.entries@),
        decreases ovs@.len() - i,
    {
        out.push(remap_import_override(&ovs[i], host));
        i = i + 1;
    }
    out
}

/// Applying an override moves and renames nothing: every reference finds the
/// same node in the tree before and after the override is merged.
pub proof fn law_override_keeps_targets<D>(
    old: Seq<SceneNode<D>>,
    new: Seq<SceneNode<D>>,
    path: Seq<usize>,
    ov: Override<D>,
    r: Seq<char>,
    i: int,
)
    requires
        applied_at(old, new, path, ov),
    ensures
        find_from(new, r, i) == find_from(old, r, i),
    decreases old, old.len() - i,
{
    if 0 <= i < old.len() {
        let p0 = path[0] as int;
        assert(local_id(new[i]) == local_id(old[i]));
        if local_id(old[i]) != Some(r) {
            if override_walk_descends(old[i].kind) {
                if i == p0 && path.len() > 1 {
                    assert(decreases_to!(old => old[i]));
                    assert(decreases_to!(old[i] => old[i].children));
                    law_override_keeps_targets(
                        old[i].children@,
                        new[i].children@,
                        path.drop_first(),
                        ov,
                        r,
                        0,
                    );
                }
                assert(find_from(new[i].children@, r, 0) == find_from(old[i].children@, r, 0));
            }
            law_override_keeps_targets(old, new, path, ov, r, i + 1);
        }
    }
}

/// Merging the same override twice is merging it once: the second merge
/// changes no property.
pub proof fn law_override_merge_idempotent<D>(
    k: NodeKind,
    p: NodeProps<D>,
    ov: Override<D>,
    q: NodeProps<D>,
    q2: NodeProps<D>,
)
    requires
        props_after(k, p, ov, q),
        props_after(k, q, ov, q2),
    ensures
        q2.spans@ == q.spans@,
        q2.fill == q.fill,
        q2.stroke == q.stroke,
        q2.stroke_width == q.stroke_width,
        q2.svg_stroke == q.svg_stroke,
        q2.svg_fill == q.svg_fill,
        q2.svg_stroke_width == q.svg_stroke_width,
        q2.visible == q.visible,
{
}

/// Merging an override keeps every kind and id of the tree.
pub proof fn lemma_applied_keeps_ids<D>(
    old: Seq<SceneNode<D>>,
    new: Seq<SceneNode<D>>,
    path: Seq<usize>,
    ov: Override<D>,
)
    requires
        applied_at(old, new, path, ov),
    ensures
        same_ids_all(old, new),
    decreases path.len(),
{
    let p0 = path[0] as int;
    assert forall|i: int| 0 <= i < old.len() implies same_ids(#[trigger] old[i], new[i]) by {
        if i != p0 {
            lemma_same_ids_refl(old[i]);
        } else if path.len() == 1 {
            lemma_same_ids_all_refl(old[i].children@);
        } else {
            lemma_applied_keeps_ids(old[i].children@, new[i].children@, path.drop_first(), ov);
        }
    }
}

/// Applying overrides, in any number, keeps every kind and id of the tree.
pub proof fn lemma_overrides_keep_ids<D>(
    old: Seq<SceneNode<D>>,
    new: Seq<SceneNode<D>>,
    ovs: Seq<Override<D>>,
)
    requires
        overrides_applied(old, new, ovs),
    ensures
        same_ids_all(old, new),
    decreases ovs.len(),
{
    if ovs.len() == 0 {
        lemma_same_ids_all_refl(old);
    } else {
        let mid = choose|mid: Seq<SceneNode<D>>|
            overrides_applied(old, mid, ovs.drop_last()) && #[trigger] override_step(
                mid,
                new,
                ovs.last(),
            );
        lemma_overrides_keep_ids(old, mid, ovs.drop_last());
        match find_from(mid, ovs.last().ref_id@, 0) {
            Some(p) => lemma_applied_keeps_ids(mid, new, p, ovs.last()),
            None => lemma_same_ids_all_refl(mid),
        }
        lemma_same_ids_all_trans(old, mid, new);
    }
}

/// The kinds that carry each property an override can set, as the document
/// model has them: a fill on rects, ellipses, text, code, polygons,
/// polylines, paths, fields, tables of contents, footnotes, tables, shapes,
/// patterns and charts; a stroke on rects, ellipses, lines, polygons,
/// polylines, paths, connectors, shapes and meshes; a stroke width on the
/// same kinds but meshes.
pub proof fn law_property_carrying_kinds(k: NodeKind)
    ensures
        has_fill(k) <==> (k == NodeKind::Rect || k == NodeKind::Ellipse || k == NodeKind::Text || k
            == NodeKind::Code || k == NodeKind::Polygon || k == NodeKind::Polyline || k
            == NodeKind::Path || k == NodeKind::Field || k == NodeKind::Toc || k
            == NodeKind::Footnote || k == NodeKind::Table || k == NodeKind::Shape || k
            == NodeKind::Pattern || k == NodeKind::Chart),
        has_stroke(k) <==> (k == NodeKind::Rect || k == NodeKind::Ellipse || k == NodeKind::Line || k
            == NodeKind::Polygon || k == NodeKind::Polyline || k == NodeKind::Path || k
            == NodeKind::Connector || k == NodeKind::Shape || k == NodeKind::Mesh),
        has_stroke_width(k) <==> (has_stroke(k) && k != NodeKind::Mesh),
{
}

/// What a merged override leaves on the node, field by field: a fill it
/// sets lands on every fill-carrying kind (as the stroke of a mesh, unless
/// the override sets a stroke too); a stroke or stroke width on the kinds
/// that carry them; spans on text; SVG styling on images; visibility on
/// every kind but footnotes and unknown nodes. A field the override does
/// not set, or the kind does not carry, keeps its value.
pub proof fn law_override_merge_fields<D>(k: NodeKind, p: NodeProps<D>, ov: Override<D>, q: NodeProps<D>)
    requires
        props_after(k, p, ov, q),
    ensures
        ov.fill is Some && k != NodeKind::Light && k != NodeKind::Line && k != NodeKind::Frame
            && k != NodeKind::Group && k != NodeKind::Image && k != NodeKind::Instance && k
            != NodeKind::Connector && k != NodeKind::Unknown && k != NodeKind::Mesh ==> q.fill
            == ov.fill,
        ov.fill is None ==> q.fill == p.fill,
        k == NodeKind::Mesh && ov.fill is Some && ov.stroke is None ==> q.stroke == ov.fill,
        ov.stroke is Some && (k == NodeKind::Rect || k == NodeKind::Ellipse || k == NodeKind::Line
            || k == NodeKind::Polygon || k == NodeKind::Polyline || k == NodeKind::Path || k
            == NodeKind::Connector || k == NodeKind::Shape || k == NodeKind::Mesh) ==> q.stroke
            == ov.stroke,
        ov.stroke is None && !(k == NodeKind::Mesh && ov.fill is Some) ==> q.stroke == p.stroke,
        ov.stroke_width is Some && (k == NodeKind::Rect || k == NodeKind::Ellipse || k
            == NodeKind::Line || k == NodeKind::Polygon || k == NodeKind::Polyline || k
            == NodeKind::Path || k == NodeKind::Connector || k == NodeKind::Shape) ==> q.stroke_width
            == ov.stroke_width,
        ov.stroke_width is None || k == NodeKind::Mesh || k == NodeKind::Text ==> q.stroke_width
            == p.stroke_width,
        ov.spans is Some && k == NodeKind::Text ==> q.spans@ == ov.spans.unwrap()@,
        ov.spans is None || k != NodeKind::Text ==> q.spans@ == p.spans@,
        k == NodeKind::Image && ov.svg_fill is Some ==> q.svg_fill == ov.svg_fill,
        k == NodeKind::Image && ov.svg_stroke is Some ==> q.svg_stroke == ov.svg_stroke,
        k == NodeKind::Image && ov.svg_stroke_width is Some ==> q.svg_stroke_width
            == ov.svg_stroke_width,
        k != NodeKind::Image ==> q.svg_fill == p.svg_fill && q.svg_stroke == p.svg_stroke
            && q.svg_stroke_width == p.svg_stroke_width,
        ov.visible is Some && k != NodeKind::Footnote && k != NodeKind::Unknown ==> q.visible
            == ov.visible,
        ov.visible is None || k == NodeKind::Footnote || k == NodeKind::Unknown ==> q.visible
            == p.visible,
{
}

/// The hex of the host color token `v` refers to, if it refers to one.
pub open spec fn host_color_hex<D>(host: Seq<TokenEntry>, v: Option<PropValue<D>>) -> Option<Seq<char>> {
    match v {
        Some(PropValue::TokenRef(id)) => match token_get(host, id@) {
            Some(e) => match e.value {
                ResolvedValue::Color(hex) => Some(hex@),
                _ => None,
            },
            None => None,
        },
        _ => None,
    }
}

/// The text of `w` if it is a literal.
pub open spec fn literal_text<D>(w: Option<PropValue<D>>) -> Option<Seq<char>> {
    match w {
        Some(PropValue::Literal(l)) => Some(l@),
        _ => None,
    }
}

/// Remapping an imported instance's override: each color-valued field
/// (fill, stroke, SVG stroke, SVG fill) that references a host color token
/// becomes that token's hex as a literal; a color field referencing
/// anything else, and every other field, is carried unchanged.
pub proof fn law_remap_color_fields<D>(ov: Override<D>, r: Override<D>, host: Seq<TokenEntry>)
    requires
        override_remapped(ov, r, host),
    ensures
        r.ref_id == ov.ref_id,
        r.stroke_width == ov.stroke_width,
        r.svg_stroke_width == ov.svg_stroke_width,
        r.visible == ov.visible,
        host_color_hex(host, ov.fill) is Some ==> literal_text(r.fill) == host_color_hex(host, ov.fill),
        host_color_hex(host, ov.fill) is None ==> r.fill == ov.fill,
        host_color_hex(host, ov.stroke) is Some ==> literal_text(r.stroke) == host_color_hex(
            host,
            ov.stroke,
        ),
        host_color_hex(host, ov.stroke) is None ==> r.stroke == ov.stroke,
        host_color_hex(host, ov.svg_stroke) is Some ==> literal_text(r.svg_stroke) == host_color_hex(
            host,
            ov.svg_stroke,
        ),
        host_color_hex(host, ov.svg_stroke) is None ==> r.svg_stroke == ov.svg_stroke,
        host_color_hex(host, ov.svg_fill) is Some ==> literal_text(r.svg_fill) == host_color_hex(
            host,
            ov.svg_fill,
        ),
        host_color_hex(host, ov.svg_fill) is None ==> r.svg_fill == ov.svg_fill,
{
}

} // verus!
