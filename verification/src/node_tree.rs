//! The node tree as instance expansion sees it, and the passes that rewrite
//! it: instance id prefixing, imported asset prefixing, and the choice of
//! how an imported instance is fitted into its box.

use vstd::prelude::*;
use vstd::string::StringExecFns;

use crate::advisory::{advisory_is, concat, concat_spec, Advisory};
use crate::data_binding::PropValue;
use crate::text::{opt_eq, opt_is};

verus! {

/// Every node kind of a page tree.
#[derive(Clone, Copy, PartialEq, Eq, Structural, Debug)]
pub enum NodeKind {
    Rect,
    Ellipse,
    Line,
    Text,
    Code,
    Frame,
    Group,
    Image,
    Polygon,
    Polyline,
    Path,
    Instance,
    Field,
    Footnote,
    Toc,
    Table,
    Shape,
    Connector,
    Pattern,
    Chart,
    Light,
    Mesh,
    Unknown,
}

/// A node of the page tree, reduced to what the id passes read and write.
pub struct SceneNode<D> {
    /// The node kind.
    pub kind: NodeKind,
    /// The authored id (an `Unknown` node carries none; this field is then
    /// ignored).
    pub id: String,
    /// The asset reference of an `Image` node (empty for other kinds).
    pub asset: String,
    /// The properties an instance override can set.
    pub props: NodeProps<D>,
    /// Nested nodes: a frame's or group's children, a table's cell contents
    /// (row by row, cell by cell), a pattern's motif, or an unknown node's
    /// children.
    pub children: Vec<SceneNode<D>>,
}

/// The properties of a node that an instance override may replace. Each
/// value is the property as authored, carried through unchanged; a kind
/// that lacks a property leaves its slot unused.
pub struct NodeProps<D> {
    /// The text of each span of a text node.
    pub spans: Vec<String>,
    pub fill: Option<PropValue<D>>,
    pub stroke: Option<PropValue<D>>,
    pub stroke_width: Option<PropValue<D>>,
    /// The SVG styling of an image.
    pub svg_stroke: Option<PropValue<D>>,
    pub svg_fill: Option<PropValue<D>>,
    pub svg_stroke_width: Option<PropValue<D>>,
    pub visible: Option<bool>,
}

/// The id of a node, as authored: `None` for `Unknown`.
pub open spec fn local_id<D>(n: SceneNode<D>) -> Option<Seq<char>> {
    if n.kind == NodeKind::Unknown {
        None
    } else {
        Some(n.id@)
    }
}

/// The LOCAL id of a node (the id as authored), or `None` for `Unknown`.
pub fn node_local_id<D>(node: &SceneNode<D>) -> (r: Option<&str>)
    ensures
        match r {
            Some(s) => local_id(*node) == Some(s@),
            None => local_id(*node) is None,
        },
{
    match node.kind {
        NodeKind::Unknown => None,
        _ => Some(node.id.as_str()),
    }
}

// ── Id prefixing ────────────────────────────────────────────────────────────

/// The id walk descends into frames, groups, and table cells.
pub open spec fn id_walk_descends(k: NodeKind) -> bool {
    k == NodeKind::Frame || k == NodeKind::Group || k == NodeKind::Table
}

/// `new` is `old` with `p` prepended to every id the walk reaches: the node's
/// own id (unless it is `Unknown`), and recursively the nodes nested in a
/// frame, group, or table. Nothing else changes.
pub open spec fn prefixed<D>(old: SceneNode<D>, new: SceneNode<D>, p: Seq<char>) -> bool
    decreases old,
{
    &&& new.kind == old.kind
    &&& new.id@ == (if old.kind == NodeKind::Unknown {
        old.id@
    } else {
        p + old.id@
    })
    &&& new.asset == old.asset
    &&& new.props == old.props
    &&& if id_walk_descends(old.kind) {
        &&& new.children@.len() == old.children@.len()
        &&& forall|i: int|
            0 <= i < old.children@.len() ==> prefixed(
                #[trigger] old.children@[i],
                new.children@[i],
                p,
            )
    } else {
        new.children@ == old.children@
    }
}

/// Every node of `new` is the matching node of `old`, prefixed.
pub open spec fn prefixed_all<D>(old: Seq<SceneNode<D>>, new: Seq<SceneNode<D>>, p: Seq<char>) -> bool {
    &&& new.len() == old.len()
    &&& forall|i: int| 0 <= i < old.len() ==> prefixed(#[trigger] old[i], new[i], p)
}

fn prefix_node<D>(node: SceneNode<D>, prefix: &str) -> (r: SceneNode<D>)
    ensures
        prefixed(node, r, prefix@),
    decreases node,
{
    let ghost old = node;
    let SceneNode { kind, id, asset, props, children } = node;
    let new_id = match kind {
        NodeKind::Unknown => id,
        _ => {
            let mut s = String::from_str(prefix);
            s.append(id.as_str());
            s
        },
    };
    let new_children = match kind {
        NodeKind::Frame | NodeKind::Group | NodeKind::Table => {
            proof {
                assert(decreases_to!(old => old.children));
            }
            prefix_list(children, prefix)
        },
        _ => children,
    };
    SceneNode { kind, id: new_id, asset, props, children: new_children }
}

#[verifier::loop_isolation(false)]
fn prefix_list<D>(children: Vec<SceneNode<D>>, prefix: &str) -> (r: Vec<SceneNode<D>>)
    ensures
        prefixed_all(children@, r@, prefix@),
    decreases children,
{
    let ghost entry = children;
    let ghost old = children@;
    let mut rest = children;
    let mut out: Vec<SceneNode<D>> = Vec::new();
    let mut k: usize = 0;
    let n = rest.len();
    while k < n
        invariant
            entry@ == old,
            n == old.len(),
            k <= n,
            rest@ == old.subrange(k as int, n as int),
            out@.len() == k,
            forall|i: int| 0 <= i < k ==> prefixed(#[trigger] old[i], out@[i], prefix@),
        decreases n - k,
    {
        let child = rest.remove(0);
        proof {
            assert(child == old[k as int]);
            vstd::std_specs::vec::axiom_vec_index_decreases(entry, k as int);
            assert(decreases_to!(entry => child));
        }
        let c = prefix_node(child, prefix);
        out.push(c);
        k = k + 1;
        proof {
            assert(rest@ =~= old.subrange(k as int, n as int));
        }
    }
    out
}

/// Recursively prepend `prefix` to the id of every id-bearing node in
/// `children`, descending into `group`/`frame` containers and table cells
/// (and prefixing nested instance ids too), so that two instances of one
/// component never produce duplicate ids.
pub fn prefix_ids_in_children<D>(children: &mut Vec<SceneNode<D>>, prefix: &str)
    ensures
        prefixed_all(old(children)@, final(children)@, prefix@),
{
    let mut taken: Vec<SceneNode<D>> = Vec::new();
    std::mem::swap(children, &mut taken);
    let result = prefix_list(taken, prefix);
    *children = result;
}


/// Prefixed ids never collide: two instances `a` and `b` of components
/// (instance ids without `/`, prefixes `a/` and `b/`) give local ids `x` and
/// `y` the same prefixed id only when they are the same instance and the
/// same local id.
pub proof fn law_instance_ids_never_collide(a: Seq<char>, b: Seq<char>, x: Seq<char>, y: Seq<char>)
    requires
        !a.contains('/'),
        !b.contains('/'),
    ensures
        (a + "/"@ + x == b + "/"@ + y) ==> (a == b && x == y),
{
    reveal_strlit("/");
    let s = a + "/"@ + x;
    let t = b + "/"@ + y;
    if s == t {
        if a.len() < b.len() {
            assert(s[a.len() as int] == '/');
            assert(t[a.len() as int] == b[a.len() as int]);
            assert(b.contains('/'));
        } else if b.len() < a.len() {
            assert(t[b.len() as int] == '/');
            assert(s[b.len() as int] == a[b.len() as int]);
            assert(a.contains('/'));
        } else {
            assert(a =~= s.subrange(0, a.len() as int));
            assert(b =~= t.subrange(0, b.len() as int));
            assert(x =~= s.subrange((a.len() + 1) as int, s.len() as int));
            assert(y =~= t.subrange((b.len() + 1) as int, t.len() as int));
        }
    }
}

// ── Id structure ────────────────────────────────────────────────────────────

/// `b` has the kinds and ids of `a`, throughout.
pub open spec fn same_ids<D>(a: SceneNode<D>, b: SceneNode<D>) -> bool
    decreases a,
{
    &&& b.kind == a.kind
    &&& b.id == a.id
    &&& b.children@.len() == a.children@.len()
    &&& forall|i: int|
        0 <= i < a.children@.len() ==> same_ids(#[trigger] a.children@[i], b.children@[i])
}

/// Each node of `b` has the kinds and ids of the matching node of `a`.
pub open spec fn same_ids_all<D>(a: Seq<SceneNode<D>>, b: Seq<SceneNode<D>>) -> bool {
    &&& b.len() == a.len()
    &&& forall|i: int| 0 <= i < a.len() ==> same_ids(#[trigger] a[i], b[i])
}

/// `new` has the kinds of `old` and the ids of `old` with `p` prepended
/// wherever the id walk reaches, throughout.
pub open spec fn ids_prefixed<D>(old: SceneNode<D>, new: SceneNode<D>, p: Seq<char>) -> bool
    decreases old,
{
    &&& new.kind == old.kind
    &&& new.id@ == (if old.kind == NodeKind::Unknown {
        old.id@
    } else {
        p + old.id@
    })
    &&& if id_walk_descends(old.kind) {
        &&& new.children@.len() == old.children@.len()
        &&& forall|i: int|
            0 <= i < old.children@.len() ==> ids_prefixed(
                #[trigger] old.children@[i],
                new.children@[i],
                p,
            )
    } else {
        same_ids_all(old.children@, new.children@)
    }
}

/// Each node of `new` relates to the matching node of `old` by `ids_prefixed`.
pub open spec fn ids_prefixed_all<D>(old: Seq<SceneNode<D>>, new: Seq<SceneNode<D>>, p: Seq<char>) -> bool {
    &&& new.len() == old.len()
    &&& forall|i: int| 0 <= i < old.len() ==> ids_prefixed(#[trigger] old[i], new[i], p)
}

/// Every tree has its own kinds and ids.
pub proof fn lemma_same_ids_refl<D>(a: SceneNode<D>)
    ensures
        same_ids(a, a),
    decreases a,
{
    assert forall|i: int| 0 <= i < a.children@.len() implies same_ids(
        #[trigger] a.children@[i],
        a.children@[i],
    ) by {
        lemma_same_ids_refl(a.children@[i]);
    }
}

/// Every list of trees has its own kinds and ids.
pub proof fn lemma_same_ids_all_refl<D>(a: Seq<SceneNode<D>>)
    ensures
        same_ids_all(a, a),
{
    assert forall|i: int| 0 <= i < a.len() implies same_ids(#[trigger] a[i], a[i]) by {
        lemma_same_ids_refl(a[i]);
    }
}

/// Having the same kinds and ids is transitive.
pub proof fn lemma_same_ids_trans<D>(a: SceneNode<D>, b: SceneNode<D>, c: SceneNode<D>)
    requires
        same_ids(a, b),
        same_ids(b, c),
    ensures
        same_ids(a, c),
    decreases a,
{
    assert forall|i: int| 0 <= i < a.children@.len() implies same_ids(
        #[trigger] a.children@[i],
        c.children@[i],
    ) by {
        lemma_same_ids_trans(a.children@[i], b.children@[i], c.children@[i]);
    }
}

/// Having the same kinds and ids is transitive, list by list.
pub proof fn lemma_same_ids_all_trans<D>(a: Seq<SceneNode<D>>, b: Seq<SceneNode<D>>, c: Seq<SceneNode<D>>)
    requires
        same_ids_all(a, b),
        same_ids_all(b, c),
    ensures
        same_ids_all(a, c),
{
    assert forall|i: int| 0 <= i < a.len() implies same_ids(#[trigger] a[i], c[i]) by {
        lemma_same_ids_trans(a[i], b[i], c[i]);
    }
}

/// Prefixing relates the ids of the tree it rewrote to the ids it produced.
pub proof fn lemma_prefixed_ids<D>(old: SceneNode<D>, new: SceneNode<D>, p: Seq<char>)
    requires
        prefixed(old, new, p),
    ensures
        ids_prefixed(old, new, p),
    decreases old,
{
    if id_walk_descends(old.kind) {
        assert forall|i: int| 0 <= i < old.children@.len() implies ids_prefixed(
            #[trigger] old.children@[i],
            new.children@[i],
            p,
        ) by {
            lemma_prefixed_ids(old.children@[i], new.children@[i], p);
        }
    } else {
        lemma_same_ids_all_refl(old.children@);
    }
}

/// A tree with the kinds and ids of `a`, prefixed, is `a` prefixed.
pub proof fn lemma_same_ids_then_prefixed<D>(
    a: SceneNode<D>,
    m: SceneNode<D>,
    b: SceneNode<D>,
    p: Seq<char>,
)
    requires
        same_ids(a, m),
        ids_prefixed(m, b, p),
    ensures
        ids_prefixed(a, b, p),
    decreases a,
{
    if id_walk_descends(a.kind) {
        assert forall|i: int| 0 <= i < a.children@.len() implies ids_prefixed(
            #[trigger] a.children@[i],
            b.children@[i],
            p,
        ) by {
            lemma_same_ids_then_prefixed(a.children@[i], m.children@[i], b.children@[i], p);
        }
    } else {
        lemma_same_ids_all_trans(a.children@, m.children@, b.children@);
    }
}

// ── Imported asset prefixing ────────────────────────────────────────────────

/// The asset walk descends into frames, groups, table cells, and the children
/// of unknown nodes.
pub open spec fn asset_walk_descends(k: NodeKind) -> bool {
    k == NodeKind::Frame || k == NodeKind::Group || k == NodeKind::Table || k == NodeKind::Unknown
}

/// `new` is `old` with every reached image asset rewritten to
/// `<import_id>/<asset>`. Nothing else changes.
pub open spec fn assets_prefixed<D>(old: SceneNode<D>, new: SceneNode<D>, import_id: Seq<char>) -> bool
    decreases old,
{
    &&& new.kind == old.kind
    &&& new.id == old.id
    &&& new.props == old.props
    &&& new.asset@ == (if old.kind == NodeKind::Image {
        import_id + "/"@ + old.asset@
    } else {
        old.asset@
    })
    &&& if asset_walk_descends(old.kind) {
        &&& new.children@.len() == old.children@.len()
        &&& forall|i: int|
            0 <= i < old.children@.len() ==> assets_prefixed(
                #[trigger] old.children@[i],
                new.children@[i],
                import_id,
            )
    } else {
        new.children@ == old.children@
    }
}

/// Every node of `new` is the matching node of `old` with assets prefixed.
pub open spec fn assets_prefixed_all<D>(
    old: Seq<SceneNode<D>>,
    new: Seq<SceneNode<D>>,
    import_id: Seq<char>,
) -> bool {
    &&& new.len() == old.len()
    &&& forall|i: int| 0 <= i < old.len() ==> assets_prefixed(#[trigger] old[i], new[i], import_id)
}

fn asset_node<D>(node: SceneNode<D>, import_id: &str) -> (r: SceneNode<D>)
    ensures
        assets_prefixed(node, r, import_id@),
    decreases node,
{
    let ghost old = node;
    let SceneNode { kind, id, asset, props, children } = node;
    let new_asset = match kind {
        NodeKind::Image => {
            let mut s = String::from_str(import_id);
            proof {
                reveal_strlit("/");
            }
            s.append("/");
            s.append(asset.as_str());
            s
        },
        _ => asset,
    };
    let new_children = match kind {
        NodeKind::Frame | NodeKind::Group | NodeKind::Table | NodeKind::Unknown => {
            proof {
                assert(decreases_to!(old => old.children));
            }
            asset_list(children, import_id)
        },
        _ => children,
    };
    SceneNode { kind, id, asset: new_asset, props, children: new_children }
}

#[verifier::loop_isolation(false)]
fn asset_list<D>(children: Vec<SceneNode<D>>, import_id: &str) -> (r: Vec<SceneNode<D>>)
    ensures
        assets_prefixed_all(children@, r@, import_id@),
    decreases children,
{
    let ghost entry = children;
    let ghost old = children@;
    let mut rest = children;
    let mut out: Vec<SceneNode<D>> = Vec::new();
    let mut k: usize = 0;
    let n = rest.len();
    while k < n
        invariant
            entry@ == old,
            n == old.len(),
            k <= n,
            rest@ == old.subrange(k as int, n as int),
            out@.len() == k,
            forall|i: int| 0 <= i < k ==> assets_prefixed(#[trigger] old[i], out@[i], import_id@),
        decreases n - k,
    {
        let child = rest.remove(0);
        proof {
            assert(child == old[k as int]);
            vstd::std_specs::vec::axiom_vec_index_decreases(entry, k as int);
        }
        let c = asset_node(child, import_id);
        out.push(c);
        k = k + 1;
        proof {
            assert(rest@ =~= old.subrange(k as int, n as int));
        }
    }
    out
}

/// Rewrite every image asset reference in an imported subtree to
/// `<import_id>/<asset>`, descending into frames, groups, table cells, and
/// unknown nodes, so the import's assets resolve in their own namespace.
pub fn prefix_imported_asset_refs<D>(nodes: &mut Vec<SceneNode<D>>, import_id: &str)
    ensures
        assets_prefixed_all(old(nodes)@, final(nodes)@, import_id@),
{
    let mut taken: Vec<SceneNode<D>> = Vec::new();
    std::mem::swap(nodes, &mut taken);
    let result = asset_list(taken, import_id);
    *nodes = result;
}

// ── Imported instance fit ───────────────────────────────────────────────────

/// How an imported instance with a `w`/`h` box scales its subtree.
#[derive(Clone, Copy, PartialEq, Eq, Structural, Debug)]
pub enum FitMode {
    /// Uniform scale so the subtree fits inside the box, centered.
    Contain,
    /// Independent x/y scale so the subtree fills the box.
    Fill,
    /// No scaling; only the translation applies.
    Unscaled,
}

/// The message for an unsupported `fit` value.
pub open spec fn unsupported_fit_message(instance_id: Seq<char>, fit: Seq<char>) -> Seq<char> {
    "instance '"@ + instance_id + "' uses unsupported fit '"@ + fit
        + "'; the instance is skipped"@
}

/// Resolve an imported instance's `fit`: absent means `"contain"`;
/// `"contain"`, `"fill"`, and `"none"` select a mode; any other value is
/// reported as `scene.unsupported_import_target` and the instance is skipped.
pub fn instance_fit(instance_id: &str, fit: Option<&str>) -> (r: Result<FitMode, Advisory>)
    ensures
        fit is None ==> r == Ok::<FitMode, Advisory>(FitMode::Contain),
        opt_is(fit, "contain"@) ==> r == Ok::<FitMode, Advisory>(FitMode::Contain),
        opt_is(fit, "fill"@) ==> r == Ok::<FitMode, Advisory>(FitMode::Fill),
        opt_is(fit, "none"@) ==> r == Ok::<FitMode, Advisory>(FitMode::Unscaled),
        fit is Some && !opt_is(fit, "contain"@) && !opt_is(fit, "fill"@) && !opt_is(fit, "none"@)
            ==> match r {
            Err(a) => advisory_is(
                a,
                "scene.unsupported_import_target"@,
                unsupported_fit_message(instance_id@, fit.unwrap()@),
                instance_id@,
            ),
            Ok(_) => false,
        },
{
    proof {
        reveal_strlit("contain");
        reveal_strlit("fill");
        reveal_strlit("none");
        assert("contain"@[0] == 'c' && "fill"@[0] == 'f' && "none"@[0] == 'n');
        assert("contain"@ != "fill"@ && "contain"@ != "none"@ && "fill"@ != "none"@);
    }
    match fit {
        None => Ok(FitMode::Contain),
        Some(f) => {
            if opt_eq(fit, "contain") {
                Ok(FitMode::Contain)
            } else if opt_eq(fit, "fill") {
                Ok(FitMode::Fill)
            } else if opt_eq(fit, "none") {
                Ok(FitMode::Unscaled)
            } else {
                let parts = [
                    "instance '",
                    instance_id,
                    "' uses unsupported fit '",
                    f,
                    "'; the instance is skipped",
                ];
                let message = concat(&parts);
                proof {
                    reveal_with_fuel(concat_spec, 6);
                    assert(parts@.drop_last().drop_last().drop_last().drop_last().drop_last()
                        =~= Seq::<&str>::empty());
                    assert(concat_spec(parts@) =~= unsupported_fit_message(instance_id@, f@));
                }
                Err(
                    Advisory {
                        code: String::from_str("scene.unsupported_import_target"),
                        message,
                        subject: Some(String::from_str(instance_id)),
                    },
                )
            }
        },
    }
}

} // verus!
