//! Instance expansion: finding the component an instance refers to, in the
//! document or in an imported document, and building the subtree it
//! contributes: a copy of the component's children with the instance's
//! overrides merged, imported asset references namespaced, and every id
//! prefixed with the instance id.

use vstd::prelude::*;
use vstd::string::StringExecFns;

use crate::advisory::{advisory_is, concat, concat_spec, Advisory};
use crate::data_binding::PropValue;
use crate::node_tree::{
    assets_prefixed_all, ids_prefixed, ids_prefixed_all, lemma_prefixed_ids,
    lemma_same_ids_then_prefixed, prefix_ids_in_children, prefix_imported_asset_refs,
    prefixed_all, NodeProps, SceneNode,
};
use crate::overrides::{
    apply_overrides, lemma_overrides_keep_ids, overrides_applied, overrides_remapped,
    remap_import_overrides, Override,
};
use crate::property_resolve::{TokenEntry, TokenTable};
use crate::text::str_eq;

verus! {

/// A component declaration: its id and the subtree an instance copies.
pub struct ComponentDef<D> {
    pub id: String,
    pub children: Vec<SceneNode<D>>,
}

/// An imported document, as far as instance expansion reads it.
pub struct ImportedDoc<D> {
    pub id: String,
    pub components: Vec<ComponentDef<D>>,
}

/// An instance's import source `import-id#target`, as parsed.
pub enum ImportSource {
    /// `import-id#component.component-id`.
    Component { import_id: String, component_id: String },
    /// `import-id#page.page-id`.
    Page { import_id: String, page_id: String },
    /// `import-id#target` with any other target.
    UnsupportedTarget { import_id: String, target: String },
    /// Not of the form `import-id#target`.
    Invalid,
}

/// An instance node, as far as expansion reads it.
pub struct InstanceSpec<D> {
    pub id: String,
    pub visible: Option<bool>,
    /// An import source; when present it wins over `component`.
    pub source: Option<String>,
    /// The id of a component declared in this document.
    pub component: Option<String>,
    pub overrides: Vec<Override<D>>,
}

/// What an instance contributes to the scene.
pub enum Expansion<D> {
    /// Nothing (hidden, or no component named).
    Skipped,
    /// The expanded subtree of a component of this document.
    Local(Vec<SceneNode<D>>),
    /// The expanded subtree of a component of import `import_id`.
    Imported { import_id: String, children: Vec<SceneNode<D>> },
}

/// The component with id `id`, as a map built from the declarations in
/// order sees it: a later declaration with the same id replaces an earlier
/// one.
pub open spec fn component_get<D>(cs: Seq<ComponentDef<D>>, id: Seq<char>) -> Option<ComponentDef<D>>
    decreases cs.len(),
{
    if cs.len() == 0 {
        None
    } else if cs.last().id@ == id {
        Some(cs.last())
    } else {
        component_get(cs.drop_last(), id)
    }
}

/// The imported document with id `id` (a later one with the same id
/// replaces an earlier one).
pub open spec fn import_get<D>(ds: Seq<ImportedDoc<D>>, id: Seq<char>) -> Option<ImportedDoc<D>>
    decreases ds.len(),
{
    if ds.len() == 0 {
        None
    } else if ds.last().id@ == id {
        Some(ds.last())
    } else {
        import_get(ds.drop_last(), id)
    }
}

/// Look up component `id`.
pub fn find_component<'a, D>(cs: &'a Vec<ComponentDef<D>>, id: &str) -> (r: Option<&'a ComponentDef<D>>)
    ensures
        match r {
            Some(c) => component_get(cs@, id@) == Some(*c),
            None => component_get(cs@, id@) is None,
        },
{
    let mut i: usize = cs.len();
    proof {
        assert(cs@.take(i as int) =~= cs@);
    }
    while i > 0
        invariant
            i <= cs@.len(),
            component_get(cs@, id@) == component_get(cs@.take(i as int), id@),
        decreases i,
    {
        proof {
            assert(cs@.take(i as int).drop_last() =~= cs@.take(i - 1));
            assert(cs@.take(i as int).last() == cs@[i - 1]);
        }
        if str_eq(cs[i - 1].id.as_str(), id) {
            return Some(&cs[i - 1]);
        }
        i = i - 1;
    }
    None
}

/// Look up imported document `id`.
pub fn find_import<'a, D>(ds: &'a Vec<ImportedDoc<D>>, id: &str) -> (r: Option<&'a ImportedDoc<D>>)
    ensures
        match r {
            Some(d) => import_get(ds@, id@) == Some(*d),
            None => import_get(ds@, id@) is None,
        },
{
    let mut i: usize = ds.len();
    proof {
        assert(ds@.take(i as int) =~= ds@);
    }
    while i > 0
        invariant
            i <= ds@.len(),
            import_get(ds@, id@) == import_get(ds@.take(i as int), id@),
        decreases i,
    {
        proof {
            assert(ds@.take(i as int).drop_last() =~= ds@.take(i - 1));
            assert(ds@.take(i as int).last() == ds@[i - 1]);
        }
        if str_eq(ds[i - 1].id.as_str(), id) {
            return Some(&ds[i - 1]);
        }
        i = i - 1;
    }
    None
}

// ── Copying a component subtree ─────────────────────────────────────────────

/// `b` is a copy of `a`: the same kinds, ids, assets, properties, and
/// nested nodes, throughout.
pub open spec fn same_tree<D>(a: SceneNode<D>, b: SceneNode<D>) -> bool
    decreases a,
{
    &&& b.kind == a.kind
    &&& b.id == a.id
    &&& b.asset == a.asset
    &&& b.props.spans@ == a.props.spans@
    &&& b.props.fill == a.props.fill
    &&& b.props.stroke == a.props.stroke
    &&& b.props.stroke_width == a.props.stroke_width
    &&& b.props.svg_stroke == a.props.svg_stroke
    &&& b.props.svg_fill == a.props.svg_fill
    &&& b.props.svg_stroke_width == a.props.svg_stroke_width
    &&& b.props.visible == a.props.visible
    &&& b.children@.len() == a.children@.len()
    &&& forall|i: int|
        0 <= i < a.children@.len() ==> same_tree(#[trigger] a.children@[i], b.children@[i])
}

/// `b` is a copy of the list `a`.
pub open spec fn same_trees<D>(a: Seq<SceneNode<D>>, b: Seq<SceneNode<D>>) -> bool {
    &&& b.len() == a.len()
    &&& forall|i: int| 0 <= i < a.len() ==> same_tree(#[trigger] a[i], b[i])
}

fn copy_value<D: Copy>(v: &PropValue<D>) -> (r: PropValue<D>)
    ensures
        r == *v,
{
    match v {
        PropValue::Literal(s) => PropValue::Literal(s.clone()),
        PropValue::TokenRef(s) => PropValue::TokenRef(s.clone()),
        PropValue::DataRef(s) => PropValue::DataRef(s.clone()),
        PropValue::Dimension(d) => PropValue::Dimension(*d),
    }
}

fn copy_opt<D: Copy>(o: &Option<PropValue<D>>) -> (r: Option<PropValue<D>>)
    ensures
        r == *o,
{
    match o {
        Some(v) => Some(copy_value(v)),
        None => None,
    }
}

fn copy_props<D: Copy>(p: &NodeProps<D>) -> (r: NodeProps<D>)
    ensures
        r.spans@ == p.spans@,
        r.fill == p.fill,
        r.stroke == p.stroke,
        r.stroke_width == p.stroke_width,
        r.svg_stroke == p.svg_stroke,
        r.svg_fill == p.svg_fill,
        r.svg_stroke_width == p.svg_stroke_width,
        r.visible == p.visible,
{
    let mut spans: Vec<String> = Vec::new();
    let mut i: usize = 0;
    while i < p.spans.len()
        invariant
            i <= p.spans@.len(),
            spans@ == p.spans@.take(i as int),
        decreases p.spans@.len() - i,
    {
        spans.push(p.spans[i].clone());
        i = i + 1;
        proof {
            assert(spans@ =~= p.spans@.take(i as int));
        }
    }
    proof {
        assert(p.spans@.take(p.spans@.len() as int) =~= p.spans@);
    }
    NodeProps {
        spans,
        fill: copy_opt(&p.fill),
        stroke: copy_opt(&p.stroke),
        stroke_width: copy_opt(&p.stroke_width),
        svg_stroke: copy_opt(&p.svg_stroke),
        svg_fill: copy_opt(&p.svg_fill),
        svg_stroke_width: copy_opt(&p.svg_stroke_width),
        visible: p.visible,
    }
}

fn copy_tree<D: Copy>(n: &SceneNode<D>) -> (r: SceneNode<D>)
    ensures
        same_tree(*n, r),
    decreases n,
{
    proof {
        assert(decreases_to!(*n => n.children));
    }
    SceneNode {
        kind: n.kind,
        id: n.id.clone(),
        asset: n.asset.clone(),
        props: copy_props(&n.props),
        children: copy_trees(&n.children),
    }
}

fn copy_trees<D: Copy>(ns: &Vec<SceneNode<D>>) -> (r: Vec<SceneNode<D>>)
    ensures
        same_trees(ns@, r@),
    decreases ns,
{
    let mut out: Vec<SceneNode<D>> = Vec::new();
    let mut i: usize = 0;
    while i < ns.len()
        invariant
            i <= ns@.len(),
            out@.len() == i,
            forall|j: int| 0 <= j < i ==> same_tree(#[trigger] ns@[j], out@[j]),
        decreases ns@.len() - i,
    {
        proof {
            vstd::std_specs::vec::axiom_vec_index_decreases(*ns, i as int);
        }
        out.push(copy_tree(&ns[i]));
        i = i + 1;
    }
    out
}

// ── Expansion ───────────────────────────────────────────────────────────────

/// `r` is the subtree `children` contributes to instance `instance_id`:
/// the overrides merged in order, then every id prefixed `instance_id/`.
pub open spec fn expanded<D>(
    children: Seq<SceneNode<D>>,
    overrides: Seq<Override<D>>,
    instance_id: Seq<char>,
    r: Seq<SceneNode<D>>,
) -> bool {
    exists|mid: Seq<SceneNode<D>>|
        #[trigger] overrides_applied(children, mid, overrides) && prefixed_all(
            mid,
            r,
            instance_id + "/"@,
        )
}

/// `r` is the subtree `children` of import `import_id` contributes to
/// instance `instance_id`: the overrides merged in order, image assets
/// namespaced `import_id/`, then every id prefixed `instance_id/`.
pub open spec fn expanded_imported<D>(
    children: Seq<SceneNode<D>>,
    overrides: Seq<Override<D>>,
    import_id: Seq<char>,
    instance_id: Seq<char>,
    r: Seq<SceneNode<D>>,
) -> bool {
    exists|mid: Seq<SceneNode<D>>, named: Seq<SceneNode<D>>|
        #[trigger] overrides_applied(children, mid, overrides) && #[trigger] assets_prefixed_all(
            mid,
            named,
            import_id,
        ) && prefixed_all(named, r, instance_id + "/"@)
}

/// Expand a copy of a component's children for instance `instance_id`:
/// merge the overrides in authored order, then prefix every id with
/// `instance_id/` so that two instances of one component never collide.
pub fn expand_component<D: Copy>(instance_id: &str, overrides: &Vec<Override<D>>, children: &Vec<SceneNode<D>>) -> (r:
    Vec<SceneNode<D>>)
    ensures
        exists|copy: Seq<SceneNode<D>>|
            #[trigger] same_trees(children@, copy) && expanded(copy, overrides@, instance_id@, r@),
{
    let mut out = copy_trees(children);
    let ghost copy = out@;
    apply_overrides(&mut out, overrides);
    let ghost mid = out@;
    let mut prefix = String::from_str(instance_id);
    prefix.append("/");
    proof {
        reveal_strlit("/");
    }
    prefix_ids_in_children(&mut out, prefix.as_str());
    proof {
        assert(overrides_applied(copy, mid, overrides@) && prefixed_all(mid, out@, instance_id@ + "/"@));
        assert(expanded(copy, overrides@, instance_id@, out@));
    }
    out
}

/// Expand a copy of the children of component `import_id`'s component for
/// instance `instance_id`: merge the overrides in authored order, namespace
/// image assets `import_id/`, then prefix every id with `instance_id/`.
pub fn expand_imported_component<D: Copy>(
    instance_id: &str,
    import_id: &str,
    overrides: &Vec<Override<D>>,
    children: &Vec<SceneNode<D>>,
) -> (r: Vec<SceneNode<D>>)
    ensures
        exists|copy: Seq<SceneNode<D>>|
            #[trigger] same_trees(children@, copy) && expanded_imported(
                copy,
                overrides@,
                import_id@,
                instance_id@,
                r@,
            ),
{
    let mut out = copy_trees(children);
    let ghost copy = out@;
    apply_overrides(&mut out, overrides);
    let ghost mid = out@;
    prefix_imported_asset_refs(&mut out, import_id);
    let ghost named = out@;
    let mut prefix = String::from_str(instance_id);
    prefix.append("/");
    proof {
        reveal_strlit("/");
    }
    prefix_ids_in_children(&mut out, prefix.as_str());
    proof {
        assert(overrides_applied(copy, mid, overrides@) && assets_prefixed_all(mid, named, import_id@)
            && prefixed_all(named, out@, instance_id@ + "/"@));
        assert(expanded_imported(copy, overrides@, import_id@, instance_id@, out@));
    }
    out
}

// ── Locating the component ──────────────────────────────────────────────────

/// The `scene.unknown_component` message.
pub open spec fn unknown_component_message(instance_id: Seq<char>, component_id: Seq<char>) -> Seq<
    char,
> {
    "instance '"@ + instance_id + "' references component '"@ + component_id
        + "' which is not declared; the instance is skipped"@
}

/// The `scene.unsupported_import_source` message (imports not enabled).
pub open spec fn unsupported_import_source_message(instance_id: Seq<char>, source: Seq<char>) -> Seq<
    char,
> {
    "instance '"@ + instance_id + "' references imported source '"@ + source
        + "' which is not yet expanded by scene compile; the instance is skipped"@
}

/// The `scene.unsupported_import_target` message for target `target` (for a
/// page target, `page.<page-id>`).
pub open spec fn unsupported_import_target_message(
    instance_id: Seq<char>,
    import_id: Seq<char>,
    target: Seq<char>,
) -> Seq<char> {
    "instance '"@ + instance_id + "' references unsupported import target '"@ + import_id + "#"@
        + target + "'; the instance is skipped"@
}

/// The `scene.invalid_import_source` message.
pub open spec fn invalid_import_source_message(instance_id: Seq<char>, source: Seq<char>) -> Seq<
    char,
> {
    "instance '"@ + instance_id + "' has malformed import source '"@ + source
        + "'; expected import-id#component.component-id and the instance is skipped"@
}

/// The `scene.unknown_import` message.
pub open spec fn unknown_import_message(instance_id: Seq<char>, import_id: Seq<char>) -> Seq<char> {
    "instance '"@ + instance_id + "' references import '"@ + import_id
        + "' which is not in the scene import graph; the instance is skipped"@
}

/// The `scene.unknown_import_component` message.
pub open spec fn unknown_import_component_message(
    instance_id: Seq<char>,
    component_id: Seq<char>,
    import_id: Seq<char>,
) -> Seq<char> {
    "instance '"@ + instance_id + "' references component '"@ + component_id + "' in import '"@
        + import_id + "' but it is not declared; the instance is skipped"@
}

fn instance_advisory(code: &str, parts: &[&str], instance_id: &str) -> (a: Advisory)
    ensures
        a.code@ == code@,
        a.message@ == concat_spec(parts@),
        a.subject is Some && a.subject.unwrap()@ == instance_id@,
{
    Advisory {
        code: String::from_str(code),
        message: concat(parts),
        subject: Some(String::from_str(instance_id)),
    }
}

/// What an instance of this document's component `component_id` gives.
pub open spec fn local_outcome<D>(
    inst: InstanceSpec<D>,
    components: Seq<ComponentDef<D>>,
    r: Result<Expansion<D>, Advisory>,
) -> bool {
    match inst.component {
        None => r matches Ok(Expansion::Skipped),
        Some(cid) => match component_get(components, cid@) {
            None => r matches Err(a) && advisory_is(
                a,
                "scene.unknown_component"@,
                unknown_component_message(inst.id@, cid@),
                inst.id@,
            ),
            Some(c) => r matches Ok(Expansion::Local(ch)) && exists|copy: Seq<SceneNode<D>>|
                #[trigger] same_trees(c.children@, copy) && expanded(
                    copy,
                    inst.overrides@,
                    inst.id@,
                    ch@,
                ),
        },
    }
}

/// What an instance with import source `source`, parsed as `parsed`, gives.
pub open spec fn imported_outcome<D>(
    inst: InstanceSpec<D>,
    source: Seq<char>,
    imports_enabled: bool,
    parsed: ImportSource,
    imports: Seq<ImportedDoc<D>>,
    host: Seq<TokenEntry>,
    r: Result<Expansion<D>, Advisory>,
) -> bool {
    if !imports_enabled {
        r matches Err(a) && advisory_is(
            a,
            "scene.unsupported_import_source"@,
            unsupported_import_source_message(inst.id@, source),
            inst.id@,
        )
    } else {
        match parsed {
            ImportSource::Page { import_id, page_id } => r matches Err(a) && advisory_is(
                a,
                "scene.unsupported_import_target"@,
                unsupported_import_target_message(inst.id@, import_id@, "page."@ + page_id@),
                inst.id@,
            ),
            ImportSource::UnsupportedTarget { import_id, target } => r matches Err(a)
                && advisory_is(
                a,
                "scene.unsupported_import_target"@,
                unsupported_import_target_message(inst.id@, import_id@, target@),
                inst.id@,
            ),
            ImportSource::Invalid => r matches Err(a) && advisory_is(
                a,
                "scene.invalid_import_source"@,
                invalid_import_source_message(inst.id@, source),
                inst.id@,
            ),
            ImportSource::Component { import_id, component_id } => match import_get(
                imports,
                import_id@,
            ) {
                None => r matches Err(a) && advisory_is(
                    a,
                    "scene.unknown_import"@,
                    unknown_import_message(inst.id@, import_id@),
                    inst.id@,
                ),
                Some(d) => match component_get(d.components@, component_id@) {
                    None => r matches Err(a) && advisory_is(
                        a,
                        "scene.unknown_import_component"@,
                        unknown_import_component_message(inst.id@, component_id@, import_id@),
                        inst.id@,
                    ),
                    Some(c) => r matches Ok(Expansion::Imported { import_id: iid, children: ch })
                        && iid@ == import_id@ && exists|rs: Seq<Override<D>>, copy: Seq<SceneNode<D>>|
                        #[trigger] overrides_remapped(inst.overrides@, rs, host)
                            && #[trigger] same_trees(c.children@, copy) && expanded_imported(
                            copy,
                            rs,
                            import_id@,
                            inst.id@,
                            ch@,
                        ),
                },
            },
        }
    }
}

/// Expand an instance node. A hidden instance contributes nothing. An
/// instance with an import source expands a component of an imported
/// document: `imports_enabled` says whether import expansion is on, `parsed`
/// is the source parsed as `import-id#target`, and the instance's overrides
/// have their host color tokens (`host_tokens`) remapped to literals first. Otherwise it expands
/// the component of this document it names (nothing when it names none).
/// Each way a component can fail to be found skips the instance with its
/// advisory.
pub fn expand_instance<D: Copy>(
    inst: &InstanceSpec<D>,
    components: &Vec<ComponentDef<D>>,
    imports_enabled: bool,
    parsed: &ImportSource,
    imports: &Vec<ImportedDoc<D>>,
    host_tokens: &TokenTable,
) -> (r: Result<Expansion<D>, Advisory>)
    ensures
        inst.visible == Some(false) ==> (r matches Ok(Expansion::Skipped)),
        inst.visible != Some(false) ==> match inst.source {
            Some(src) => imported_outcome(
                *inst,
                src@,
                imports_enabled,
                *parsed,
                imports@,
                host_tokens.entries@,
                r,
            ),
            None => local_outcome(*inst, components@, r),
        },
{
    match inst.visible {
        Some(false) => {
            return Ok(Expansion::Skipped);
        },
        _ => {},
    }
    match &inst.source {
        Some(source) => {
            if !imports_enabled {
                let parts = [
                    "instance '",
                    inst.id.as_str(),
                    "' references imported source '",
                    source.as_str(),
                    "' which is not yet expanded by scene compile; the instance is skipped",
                ];
                let a = instance_advisory("scene.unsupported_import_source", &parts, inst.id.as_str());
                proof {
                    reveal_with_fuel(concat_spec, 6);
                    assert(parts@.drop_last().drop_last().drop_last().drop_last().drop_last()
                        =~= Seq::<&str>::empty());
                    assert(concat_spec(parts@) =~= unsupported_import_source_message(
                        inst.id@,
                        source@,
                    ));
                }
                return Err(a);
            }
            match parsed {
                ImportSource::Page { import_id, page_id } => {
                    let parts = [
                        "instance '",
                        inst.id.as_str(),
                        "' references unsupported import target '",
                        import_id.as_str(),
                        "#page.",
                        page_id.as_str(),
                        "'; the instance is skipped",
                    ];
                    let a = instance_advisory(
                        "scene.unsupported_import_target",
                        &parts,
                        inst.id.as_str(),
                    );
                    proof {
                        reveal_strlit("#page.");
                        reveal_strlit("#");
                        reveal_strlit("page.");
                        reveal_with_fuel(concat_spec, 8);
                        assert(parts@.drop_last().drop_last().drop_last().drop_last().drop_last().drop_last().drop_last()
                            =~= Seq::<&str>::empty());
                        assert("#page."@ =~= "#"@ + "page."@);
                        assert(concat_spec(parts@) =~= unsupported_import_target_message(
                            inst.id@,
                            import_id@,
                            "page."@ + page_id@,
                        ));
                    }
                    Err(a)
                },
                ImportSource::UnsupportedTarget { import_id, target } => {
                    let parts = [
                        "instance '",
                        inst.id.as_str(),
                        "' references unsupported import target '",
                        import_id.as_str(),
                        "#",
                        target.as_str(),
                        "'; the instance is skipped",
                    ];
                    let a = instance_advisory(
                        "scene.unsupported_import_target",
                        &parts,
                        inst.id.as_str(),
                    );
                    proof {
                        reveal_with_fuel(concat_spec, 8);
                        assert(parts@.drop_last().drop_last().drop_last().drop_last().drop_last().drop_last().drop_last()
                            =~= Seq::<&str>::empty());
                        assert(concat_spec(parts@) =~= unsupported_import_target_message(
                            inst.id@,
                            import_id@,
                            target@,
                        ));
                    }
                    Err(a)
                },
                ImportSource::Invalid => {
                    let parts = [
                        "instance '",
                        inst.id.as_str(),
                        "' has malformed import source '",
                        source.as_str(),
                        "'; expected import-id#component.component-id and the instance is skipped",
                    ];
                    let a = instance_advisory(
                        "scene.invalid_import_source",
                        &parts,
                        inst.id.as_str(),
                    );
                    proof {
                        reveal_with_fuel(concat_spec, 6);
                        assert(parts@.drop_last().drop_last().drop_last().drop_last().drop_last()
                            =~= Seq::<&str>::empty());
                        assert(concat_spec(parts@) =~= invalid_import_source_message(
                            inst.id@,
                            source@,
                        ));
                    }
                    Err(a)
                },
                ImportSource::Component { import_id, component_id } => {
                    match find_import(imports, import_id.as_str()) {
                        None => {
                            let parts = [
                                "instance '",
                                inst.id.as_str(),
                                "' references import '",
                                import_id.as_str(),
                                "' which is not in the scene import graph; the instance is skipped",
                            ];
                            let a = instance_advisory(
                                "scene.unknown_import",
                                &parts,
                                inst.id.as_str(),
                            );
                            proof {
                                reveal_with_fuel(concat_spec, 6);
                                assert(parts@.drop_last().drop_last().drop_last().drop_last().drop_last()
                                    =~= Seq::<&str>::empty());
                                assert(concat_spec(parts@) =~= unknown_import_message(
                                    inst.id@,
                                    import_id@,
                                ));
                            }
                            Err(a)
                        },
                        Some(doc) => match find_component(&doc.components, component_id.as_str()) {
                            None => {
                                let parts = [
                                    "instance '",
                                    inst.id.as_str(),
                                    "' references component '",
                                    component_id.as_str(),
                                    "' in import '",
                                    import_id.as_str(),
                                    "' but it is not declared; the instance is skipped",
                                ];
                                let a = instance_advisory(
                                    "scene.unknown_import_component",
                                    &parts,
                                    inst.id.as_str(),
                                );
                                proof {
                                    reveal_with_fuel(concat_spec, 8);
                                    assert(parts@.drop_last().drop_last().drop_last().drop_last().drop_last().drop_last().drop_last()
                                        =~= Seq::<&str>::empty());
                                    assert(concat_spec(parts@) =~= unknown_import_component_message(
                                        inst.id@,
                                        component_id@,
                                        import_id@,
                                    ));
                                }
                                Err(a)
                            },
                            Some(c) => {
                                let remapped = remap_import_overrides(&inst.overrides, host_tokens);
                                let children = expand_imported_component(
                                    inst.id.as_str(),
                                    import_id.as_str(),
                                    &remapped,
                                    &c.children,
                                );
                                let ghost chv = children@;
                                let r: Result<Expansion<D>, Advisory> = Ok(
                                    Expansion::Imported {
                                        import_id: String::from_str(import_id.as_str()),
                                        children,
                                    },
                                );
                                proof {
                                    let dd = import_get(imports@, import_id@).unwrap();
                                    let cc = component_get(dd.components@, component_id@).unwrap();
                                    assert(cc == *c);
                                    assert(exists|rs: Seq<Override<D>>, copy: Seq<SceneNode<D>>|
                                        #[trigger] overrides_remapped(inst.overrides@, rs, host_tokens.entries@)
                                            && #[trigger] same_trees(cc.children@, copy) && expanded_imported(
                                            copy,
                                            rs,
                                            import_id@,
                                            inst.id@,
                                            chv,
                                        ));
                                }
                                r
                            },
                        },
                    }
                },
            }
        },
        None => match &inst.component {
            None => Ok(Expansion::Skipped),
            Some(cid) => match find_component(components, cid.as_str()) {
                None => {
                    let parts = [
                        "instance '",
                        inst.id.as_str(),
                        "' references component '",
                        cid.as_str(),
                        "' which is not declared; the instance is skipped",
                    ];
                    let a = instance_advisory("scene.unknown_component", &parts, inst.id.as_str());
                    proof {
                        reveal_with_fuel(concat_spec, 6);
                        assert(parts@.drop_last().drop_last().drop_last().drop_last().drop_last()
                            =~= Seq::<&str>::empty());
                        assert(concat_spec(parts@) =~= unknown_component_message(inst.id@, cid@));
                    }
                    Err(a)
                },
                Some(c) => {
                    let ch = expand_component(inst.id.as_str(), &inst.overrides, &c.children);
                    let ghost chv = ch@;
                    let r: Result<Expansion<D>, Advisory> = Ok(Expansion::Local(ch));
                    proof {
                        let cc = component_get(components@, cid@).unwrap();
                        assert(exists|copy: Seq<SceneNode<D>>|
                            #[trigger] same_trees(cc.children@, copy) && expanded(
                                copy,
                                inst.overrides@,
                                inst.id@,
                                chv,
                            ));
                    }
                    r
                },
            },
        },
    }
}

/// Stable ids: the ids an instance contributes are the ids of its
/// component's nodes prefixed `instance_id/`, whatever its overrides.
pub proof fn law_expansion_ids_are_prefixed_component_ids<D>(
    children: Seq<SceneNode<D>>,
    overrides: Seq<Override<D>>,
    instance_id: Seq<char>,
    r: Seq<SceneNode<D>>,
)
    requires
        expanded(children, overrides, instance_id, r),
    ensures
        ids_prefixed_all(children, r, instance_id + "/"@),
{
    let p = instance_id + "/"@;
    let mid = choose|mid: Seq<SceneNode<D>>|
        #[trigger] overrides_applied(children, mid, overrides) && prefixed_all(mid, r, p);
    lemma_overrides_keep_ids(children, mid, overrides);
    assert forall|i: int| 0 <= i < children.len() implies ids_prefixed(
        #[trigger] children[i],
        r[i],
        p,
    ) by {
        lemma_prefixed_ids(mid[i], r[i], p);
        lemma_same_ids_then_prefixed(children[i], mid[i], r[i], p);
    }
}

} // verus!
