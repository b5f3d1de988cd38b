use zenith_scene::instance::{
    expand_component, expand_imported_component, expand_instance, find_component, find_import,
    ComponentDef, Expansion, ImportSource, ImportedDoc, InstanceSpec,
};
use zenith_scene::data_binding::PropValue;
use zenith_scene::node_tree::{NodeKind, NodeProps, SceneNode};
use zenith_scene::property_resolve::{ResolvedValue, TokenEntry, TokenTable};
use zenith_scene::overrides::Override;

fn no_props() -> NodeProps<f64> {
    NodeProps {
        spans: Vec::new(),
        fill: None,
        stroke: None,
        stroke_width: None,
        svg_stroke: None,
        svg_fill: None,
        svg_stroke_width: None,
        visible: None,
    }
}

fn node(kind: NodeKind, id: &str, asset: &str, children: Vec<SceneNode<f64>>) -> SceneNode<f64> {
    SceneNode { kind, id: id.to_string(), asset: asset.to_string(), props: no_props(), children }
}

fn fill_override(ref_id: &str, fill: &str) -> Override<f64> {
    Override {
        ref_id: ref_id.to_string(),
        spans: None,
        fill: Some(PropValue::Literal(fill.to_string())),
        stroke: None,
        stroke_width: None,
        svg_stroke: None,
        svg_fill: None,
        svg_stroke_width: None,
        visible: None,
    }
}

fn card() -> ComponentDef<f64> {
    ComponentDef {
        id: "card".to_string(),
        children: vec![
            node(NodeKind::Rect, "bg", "", vec![]),
            node(NodeKind::Group, "g", "", vec![node(NodeKind::Image, "logo", "logo.png", vec![])]),
        ],
    }
}

fn instance(id: &str, component: Option<&str>, source: Option<&str>) -> InstanceSpec<f64> {
    InstanceSpec {
        id: id.to_string(),
        visible: None,
        source: source.map(|s| s.to_string()),
        component: component.map(|s| s.to_string()),
        overrides: vec![fill_override("bg", "#123456")],
    }
}

fn host() -> TokenTable {
    TokenTable {
        entries: vec![TokenEntry {
            id: "color.brand".to_string(),
            value: ResolvedValue::Color("#ff6600".to_string()),
            shown: String::new(),
        }],
    }
}

fn imports() -> Vec<ImportedDoc<f64>> {
    vec![ImportedDoc { id: "brand".to_string(), components: vec![card()] }]
}

#[test]
fn lookups_find_first_declaration() {
    let comps = vec![card()];
    assert!(find_component(&comps, "card").is_some());
    let redeclared = vec![card(), ComponentDef { id: "card".to_string(), children: vec![] }];
    assert!(find_component(&redeclared, "card").unwrap().children.is_empty());
    assert!(find_component(&comps, "nope").is_none());
    let imps = imports();
    assert_eq!(find_import(&imps, "brand").map(|d| d.id.as_str()), Some("brand"));
    assert!(find_import(&imps, "other").is_none());
}

#[test]
fn local_expansion_copies_overrides_and_prefixes() {
    let comp = card();
    let out = expand_component("c1", &vec![fill_override("bg", "#ff0000")], &comp.children);
    assert_eq!(out[0].id, "c1/bg");
    assert_eq!(out[0].props.fill, Some(PropValue::Literal("#ff0000".to_string())));
    assert_eq!(out[1].id, "c1/g");
    assert_eq!(out[1].children[0].id, "c1/logo");
    assert_eq!(out[1].children[0].asset, "logo.png");
    // The declaration itself is untouched.
    assert_eq!(comp.children[0].id, "bg");
    assert_eq!(comp.children[0].props.fill, None);
}

#[test]
fn imported_expansion_namespaces_assets() {
    let comp = card();
    let out = expand_imported_component("i1", "brand", &vec![], &comp.children);
    assert_eq!(out[1].children[0].asset, "brand/logo.png");
    assert_eq!(out[1].children[0].id, "i1/logo");
}

#[test]
fn expand_instance_local_paths() {
    let comps = vec![card()];
    let imps = imports();
    match expand_instance(&instance("c1", Some("card"), None), &comps, false, &ImportSource::Invalid, &imps, &host()) {
        Ok(Expansion::Local(ch)) => {
            assert_eq!(ch[0].id, "c1/bg");
            assert_eq!(ch[0].props.fill, Some(PropValue::Literal("#123456".to_string())));
        }
        _ => panic!("expected a local expansion"),
    }
    let mut hidden = instance("c2", Some("card"), None);
    hidden.visible = Some(false);
    assert!(matches!(expand_instance(&hidden, &comps, true, &ImportSource::Invalid, &imps, &host()), Ok(Expansion::Skipped)));
    assert!(matches!(expand_instance(&instance("c3", None, None), &comps, true, &ImportSource::Invalid, &imps, &host()), Ok(Expansion::Skipped)));
    let a = match expand_instance(&instance("c4", Some("ghost"), None), &comps, true, &ImportSource::Invalid, &imps, &host()) {
        Err(a) => a,
        _ => panic!("expected an advisory"),
    };
    assert_eq!(a.code, "scene.unknown_component");
    assert_eq!(a.message, "instance 'c4' references component 'ghost' which is not declared; the instance is skipped");
    assert_eq!(a.subject.as_deref(), Some("c4"));
}

fn err_of(r: Result<Expansion<f64>, zenith_scene::advisory::Advisory>) -> zenith_scene::advisory::Advisory {
    match r {
        Err(a) => a,
        Ok(_) => panic!("expected an advisory"),
    }
}

#[test]
fn expand_instance_import_paths() {
    let comps: Vec<ComponentDef<f64>> = vec![];
    let imps = imports();
    let inst = instance("i1", None, Some("brand#component.card"));
    let parsed = ImportSource::Component { import_id: "brand".to_string(), component_id: "card".to_string() };
    match expand_instance(&inst, &comps, true, &parsed, &imps, &host()) {
        Ok(Expansion::Imported { import_id, children }) => {
            assert_eq!(import_id, "brand");
            assert_eq!(children[0].id, "i1/bg");
            assert_eq!(children[1].children[0].asset, "brand/logo.png");
        }
        _ => panic!("expected an imported expansion"),
    }
    let off = err_of(expand_instance(&inst, &comps, false, &parsed, &imps, &host()));
    assert_eq!(off.code, "scene.unsupported_import_source");
    assert_eq!(off.message, "instance 'i1' references imported source 'brand#component.card' which is not yet expanded by scene compile; the instance is skipped");
    let page = ImportSource::Page { import_id: "brand".to_string(), page_id: "cover".to_string() };
    let p = err_of(expand_instance(&inst, &comps, true, &page, &imps, &host()));
    assert_eq!(p.code, "scene.unsupported_import_target");
    assert_eq!(p.message, "instance 'i1' references unsupported import target 'brand#page.cover'; the instance is skipped");
    let other = ImportSource::UnsupportedTarget { import_id: "brand".to_string(), target: "style.x".to_string() };
    let o = err_of(expand_instance(&inst, &comps, true, &other, &imps, &host()));
    assert_eq!(o.message, "instance 'i1' references unsupported import target 'brand#style.x'; the instance is skipped");
    let bad = instance("i2", None, Some("nohash"));
    let b = err_of(expand_instance(&bad, &comps, true, &ImportSource::Invalid, &imps, &host()));
    assert_eq!(b.code, "scene.invalid_import_source");
    assert_eq!(b.message, "instance 'i2' has malformed import source 'nohash'; expected import-id#component.component-id and the instance is skipped");
    let unknown = ImportSource::Component { import_id: "other".to_string(), component_id: "card".to_string() };
    let u = err_of(expand_instance(&inst, &comps, true, &unknown, &imps, &host()));
    assert_eq!(u.code, "scene.unknown_import");
    assert_eq!(u.message, "instance 'i1' references import 'other' which is not in the scene import graph; the instance is skipped");
    let missing = ImportSource::Component { import_id: "brand".to_string(), component_id: "badge".to_string() };
    let m = err_of(expand_instance(&inst, &comps, true, &missing, &imps, &host()));
    assert_eq!(m.code, "scene.unknown_import_component");
    assert_eq!(m.message, "instance 'i1' references component 'badge' in import 'brand' but it is not declared; the instance is skipped");
}

#[test]
fn imported_instance_overrides_use_host_colors() {
    let comps: Vec<ComponentDef<f64>> = vec![];
    let imps = imports();
    let mut inst = instance("i9", None, Some("brand#component.card"));
    inst.overrides[0].fill = Some(PropValue::TokenRef("color.brand".to_string()));
    let parsed = ImportSource::Component { import_id: "brand".to_string(), component_id: "card".to_string() };
    match expand_instance(&inst, &comps, true, &parsed, &imps, &host()) {
        Ok(Expansion::Imported { children, .. }) => {
            assert_eq!(children[0].props.fill, Some(PropValue::Literal("#ff6600".to_string())));
        }
        _ => panic!("expected an imported expansion"),
    }
    // A local instance keeps the token reference as authored.
    let local = vec![card()];
    let mut li = instance("l9", Some("card"), None);
    li.overrides[0].fill = Some(PropValue::TokenRef("color.brand".to_string()));
    match expand_instance(&li, &local, true, &ImportSource::Invalid, &imps, &host()) {
        Ok(Expansion::Local(ch)) => {
            assert_eq!(ch[0].props.fill, Some(PropValue::TokenRef("color.brand".to_string())));
        }
        _ => panic!("expected a local expansion"),
    }
}

#[test]
fn expansion_ids_do_not_depend_on_overrides() {
    let comp = card();
    let mut vis = fill_override("g", "#000000");
    vis.visible = Some(false);
    let with = expand_component("c7", &vec![fill_override("bg", "#ff0000"), vis], &comp.children);
    let without = expand_component("c7", &vec![], &comp.children);
    assert_eq!(with.len(), without.len());
    assert_eq!(with[0].id, without[0].id);
    assert_eq!(with[1].id, without[1].id);
    assert_eq!(with[1].children[0].id, without[1].children[0].id);
    assert_eq!(with[1].props.visible, Some(false));
    assert_eq!(without[1].props.visible, None);
}
