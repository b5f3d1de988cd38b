use zenith_scene::property_resolve::{
    resolve_color_source, resolve_family_name, resolve_parsed_color, ColorSource, ResolvedValue,
    TokenEntry, TokenTable,
};
use zenith_scene::data_binding::PropValue;
use zenith_scene::palette::Color;

fn entry(id: &str, value: ResolvedValue, shown: &str) -> TokenEntry {
    TokenEntry { id: id.to_string(), value, shown: shown.to_string() }
}

fn tokens() -> TokenTable {
    TokenTable {
        entries: vec![
            entry("color.ink", ResolvedValue::Color("#112233".to_string()), "Color(\"#112233\")"),
            entry("size.body", ResolvedValue::Other, "Dimension(16.0)"),
            entry("font.body", ResolvedValue::FontFamily("Inter".to_string()), "FontFamily(\"Inter\")"),
        ],
    }
}

#[test]
fn token_lookup_finds_resolved_values() {
    let t = tokens();
    assert!(matches!(t.get("color.ink").map(|e| &e.value), Some(ResolvedValue::Color(h)) if h == "#112233"));
    assert!(t.get("color.missing").is_none());
}

#[test]
fn color_token_yields_its_hex() {
    let p: PropValue<f64> = PropValue::TokenRef("color.ink".to_string());
    let src = resolve_color_source(&p, &tokens(), "rect1").unwrap();
    assert_eq!(src, Some(ColorSource::Token("color.ink".to_string(), "#112233".to_string())));
}

#[test]
fn literal_is_taken_as_is() {
    let p: PropValue<f64> = PropValue::Literal("#abcdef".to_string());
    let src = resolve_color_source(&p, &tokens(), "rect1").unwrap();
    assert_eq!(src, Some(ColorSource::Literal("#abcdef".to_string())));
}

#[test]
fn non_color_token_is_wrong_type() {
    let p: PropValue<f64> = PropValue::TokenRef("size.body".to_string());
    let a = resolve_color_source(&p, &tokens(), "rect1").unwrap_err();
    assert_eq!(a.code, "scene.wrong_token_type");
    assert_eq!(
        a.message,
        "node 'rect1' references token 'size.body' which resolved to a non-color value (Dimension(16.0)); skipped"
    );
    assert_eq!(a.subject.as_deref(), Some("rect1"));
}

#[test]
fn unknown_token_is_unresolved() {
    let p: PropValue<f64> = PropValue::TokenRef("color.nope".to_string());
    let a = resolve_color_source(&p, &tokens(), "t").unwrap_err();
    assert_eq!(a.code, "scene.unresolved_token");
    assert_eq!(
        a.message,
        "node 't' references token 'color.nope' which did not resolve (check token diagnostics); skipped"
    );
}

#[test]
fn dimension_in_color_slot_is_wrong_type() {
    let p: PropValue<f64> = PropValue::Dimension(4.0);
    let a = resolve_color_source(&p, &tokens(), "e").unwrap_err();
    assert_eq!(a.code, "scene.wrong_token_type");
    assert_eq!(a.message, "node 'e' has a dimension value where a color is expected; skipped");
}

#[test]
fn parsed_color_passes_through() {
    let src = ColorSource::Literal("#010203".to_string());
    let c = Color::srgb(1, 2, 3, 255);
    assert_eq!(resolve_parsed_color(&src, Some(c), "n"), Ok(c));
}

#[test]
fn unparsable_hex_is_invalid_color() {
    let tok = ColorSource::Token("color.bad".to_string(), "#zz".to_string());
    let a = resolve_parsed_color(&tok, None, "n1").unwrap_err();
    assert_eq!(a.code, "scene.invalid_color");
    assert_eq!(a.message, "token 'color.bad' resolved to '#zz' which is not a valid sRGB hex color; skipped");
    assert_eq!(a.subject.as_deref(), Some("n1"));
    let lit = ColorSource::Literal("red".to_string());
    let b = resolve_parsed_color(&lit, None, "n2").unwrap_err();
    assert_eq!(b.message, "node 'n2' has a fill literal 'red' that is not a valid sRGB hex color; skipped");
}

#[test]
fn family_token_as_color_is_wrong_type() {
    let p: PropValue<f64> = PropValue::TokenRef("font.body".to_string());
    let a = resolve_color_source(&p, &tokens(), "r").unwrap_err();
    assert_eq!(
        a.message,
        "node 'r' references token 'font.body' which resolved to a non-color value (FontFamily(\"Inter\")); skipped"
    );
}

#[test]
fn family_name_from_token_literal_or_default() {
    let t = tokens();
    let tok: PropValue<f64> = PropValue::TokenRef("font.body".to_string());
    assert_eq!(resolve_family_name(Some(&tok), &t, "Noto Sans"), "Inter");
    let lit: PropValue<f64> = PropValue::Literal("Fira Code".to_string());
    assert_eq!(resolve_family_name(Some(&lit), &t, "Noto Sans Mono"), "Fira Code");
    let wrong: PropValue<f64> = PropValue::TokenRef("color.ink".to_string());
    assert_eq!(resolve_family_name(Some(&wrong), &t, "Noto Sans"), "Noto Sans");
    let missing: PropValue<f64> = PropValue::TokenRef("font.nope".to_string());
    assert_eq!(resolve_family_name(Some(&missing), &t, "Noto Sans"), "Noto Sans");
    let dim: PropValue<f64> = PropValue::Dimension(12.0);
    assert_eq!(resolve_family_name(Some(&dim), &t, "Noto Sans"), "Noto Sans");
    assert_eq!(resolve_family_name::<f64>(None, &t, "Noto Sans"), "Noto Sans");
}

#[test]
fn unbound_data_ref_paints_nothing_and_adds_no_advisory() {
    let p: PropValue<f64> = PropValue::DataRef("missing.field".to_string());
    assert_eq!(resolve_color_source(&p, &tokens(), "r").unwrap(), None);
    assert_eq!(resolve_family_name(Some(&p), &tokens(), "Noto Sans"), "Noto Sans");
}

#[test]
fn later_token_with_same_id_wins() {
    let t = TokenTable {
        entries: vec![
            entry("color.ink", ResolvedValue::Color("#000000".to_string()), ""),
            entry("color.ink", ResolvedValue::Color("#ffffff".to_string()), ""),
        ],
    };
    assert!(matches!(t.get("color.ink").map(|e| &e.value), Some(ResolvedValue::Color(h)) if h == "#ffffff"));
}
