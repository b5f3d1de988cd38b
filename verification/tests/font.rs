use zenith_scene::data_binding::PropValue;
use zenith_scene::font::{
    eq_ignore_ascii_case, font_family_advisories, font_unresolved_diag, parse_u16,
    resolve_family_with_fallback, resolve_font_weight,
};
use zenith_scene::property_resolve::{ResolvedValue, TokenEntry, TokenTable};

fn weight_tokens() -> TokenTable {
    TokenTable {
        entries: vec![
            TokenEntry { id: "weight.bold".to_string(), value: ResolvedValue::FontWeight(700), shown: "FontWeight(700)".to_string() },
            TokenEntry { id: "font.body".to_string(), value: ResolvedValue::FontFamily("Inter".to_string()), shown: String::new() },
        ],
    }
}

#[test]
fn parse_u16_matches_std_parse() {
    let cases = [
        "", "0", "7", "700", "0700", "+700", "+", "-1", "-0", " 700", "700 ", "65535", "65536",
        "99999999999", "7a", "١٢", "+-1", "++1", "00000000000000000001",
    ];
    for c in cases {
        assert_eq!(parse_u16(c), c.parse::<u16>().ok(), "case {c:?}");
    }
}

#[test]
fn resolve_font_weight_precedence() {
    let t = weight_tokens();
    let tok = |id: &str| -> PropValue<f64> { PropValue::TokenRef(id.to_string()) };
    let lit = |v: &str| -> PropValue<f64> { PropValue::Literal(v.to_string()) };
    assert_eq!(resolve_font_weight::<f64>(None, &t, 400), 400);
    assert_eq!(resolve_font_weight(Some(&tok("weight.bold")), &t, 400), 700);
    assert_eq!(resolve_font_weight(Some(&tok("weight.missing")), &t, 400), 400);
    assert_eq!(resolve_font_weight(Some(&tok("font.body")), &t, 400), 400);
    assert_eq!(resolve_font_weight(Some(&lit("600")), &t, 400), 600);
    assert_eq!(resolve_font_weight(Some(&lit("bold")), &t, 400), 400);
    assert_eq!(resolve_font_weight(Some(&PropValue::Dimension(2.0)), &t, 300), 300);
    assert_eq!(resolve_font_weight(Some(&PropValue::<f64>::DataRef("w".to_string())), &t, 400), 400);
}

#[test]
fn eq_ignore_ascii_case_matches_std() {
    let pairs = [
        ("Noto Sans", "noto sans"),
        ("NOTO SANS", "Noto Sans"),
        ("Noto", "Noto Sans"),
        ("Émile", "émile"),
        ("abc", "abd"),
        ("", ""),
        ("[", "{"),
    ];
    for (a, b) in pairs {
        assert_eq!(eq_ignore_ascii_case(a, b), a.eq_ignore_ascii_case(b), "{a:?} vs {b:?}");
    }
}

#[test]
fn family_fallback() {
    assert_eq!(
        resolve_family_with_fallback("noto sans", "Noto Sans", false),
        ("noto sans".to_string(), false)
    );
    assert_eq!(
        resolve_family_with_fallback("Inter", "Noto Sans", true),
        ("Inter".to_string(), false)
    );
    assert_eq!(
        resolve_family_with_fallback("Inter", "Noto Sans", false),
        ("Noto Sans".to_string(), true)
    );
}

#[test]
fn font_advisories_in_order() {
    let none = font_family_advisories("t1", "Inter", "Noto Sans", false, false);
    assert!(none.is_empty());
    let both = font_family_advisories("t1", "Papyrus", "Noto Sans", true, true);
    assert_eq!(both.len(), 2);
    assert_eq!(both[0].code, "font.unresolved");
    assert_eq!(both[0].message, "text node 't1': font family 'Papyrus' not available, falling back to 'Noto Sans'");
    assert_eq!(both[1].code, "font.local");
    assert_eq!(
        both[1].message,
        "text node 't1': font family 'Papyrus' resolved from a local/system font; rendering is NOT guaranteed deterministic across machines \u{2014} bundle the font or guarantee the target OS provides it"
    );
    assert_eq!(both[1].subject.as_deref(), Some("t1"));
    let local = font_family_advisories("t2", "Helvetica", "Noto Sans", false, true);
    assert_eq!(local.len(), 1);
    assert_eq!(local[0].code, "font.local");
}

#[test]
fn code_node_fallback_message() {
    let a = font_unresolved_diag("code node", "c1", "Menlo", "Noto Sans Mono");
    assert_eq!(a.code, "font.unresolved");
    assert_eq!(a.message, "code node 'c1': font family 'Menlo' not available, falling back to 'Noto Sans Mono'");
    assert_eq!(a.subject.as_deref(), Some("c1"));
}
