use zenith_scene::advisory::{missing_field_diag, select_page, unsupported_unit_diag, Advisory};

#[test]
fn select_page_in_range() {
    assert_eq!(select_page(3, 0, "body"), Ok(0));
    assert_eq!(select_page(3, 2, "body"), Ok(2));
}

#[test]
fn select_page_no_pages() {
    assert_eq!(
        select_page(0, 0, "doc"),
        Err(Advisory {
            code: "scene.no_pages".to_string(),
            message: "document has no pages; an empty scene is returned".to_string(),
            subject: Some("doc".to_string()),
        })
    );
}

#[test]
fn select_page_out_of_range() {
    let a = select_page(2, 5, "doc").unwrap_err();
    assert_eq!(a.code, "scene.page_out_of_range");
    assert_eq!(a.message, format!("page index {} is out of range; document has {} page(s)", 5, 2));
    assert_eq!(a.subject.as_deref(), Some("doc"));
}

#[test]
fn unsupported_unit_message() {
    let a = unsupported_unit_diag("rect", "hero", "w");
    assert_eq!(a.code, "scene.unsupported_unit");
    assert_eq!(a.message, "rect 'hero' field 'w' uses an unsupported unit; the rect is skipped");
    assert_eq!(a.subject.as_deref(), Some("hero"));
}

#[test]
fn missing_field_message() {
    let a = missing_field_diag("card", "fill", "brand.color");
    assert_eq!(a.code, "data.missing_field");
    assert_eq!(
        a.message,
        "node 'card': property 'fill' references data field 'brand.color' which is not present \
         in the data context (or is not a valid value for this property); left unresolved"
    );
    assert_eq!(a.subject.as_deref(), Some("card"));
}
