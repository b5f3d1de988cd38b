//! The style cascade: a node property authored on the node wins; otherwise
//! the node's named style supplies it, if that style carries it.

use vstd::prelude::*;

use crate::data_binding::PropValue;
use crate::text::str_eq;

verus! {

/// A named style: property values by property name.
pub struct Style<D> {
    pub id: String,
    pub properties: Vec<(String, PropValue<D>)>,
}

/// The style with id `id` as the style map sees it: when several styles
/// share an id, the last one declared.
pub open spec fn style_get<D>(styles: Seq<Style<D>>, id: Seq<char>) -> Option<Style<D>>
    decreases styles.len(),
{
    if styles.len() == 0 {
        None
    } else if styles.last().id@ == id {
        Some(styles.last())
    } else {
        style_get(styles.drop_last(), id)
    }
}

/// The value a style carries for property `key`: the first entry with that
/// name.
pub open spec fn property_get<D>(props: Seq<(String, PropValue<D>)>, key: Seq<char>) -> Option<
    PropValue<D>,
>
    decreases props.len(),
{
    if props.len() == 0 {
        None
    } else if props[0].0@ == key {
        Some(props[0].1)
    } else {
        property_get(props.drop_first(), key)
    }
}

/// What the style cascade gives for property `key` of a node referring to
/// style `style_ref`: nothing without a reference, for an unknown style, or
/// when the style lacks the key.
pub open spec fn style_prop_spec<D>(
    style_ref: Option<&str>,
    styles: Seq<Style<D>>,
    key: Seq<char>,
) -> Option<PropValue<D>> {
    match style_ref {
        None => None,
        Some(sid) => match style_get(styles, sid@) {
            None => None,
            Some(st) => property_get(st.properties@, key),
        },
    }
}

fn find_style<'a, D>(styles: &'a Vec<Style<D>>, id: &str) -> (r: Option<&'a Style<D>>)
    ensures
        match r {
            Some(s) => style_get(styles@, id@) == Some(*s),
            None => style_get(styles@, id@) is None,
        },
{
    let mut i: usize = styles.len();
    proof {
        assert(styles@.take(i as int) =~= styles@);
    }
    while i > 0
        invariant
            i <= styles@.len(),
            style_get(styles@, id@) == style_get(styles@.take(i as int), id@),
        decreases i,
    {
        proof {
            assert(styles@.take(i as int).drop_last() =~= styles@.take(i - 1));
            assert(styles@.take(i as int).last() == styles@[i - 1]);
        }
        if str_eq(styles[i - 1].id.as_str(), id) {
            return Some(&styles[i - 1]);
        }
        i = i - 1;
    }
    None
}

fn find_property<'a, D>(props: &'a Vec<(String, PropValue<D>)>, key: &str) -> (r: Option<
    &'a PropValue<D>,
>)
    ensures
        match r {
            Some(v) => property_get(props@, key@) == Some(*v),
            None => property_get(props@, key@) is None,
        },
{
    let mut i: usize = 0;
    assert(props@.skip(0) =~= props@);
    while i < props.len()
        invariant
            i <= props@.len(),
            property_get(props@, key@) == property_get(props@.skip(i as int), key@),
        decreases props@.len() - i,
    {
        proof {
            assert(props@.skip(i as int).drop_first() =~= props@.skip(i + 1));
            assert(props@.skip(i as int)[0] == props@[i as int]);
        }
        if str_eq(props[i].0.as_str(), key) {
            return Some(&props[i].1);
        }
        i = i + 1;
    }
    proof {
        assert(props@.skip(i as int).len() == 0);
    }
    None
}

/// Look up a style property value by (style reference, styles, key).
pub fn style_prop<'a, D>(style_ref: Option<&str>, styles: &'a Vec<Style<D>>, key: &str) -> (r:
    Option<&'a PropValue<D>>)
    ensures
        match r {
            Some(v) => style_prop_spec(style_ref, styles@, key@) == Some(*v),
            None => style_prop_spec(style_ref, styles@, key@) is None,
        },
{
    match style_ref {
        None => None,
        Some(sid) => match find_style(styles, sid) {
            None => None,
            Some(st) => find_property(&st.properties, key),
        },
    }
}

/// The value a node uses for property `key`: its own when authored,
/// otherwise what its style supplies.
pub fn cascade<'a, D>(
    local: Option<&'a PropValue<D>>,
    style_ref: Option<&str>,
    styles: &'a Vec<Style<D>>,
    key: &str,
) -> (r: Option<&'a PropValue<D>>)
    ensures
        local is Some ==> r == local,
        local is None ==> match r {
            Some(v) => style_prop_spec(style_ref, styles@, key@) == Some(*v),
            None => style_prop_spec(style_ref, styles@, key@) is None,
        },
{
    match local {
        Some(v) => Some(v),
        None => style_prop(style_ref, styles, key),
    }
}

} // verus!
