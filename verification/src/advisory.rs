//! Advisory diagnostics raised while compiling a scene, and the page
//! selection step that raises the first of them.

use vstd::prelude::*;
use vstd::string::StringExecFns;

use crate::palette::{decimal_chars, decimal_string};

verus! {

/// A non-fatal diagnostic: a stable code, a human-readable message, and the
/// id of the node (or document body) it concerns.
#[derive(PartialEq, Eq, Debug)]
pub struct Advisory {
    pub code: String,
    pub message: String,
    pub subject: Option<String>,
}

pub(crate) fn concat(parts: &[&str]) -> (s: String)
    ensures
        s@ == concat_spec(parts@),
{
    let mut s = String::new();
    let mut i: usize = 0;
    while i < parts.len()
        invariant
            i <= parts@.len(),
            s@ == concat_spec(parts@.take(i as int)),
        decreases parts@.len() - i,
    {
        s.append(parts[i]);
        proof {
            assert(parts@.take(i + 1).drop_last() =~= parts@.take(i as int));
        }
        i = i + 1;
    }
    proof {
        assert(parts@.take(parts@.len() as int) =~= parts@);
    }
    s
}

/// The characters of `parts` joined with no separator.
pub open spec fn concat_spec(parts: Seq<&str>) -> Seq<char>
    decreases parts.len(),
{
    if parts.len() == 0 {
        Seq::empty()
    } else {
        concat_spec(parts.drop_last()) + parts.last()@
    }
}

/// `a` carries exactly this code, message, and subject.
pub open spec fn advisory_is(a: Advisory, code: Seq<char>, message: Seq<char>, subject: Seq<char>) -> bool {
    &&& a.code@ == code
    &&& a.message@ == message
    &&& a.subject is Some
    &&& a.subject.unwrap()@ == subject
}

/// The `scene.no_pages` message.
pub open spec fn no_pages_message() -> Seq<char> {
    "document has no pages; an empty scene is returned"@
}

/// The `scene.page_out_of_range` message for `index` and `count`.
pub open spec fn out_of_range_message(index: nat, count: nat) -> Seq<char> {
    "page index "@ + decimal_chars(index) + " is out of range; document has "@ + decimal_chars(
        count,
    ) + " page(s)"@
}

/// Select page `page_index` of a document with `page_count` pages.
///
/// Returns the index when it is in range. Otherwise the scene is empty and
/// the advisory says why: `scene.no_pages` when the document has no pages,
/// `scene.page_out_of_range` (naming the index and the page count) when it
/// has some. Both advisories concern the document body `body_id`.
pub fn select_page(page_count: usize, page_index: usize, body_id: &str) -> (r: Result<
    usize,
    Advisory,
>)
    ensures
        page_index < page_count ==> r == Ok::<usize, Advisory>(page_index),
        page_count == 0 ==> match r {
            Err(a) => advisory_is(a, "scene.no_pages"@, no_pages_message(), body_id@),
            Ok(_) => false,
        },
        0 < page_count <= page_index ==> match r {
            Err(a) => advisory_is(
                a,
                "scene.page_out_of_range"@,
                out_of_range_message(page_index as nat, page_count as nat),
                body_id@,
            ),
            Ok(_) => false,
        },
{
    if page_index < page_count {
        return Ok(page_index);
    }
    if page_count == 0 {
        return Err(
            Advisory {
                code: String::from_str("scene.no_pages"),
                message: String::from_str("document has no pages; an empty scene is returned"),
                subject: Some(String::from_str(body_id)),
            },
        );
    }
    let idx = decimal_string(page_index);
    let cnt = decimal_string(page_count);
    let parts = [
        "page index ",
        idx.as_str(),
        " is out of range; document has ",
        cnt.as_str(),
        " page(s)",
    ];
    let message = concat(&parts);
    proof {
        assert(parts@.take(0) =~= Seq::<&str>::empty());
        assert(parts@.drop_last().drop_last().drop_last().drop_last().drop_last() =~= Seq::<
            &str,
        >::empty());
        reveal_with_fuel(concat_spec, 9);
        assert(concat_spec(parts@) =~= out_of_range_message(page_index as nat, page_count as nat));
    }
    Err(
        Advisory {
            code: String::from_str("scene.page_out_of_range"),
            message,
            subject: Some(String::from_str(body_id)),
        },
    )
}

/// The `scene.unsupported_unit` message for a geometry field.
pub open spec fn unsupported_unit_message(
    kind: Seq<char>,
    node_id: Seq<char>,
    field: Seq<char>,
) -> Seq<char> {
    kind + " '"@ + node_id + "' field '"@ + field + "' uses an unsupported unit; the "@ + kind
        + " is skipped"@
}

/// Build a `scene.unsupported_unit` advisory for a named geometry field of
/// node `node_id` of human-readable kind `kind` (e.g. `"rect"`).
pub fn unsupported_unit_diag(kind: &str, node_id: &str, field: &str) -> (a: Advisory)
    ensures
        advisory_is(
            a,
            "scene.unsupported_unit"@,
            unsupported_unit_message(kind@, node_id@, field@),
            node_id@,
        ),
{
    let parts = [
        kind,
        " '",
        node_id,
        "' field '",
        field,
        "' uses an unsupported unit; the ",
        kind,
        " is skipped",
    ];
    let message = concat(&parts);
    proof {
        assert(parts@.drop_last().drop_last().drop_last().drop_last().drop_last().drop_last().drop_last().drop_last()
            =~= Seq::<&str>::empty());
        reveal_with_fuel(concat_spec, 9);
        assert(concat_spec(parts@) =~= unsupported_unit_message(kind@, node_id@, field@));
    }
    Advisory {
        code: String::from_str("scene.unsupported_unit"),
        message,
        subject: Some(String::from_str(node_id)),
    }
}

/// The `data.missing_field` message.
pub open spec fn missing_field_message(
    subject_id: Seq<char>,
    prop_name: Seq<char>,
    path: Seq<char>,
) -> Seq<char> {
    "node '"@ + subject_id + "': property '"@ + prop_name + "' references data field '"@ + path
        + "' which is not present in the data context (or is not a valid value for this property); left unresolved"@
}

/// Build the `data.missing_field` advisory for property `prop_name` of node
/// `subject_id` whose data reference `path` did not resolve.
pub fn missing_field_diag(subject_id: &str, prop_name: &str, path: &str) -> (a: Advisory)
    ensures
        advisory_is(
            a,
            "data.missing_field"@,
            missing_field_message(subject_id@, prop_name@, path@),
            subject_id@,
        ),
{
    let parts = [
        "node '",
        subject_id,
        "': property '",
        prop_name,
        "' references data field '",
        path,
        "' which is not present in the data context (or is not a valid value for this property); left unresolved",
    ];
    let message = concat(&parts);
    proof {
        assert(parts@.drop_last().drop_last().drop_last().drop_last().drop_last().drop_last().drop_last()
            =~= Seq::<&str>::empty());
        reveal_with_fuel(concat_spec, 9);
        assert(concat_spec(parts@) =~= missing_field_message(subject_id@, prop_name@, path@));
    }
    Advisory {
        code: String::from_str("data.missing_field"),
        message,
        subject: Some(String::from_str(subject_id)),
    }
}

} // verus!
