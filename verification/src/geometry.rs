//! The geometry gate every drawable node passes before it is compiled: its
//! required dimensions must all be authored, and each must convert to
//! pixels, else the node is skipped with an advisory saying why.

use vstd::prelude::*;
use vstd::string::StringExecFns;

use crate::advisory::{
    advisory_is, concat, concat_spec, unsupported_unit_diag, unsupported_unit_message, Advisory,
};
use crate::palette::{decimal_chars, decimal_string};

verus! {

/// How an authored geometry dimension stands.
#[derive(Clone, Copy, PartialEq, Eq, Structural, Debug)]
pub enum DimState {
    /// Not authored.
    Absent,
    /// Authored in a unit that does not convert to pixels.
    Unsupported,
    /// Authored and converted to pixels.
    Px,
}

/// Which geometry a node kind requires.
#[derive(Clone, Copy, PartialEq, Eq, Structural, Debug)]
pub enum GeometryShape {
    /// `x`, `y`, `w`, `h` (rects, ellipses, frames, images).
    Box,
    /// `x`, `y` (text and code nodes).
    Position,
    /// `x1`, `y1`, `x2`, `y2` (lines).
    Endpoints,
}

/// The required fields of a shape, in the order they are converted.
pub open spec fn field_names(shape: GeometryShape) -> Seq<Seq<char>> {
    match shape {
        GeometryShape::Box => seq!["x"@, "y"@, "w"@, "h"@],
        GeometryShape::Position => seq!["x"@, "y"@],
        GeometryShape::Endpoints => seq!["x1"@, "y1"@, "x2"@, "y2"@],
    }
}

/// The `scene.missing_geometry` message for a node of kind `kind`.
pub open spec fn missing_geometry_message(
    shape: GeometryShape,
    kind: Seq<char>,
    id: Seq<char>,
) -> Seq<char> {
    kind + " '"@ + id + match shape {
        GeometryShape::Box => "' is missing one or more geometry properties (x, y, w, h); skipped"@,
        GeometryShape::Position => "' is missing x or y geometry; skipped"@,
        GeometryShape::Endpoints => "' is missing one or more endpoint properties (x1, y1, x2, y2); skipped"@,
    }
}

/// No required dimension is missing.
pub open spec fn all_authored(dims: Seq<DimState>) -> bool {
    forall|i: int| 0 <= i < dims.len() ==> #[trigger] dims[i] != DimState::Absent
}

/// Every required dimension converted.
pub open spec fn all_px(dims: Seq<DimState>) -> bool {
    forall|i: int| 0 <= i < dims.len() ==> #[trigger] dims[i] == DimState::Px
}

/// Gate the geometry of node `id` of kind `kind` (as named in advisories,
/// e.g. `"rect"` or `"text node"`), whose required dimensions, in the order
/// of `field_names(shape)`, stand as `dims`.
///
/// A missing dimension skips the node with `scene.missing_geometry`; else the
/// first dimension, in order, whose unit does not convert skips it with
/// `scene.unsupported_unit` naming that field; else the node passes.
pub fn check_geometry(shape: GeometryShape, kind: &str, id: &str, dims: &[DimState]) -> (r: Result<
    (),
    Advisory,
>)
    requires
        dims@.len() == field_names(shape).len(),
    ensures
        all_px(dims@) ==> r is Ok,
        !all_authored(dims@) ==> (r matches Err(a) && advisory_is(
            a,
            "scene.missing_geometry"@,
            missing_geometry_message(shape, kind@, id@),
            id@,
        )),
        all_authored(dims@) && !all_px(dims@) ==> (r matches Err(a) && exists|i: int|
            0 <= i < dims@.len() && dims@[i] == DimState::Unsupported && (forall|j: int|
                0 <= j < i ==> #[trigger] dims@[j] == DimState::Px) && advisory_is(
                a,
                "scene.unsupported_unit"@,
                unsupported_unit_message(kind@, id@, field_names(shape)[i]),
                id@,
            )),
{
    proof {
        reveal_strlit("x");
        reveal_strlit("y");
        reveal_strlit("w");
        reveal_strlit("h");
        reveal_strlit("x1");
        reveal_strlit("y1");
        reveal_strlit("x2");
        reveal_strlit("y2");
    }
    let mut i: usize = 0;
    while i < dims.len()
        invariant
            i <= dims@.len(),
            forall|j: int| 0 <= j < i ==> #[trigger] dims@[j] != DimState::Absent,
        decreases dims@.len() - i,
    {
        if dims[i] == DimState::Absent {
            let tail = match shape {
                GeometryShape::Box => "' is missing one or more geometry properties (x, y, w, h); skipped",
                GeometryShape::Position => "' is missing x or y geometry; skipped",
                GeometryShape::Endpoints => "' is missing one or more endpoint properties (x1, y1, x2, y2); skipped",
            };
            let parts = [kind, " '", id, tail];
            let message = concat(&parts);
            proof {
                reveal_with_fuel(concat_spec, 5);
                assert(parts@.drop_last().drop_last().drop_last().drop_last() =~= Seq::<
                    &str,
                >::empty());
                assert(concat_spec(parts@) =~= missing_geometry_message(shape, kind@, id@));
            }
            return Err(
                Advisory {
                    code: String::from_str("scene.missing_geometry"),
                    message,
                    subject: Some(String::from_str(id)),
                },
            );
        }
        i = i + 1;
    }
    let mut k: usize = 0;
    while k < dims.len()
        invariant
            k <= dims@.len(),
            dims@.len() == field_names(shape).len(),
            all_authored(dims@),
            forall|j: int| 0 <= j < k ==> #[trigger] dims@[j] == DimState::Px,
        decreases dims@.len() - k,
    {
        if dims[k] == DimState::Unsupported {
            let field = match shape {
                GeometryShape::Box => if k == 0 {
                    "x"
                } else if k == 1 {
                    "y"
                } else if k == 2 {
                    "w"
                } else {
                    "h"
                },
                GeometryShape::Position => if k == 0 {
                    "x"
                } else {
                    "y"
                },
                GeometryShape::Endpoints => if k == 0 {
                    "x1"
                } else if k == 1 {
                    "y1"
                } else if k == 2 {
                    "x2"
                } else {
                    "y2"
                },
            };
            proof {
                assert(field@ == field_names(shape)[k as int]);
            }
            return Err(unsupported_unit_diag(kind, id, field));
        }
        k = k + 1;
    }
    Ok(())
}

/// A point whose two coordinates both converted.
pub open spec fn point_ok(p: (DimState, DimState)) -> bool {
    p.0 == DimState::Px && p.1 == DimState::Px
}

/// The `scene.missing_geometry` message for point `idx` of a polygon or
/// polyline.
pub open spec fn missing_point_message(kind: Seq<char>, id: Seq<char>, idx: nat) -> Seq<char> {
    kind + " '"@ + id + "' point["@ + decimal_chars(idx) + "] is missing x or y coordinate; skipped"@
}

/// `a` is the advisory for the faulty point `p` at index `idx`: a missing
/// coordinate first, then an unconvertible `x`, then an unconvertible `y`.
pub open spec fn point_fault_advisory(
    a: Advisory,
    kind: Seq<char>,
    id: Seq<char>,
    idx: nat,
    p: (DimState, DimState),
) -> bool {
    if p.0 == DimState::Absent || p.1 == DimState::Absent {
        advisory_is(a, "scene.missing_geometry"@, missing_point_message(kind, id, idx), id)
    } else if p.0 == DimState::Unsupported {
        advisory_is(a, "scene.unsupported_unit"@, unsupported_unit_message(kind, id, "point x"@), id)
    } else {
        advisory_is(a, "scene.unsupported_unit"@, unsupported_unit_message(kind, id, "point y"@), id)
    }
}

/// Gate the point list of polygon or polyline `id` (`kind` as named in
/// advisories): the first point, in order, with a missing coordinate or one
/// that does not convert skips the node with the advisory for that fault;
/// otherwise every point passes.
pub fn check_points(kind: &str, id: &str, points: &[(DimState, DimState)]) -> (r: Result<
    (),
    Advisory,
>)
    ensures
        r is Ok <==> forall|i: int| 0 <= i < points@.len() ==> point_ok(#[trigger] points@[i]),
        r matches Err(a) ==> exists|i: int|
            0 <= i < points@.len() && !point_ok(points@[i]) && (forall|j: int|
                0 <= j < i ==> point_ok(#[trigger] points@[j])) && point_fault_advisory(
                a,
                kind@,
                id@,
                i as nat,
                points@[i],
            ),
{
    let mut i: usize = 0;
    while i < points.len()
        invariant
            i <= points@.len(),
            forall|j: int| 0 <= j < i ==> point_ok(#[trigger] points@[j]),
        decreases points@.len() - i,
    {
        let (x, y) = points[i];
        if x == DimState::Absent || y == DimState::Absent {
            let idx = decimal_string(i);
            let parts = [
                kind,
                " '",
                id,
                "' point[",
                idx.as_str(),
                "] is missing x or y coordinate; skipped",
            ];
            let message = concat(&parts);
            proof {
                reveal_with_fuel(concat_spec, 7);
                assert(parts@.drop_last().drop_last().drop_last().drop_last().drop_last().drop_last()
                    =~= Seq::<&str>::empty());
                assert(concat_spec(parts@) =~= missing_point_message(kind@, id@, i as nat));
            }
            return Err(
                Advisory {
                    code: String::from_str("scene.missing_geometry"),
                    message,
                    subject: Some(String::from_str(id)),
                },
            );
        }
        if x == DimState::Unsupported {
            return Err(unsupported_unit_diag(kind, id, "point x"));
        }
        if y == DimState::Unsupported {
            return Err(unsupported_unit_diag(kind, id, "point y"));
        }
        i = i + 1;
    }
    Ok(())
}

/// The `scene.unsupported_unit` message for a page dimension (`"width"` or
/// `"height"`) that does not convert to pixels.
pub open spec fn page_unit_message(page_id: Seq<char>, axis: Seq<char>) -> Seq<char> {
    "page '"@ + page_id + "' "@ + axis + " uses an unsupported unit; cannot compile scene"@
}

/// Gate the size of page `page_id`, whose width and height did or did not
/// convert to pixels: the first of width, height that did not yields the
/// `scene.unsupported_unit` advisory, and the scene is left empty.
pub fn check_page_size(page_id: &str, width_px: bool, height_px: bool) -> (r: Result<(), Advisory>)
    ensures
        width_px && height_px ==> r is Ok,
        !width_px ==> (r matches Err(a) && advisory_is(
            a,
            "scene.unsupported_unit"@,
            page_unit_message(page_id@, "width"@),
            page_id@,
        )),
        width_px && !height_px ==> (r matches Err(a) && advisory_is(
            a,
            "scene.unsupported_unit"@,
            page_unit_message(page_id@, "height"@),
            page_id@,
        )),
{
    if width_px && height_px {
        return Ok(());
    }
    let axis = if !width_px {
        "width"
    } else {
        "height"
    };
    let parts = ["page '", page_id, "' ", axis, " uses an unsupported unit; cannot compile scene"];
    let message = concat(&parts);
    proof {
        reveal_with_fuel(concat_spec, 6);
        assert(parts@.drop_last().drop_last().drop_last().drop_last().drop_last() =~= Seq::<
            &str,
        >::empty());
        assert(concat_spec(parts@) =~= page_unit_message(page_id@, axis@));
    }
    Err(
        Advisory {
            code: String::from_str("scene.unsupported_unit"),
            message,
            subject: Some(String::from_str(page_id)),
        },
    )
}

} // verus!
