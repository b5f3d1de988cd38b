//! The data-binding pre-pass: every `(data)"field.path"` property reference
//! and every span `data-ref` in a document is replaced by the value of that
//! field from the runtime data context before compilation, so downstream
//! resolvers only ever see literals, token references, and dimensions.
//!
//! With no data context the document is not touched; the scan only reports
//! whether any reference exists. With one, the walk runs in document order:
//! a color-typed reference becomes a literal holding the field's value, a
//! dimension-typed one becomes the field read as pixels, and a span's text
//! becomes the field's value (formatted when the span asks for it). A field
//! that is missing, or that does not read as pixels where a dimension is
//! wanted, leaves the reference in place and raises `data.missing_field`.

use vstd::prelude::*;
use vstd::string::StringExecFns;

use crate::advisory::{advisory_is, missing_field_diag, missing_field_message, Advisory};
use crate::text::str_eq;

verus! {

/// A property value. `D` is the representation of a dimension.
#[derive(Debug, PartialEq)]
pub enum PropValue<D> {
    /// A raw literal (a hex color, a family name, ...).
    Literal(String),
    /// A reference to a design token.
    TokenRef(String),
    /// A reference to a field of the runtime data context.
    DataRef(String),
    /// A dimension.
    Dimension(D),
}

/// A field of the runtime data context.
pub struct DataField<D> {
    /// The field's path, e.g. `brand.color`.
    pub path: String,
    /// The field's value.
    pub value: String,
    /// The value read as a pixel magnitude (surrounding whitespace and a
    /// trailing `px` ignored); `None` when it does not read as a finite
    /// number.
    pub px: Option<D>,
}

/// The runtime data context.
pub struct DataContext<D> {
    pub fields: Vec<DataField<D>>,
}

/// The field at `path`, as a map built from the fields in order sees it: a
/// later field with the same path replaces an earlier one.
pub open spec fn ctx_get<D>(fields: Seq<DataField<D>>, path: Seq<char>) -> Option<DataField<D>>
    decreases fields.len(),
{
    if fields.len() == 0 {
        None
    } else if fields.last().path@ == path {
        Some(fields.last())
    } else {
        ctx_get(fields.drop_last(), path)
    }
}

impl<D> DataContext<D> {
    /// The field at `path`.
    pub fn field(&self, path: &str) -> (r: Option<&DataField<D>>)
        ensures
            match r {
                Some(f) => ctx_get(self.fields@, path@) == Some(*f),
                None => ctx_get(self.fields@, path@) is None,
            },
    {
        let mut i: usize = self.fields.len();
        proof {
            assert(self.fields@.take(i as int) =~= self.fields@);
        }
        while i > 0
            invariant
                i <= self.fields@.len(),
                ctx_get(self.fields@, path@) == ctx_get(self.fields@.take(i as int), path@),
            decreases i,
        {
            proof {
                assert(self.fields@.take(i as int).drop_last() =~= self.fields@.take(i - 1));
                assert(self.fields@.take(i as int).last() == self.fields@[i - 1]);
            }
            if str_eq(self.fields[i - 1].path.as_str(), path) {
                return Some(&self.fields[i - 1]);
            }
            i = i - 1;
        }
        None
    }

    /// The value of the field at `path`.
    pub fn get(&self, path: &str) -> (r: Option<&str>)
        ensures
            match r {
                Some(v) => ctx_get(self.fields@, path@) matches Some(f) && f.value@ == v@,
                None => ctx_get(self.fields@, path@) is None,
            },
    {
        match self.field(path) {
            Some(f) => Some(f.value.as_str()),
            None => None,
        }
    }
}

/// Whether a property is color-typed (its reference resolves to a literal)
/// or dimension-typed (its reference resolves to pixels).
#[derive(Clone, Copy, PartialEq, Eq, Structural, Debug)]
pub enum PropKind {
    Color,
    Dimension,
}

/// One bindable property of a node, as the pre-pass visits it.
pub struct BoundProp<D> {
    /// The property's name in advisories, e.g. `fill` or `cell.border-width`.
    pub name: String,
    pub kind: PropKind,
    /// The authored value, if any.
    pub value: Option<PropValue<D>>,
}

/// A text span, as far as data binding reads and writes it.
pub struct DataSpan {
    pub text: String,
    /// The data field whose value replaces the text.
    pub data_ref: Option<String>,
    /// How that value is formatted, when it is.
    pub data_format: Option<String>,
}

/// A unit of the document the pre-pass walks: a page, a node, a table cell,
/// or an instance override. Its properties are visited first, in order, then
/// its spans, then the units nested in it (a page's nodes, a container's
/// children, a table's cells, an instance's overrides, a pattern's motif).
pub struct BoundNode<D> {
    /// The id that advisories about this unit name (a table cell names its
    /// table; an override names its instance).
    pub subject: String,
    pub props: Vec<BoundProp<D>>,
    pub spans: Vec<DataSpan>,
    pub children: Vec<BoundNode<D>>,
}

/// The property is a data reference.
pub open spec fn is_data_ref<D>(p: Option<PropValue<D>>) -> bool {
    p matches Some(PropValue::DataRef(_))
}

/// The unit or anything nested in it carries a data reference in a
/// property or a span.
pub open spec fn node_has_ref<D>(n: BoundNode<D>) -> bool
    decreases n,
{
    ||| exists|i: int| 0 <= i < n.props@.len() && is_data_ref(#[trigger] n.props@[i].value)
    ||| exists|i: int| 0 <= i < n.spans@.len() && (#[trigger] n.spans@[i]).data_ref is Some
    ||| exists|i: int| 0 <= i < n.children@.len() && node_has_ref(#[trigger] n.children@[i])
}

/// Whether any of the properties is a data reference.
pub fn any_prop<D>(props: &Vec<BoundProp<D>>) -> (r: bool)
    ensures
        r == exists|i: int| 0 <= i < props@.len() && is_data_ref(#[trigger] props@[i].value),
{
    let mut i: usize = 0;
    while i < props.len()
        invariant
            i <= props@.len(),
            forall|j: int| 0 <= j < i ==> !is_data_ref(#[trigger] props@[j].value),
        decreases props@.len() - i,
    {
        match &props[i].value {
            Some(PropValue::DataRef(_)) => {
                return true;
            },
            _ => {},
        }
        i = i + 1;
    }
    false
}

/// Whether any of the spans carries a data reference.
pub fn any_span(spans: &Vec<DataSpan>) -> (r: bool)
    ensures
        r == exists|i: int| 0 <= i < spans@.len() && (#[trigger] spans@[i]).data_ref is Some,
{
    let mut i: usize = 0;
    while i < spans.len()
        invariant
            i <= spans@.len(),
            forall|j: int| 0 <= j < i ==> (#[trigger] spans@[j]).data_ref is None,
        decreases spans@.len() - i,
    {
        if spans[i].data_ref.is_some() {
            return true;
        }
        i = i + 1;
    }
    false
}

/// Whether the unit, or anything nested in it, carries a data reference.
pub fn node_has_data_ref<D>(node: &BoundNode<D>) -> (r: bool)
    ensures
        r == node_has_ref(*node),
    decreases node,
{
    if any_prop(&node.props) || any_span(&node.spans) {
        return true;
    }
    let mut i: usize = 0;
    while i < node.children.len()
        invariant
            i <= node.children@.len(),
            forall|j: int| 0 <= j < i ==> !node_has_ref(#[trigger] node.children@[j]),
        decreases node.children@.len() - i,
    {
        proof {
            vstd::std_specs::vec::axiom_vec_index_decreases(node.children, i as int);
        }
        if node_has_data_ref(&node.children[i]) {
            return true;
        }
        i = i + 1;
    }
    false
}

/// Whether the document, given as its pages, carries any data reference
/// (a page background counts as a property of its page). With no data
/// context this decides whether the single `data.no_context` advisory is
/// raised; the document itself is not touched.
pub fn scan_for_data_refs<D>(pages: &Vec<BoundNode<D>>) -> (r: bool)
    ensures
        r == exists|i: int| 0 <= i < pages@.len() && node_has_ref(#[trigger] pages@[i]),
{
    let mut i: usize = 0;
    while i < pages.len()
        invariant
            i <= pages@.len(),
            forall|j: int| 0 <= j < i ==> !node_has_ref(#[trigger] pages@[j]),
        decreases pages@.len() - i,
    {
        if node_has_data_ref(&pages[i]) {
            return true;
        }
        i = i + 1;
    }
    false
}

// ── Substitution ────────────────────────────────────────────────────────────

/// `w` is `v`, a property of kind `kind`, after binding: a reference whose
/// field is present becomes a literal holding the field's value (color) or
/// the field read as pixels (dimension, when it reads as such); anything
/// else is left as it is.
pub open spec fn value_after<D>(
    kind: PropKind,
    v: Option<PropValue<D>>,
    w: Option<PropValue<D>>,
    fields: Seq<DataField<D>>,
) -> bool {
    match v {
        Some(PropValue::DataRef(path)) => match ctx_get(fields, path@) {
            Some(f) => match kind {
                PropKind::Color => w matches Some(PropValue::Literal(l)) && l@ == f.value@,
                PropKind::Dimension => match f.px {
                    Some(d) => w == Some(PropValue::Dimension(d)),
                    None => w == v,
                },
            },
            None => w == v,
        },
        _ => w == v,
    }
}

/// The unresolved references of `v`, a property `name` of kind `kind` on
/// `subject`, as (subject, property, field path): a reference to a missing
/// field, or a dimension reference to a field that does not read as pixels.
pub open spec fn value_missing<D>(
    subject: Seq<char>,
    name: Seq<char>,
    kind: PropKind,
    v: Option<PropValue<D>>,
    fields: Seq<DataField<D>>,
) -> Seq<(Seq<char>, Seq<char>, Seq<char>)> {
    match v {
        Some(PropValue::DataRef(path)) => match ctx_get(fields, path@) {
            Some(f) => if kind == PropKind::Dimension && f.px is None {
                seq![(subject, name, path@)]
            } else {
                seq![]
            },
            None => seq![(subject, name, path@)],
        },
        _ => seq![],
    }
}

/// `after` is `before` followed by one `data.missing_field` advisory for
/// each entry of `missing`, in order.
pub open spec fn advised(
    before: Seq<Advisory>,
    after: Seq<Advisory>,
    missing: Seq<(Seq<char>, Seq<char>, Seq<char>)>,
) -> bool {
    &&& after.len() == before.len() + missing.len()
    &&& forall|i: int| 0 <= i < before.len() ==> #[trigger] after[i] == before[i]
    &&& forall|i: int|
        before.len() <= i < after.len() ==> advisory_is(
            #[trigger] after[i],
            "data.missing_field"@,
            missing_field_message(
                missing[i - before.len()].0,
                missing[i - before.len()].1,
                missing[i - before.len()].2,
            ),
            missing[i - before.len()].0,
        )
}

/// Advising in two steps advises the concatenation.
pub proof fn lemma_advised_chain(
    a: Seq<Advisory>,
    b: Seq<Advisory>,
    c: Seq<Advisory>,
    m1: Seq<(Seq<char>, Seq<char>, Seq<char>)>,
    m2: Seq<(Seq<char>, Seq<char>, Seq<char>)>,
)
    requires
        advised(a, b, m1),
        advised(b, c, m2),
    ensures
        advised(a, c, m1 + m2),
{
    let m = m1 + m2;
    assert forall|i: int| a.len() <= i < c.len() implies advisory_is(
        #[trigger] c[i],
        "data.missing_field"@,
        missing_field_message(m[i - a.len()].0, m[i - a.len()].1, m[i - a.len()].2),
        m[i - a.len()].0,
    ) by {
        if i < b.len() {
            assert(c[i] == b[i]);
        }
    }
}

/// Bind a COLOR-typed property value of node `subject_id`: a reference whose
/// field is present becomes a `Literal` holding the field's value; a missing
/// field leaves the reference in place and appends `data.missing_field` for
/// `prop_name`. Any other value is left as it is.
pub fn substitute_color_prop<D>(
    pv: &mut PropValue<D>,
    ctx: &DataContext<D>,
    subject_id: &str,
    prop_name: &str,
    diagnostics: &mut Vec<Advisory>,
)
    ensures
        value_after(PropKind::Color, Some(*old(pv)), Some(*final(pv)), ctx.fields@),
        advised(
            old(diagnostics)@,
            final(diagnostics)@,
            value_missing(subject_id@, prop_name@, PropKind::Color, Some(*old(pv)), ctx.fields@),
        ),
{
    let found = match pv {
        PropValue::DataRef(path) => match ctx.field(path.as_str()) {
            Some(f) => Ok(String::from_str(f.value.as_str())),
            None => Err(missing_field_diag(subject_id, prop_name, path.as_str())),
        },
        _ => {
            return;
        },
    };
    match found {
        Ok(v) => {
            *pv = PropValue::Literal(v);
        },
        Err(a) => {
            diagnostics.push(a);
        },
    }
}

/// Bind a DIMENSION-typed property value of node `subject_id`: a reference
/// whose field is present and reads as pixels becomes that `Dimension`; a
/// missing field, or one that does not read as pixels, leaves the reference
/// in place and appends `data.missing_field` for `prop_name`. Any other value
/// is left as it is.
pub fn substitute_dim_prop<D: Copy>(
    pv: &mut PropValue<D>,
    ctx: &DataContext<D>,
    subject_id: &str,
    prop_name: &str,
    diagnostics: &mut Vec<Advisory>,
)
    ensures
        value_after(PropKind::Dimension, Some(*old(pv)), Some(*final(pv)), ctx.fields@),
        advised(
            old(diagnostics)@,
            final(diagnostics)@,
            value_missing(
                subject_id@,
                prop_name@,
                PropKind::Dimension,
                Some(*old(pv)),
                ctx.fields@,
            ),
        ),
{
    let found = match pv {
        PropValue::DataRef(path) => match ctx.field(path.as_str()) {
            Some(f) => match &f.px {
                Some(d) => Ok(*d),
                None => Err(missing_field_diag(subject_id, prop_name, path.as_str())),
            },
            None => Err(missing_field_diag(subject_id, prop_name, path.as_str())),
        },
        _ => {
            return;
        },
    };
    match found {
        Ok(d) => {
            *pv = PropValue::Dimension(d);
        },
        Err(a) => {
            diagnostics.push(a);
        },
    }
}

/// Bind an optional COLOR-typed property (absent stays absent).
pub fn substitute_color_prop_opt<D>(
    prop: &mut Option<PropValue<D>>,
    ctx: &DataContext<D>,
    subject_id: &str,
    prop_name: &str,
    diagnostics: &mut Vec<Advisory>,
)
    ensures
        value_after(PropKind::Color, *old(prop), *final(prop), ctx.fields@),
        advised(
            old(diagnostics)@,
            final(diagnostics)@,
            value_missing(subject_id@, prop_name@, PropKind::Color, *old(prop), ctx.fields@),
        ),
{
    match prop {
        Some(pv) => substitute_color_prop(pv, ctx, subject_id, prop_name, diagnostics),
        None => {},
    }
}

/// Bind an optional DIMENSION-typed property (absent stays absent).
pub fn substitute_dim_prop_opt<D: Copy>(
    prop: &mut Option<PropValue<D>>,
    ctx: &DataContext<D>,
    subject_id: &str,
    prop_name: &str,
    diagnostics: &mut Vec<Advisory>,
)
    ensures
        value_after(PropKind::Dimension, *old(prop), *final(prop), ctx.fields@),
        advised(
            old(diagnostics)@,
            final(diagnostics)@,
            value_missing(subject_id@, prop_name@, PropKind::Dimension, *old(prop), ctx.fields@),
        ),
{
    match prop {
        Some(pv) => substitute_dim_prop(pv, ctx, subject_id, prop_name, diagnostics),
        None => {},
    }
}

/// `q` is the property `p` after binding.
pub open spec fn prop_after<D>(p: BoundProp<D>, q: BoundProp<D>, fields: Seq<DataField<D>>) -> bool {
    &&& q.name == p.name
    &&& q.kind == p.kind
    &&& value_after(p.kind, p.value, q.value, fields)
}

/// The unresolved references among `props` of `subject`, in order.
pub open spec fn props_missing<D>(
    subject: Seq<char>,
    props: Seq<BoundProp<D>>,
    fields: Seq<DataField<D>>,
) -> Seq<(Seq<char>, Seq<char>, Seq<char>)>
    decreases props.len(),
{
    if props.len() == 0 {
        seq![]
    } else {
        props_missing(subject, props.drop_last(), fields) + value_missing(
            subject,
            props.last().name@,
            props.last().kind,
            props.last().value,
            fields,
        )
    }
}

/// `t` is the span `s` after binding: a span whose field is present takes
/// the field's value as its text, formatted by `format` when the span names
/// a format; otherwise the span is left as it is.
pub open spec fn span_after<D, F: Fn(&String, &String) -> String>(
    s: DataSpan,
    t: DataSpan,
    fields: Seq<DataField<D>>,
    format: F,
) -> bool {
    &&& t.data_ref == s.data_ref
    &&& t.data_format == s.data_format
    &&& match s.data_ref {
        Some(path) => match ctx_get(fields, path@) {
            Some(f) => match s.data_format {
                Some(fmt) => format.ensures((&f.value, &fmt), t.text),
                None => t.text@ == f.value@,
            },
            None => t.text == s.text,
        },
        None => t.text == s.text,
    }
}

/// The unresolved span references of `s` on `subject`.
pub open spec fn span_missing<D>(subject: Seq<char>, s: DataSpan, fields: Seq<DataField<D>>) -> Seq<
    (Seq<char>, Seq<char>, Seq<char>),
> {
    match s.data_ref {
        Some(path) => if ctx_get(fields, path@) is None {
            seq![(subject, "span data-ref"@, path@)]
        } else {
            seq![]
        },
        None => seq![],
    }
}

/// The unresolved span references among `spans` of `subject`, in order.
pub open spec fn spans_missing<D>(
    subject: Seq<char>,
    spans: Seq<DataSpan>,
    fields: Seq<DataField<D>>,
) -> Seq<(Seq<char>, Seq<char>, Seq<char>)>
    decreases spans.len(),
{
    if spans.len() == 0 {
        seq![]
    } else {
        spans_missing(subject, spans.drop_last(), fields) + span_missing(
            subject,
            spans.last(),
            fields,
        )
    }
}

/// `new` is the unit `old` after binding: every property, span, and nested
/// unit bound, nothing added, removed, or reordered.
pub open spec fn node_after<D, F: Fn(&String, &String) -> String>(
    old: BoundNode<D>,
    new: BoundNode<D>,
    fields: Seq<DataField<D>>,
    format: F,
) -> bool
    decreases old,
{
    &&& new.subject == old.subject
    &&& new.props@.len() == old.props@.len()
    &&& forall|i: int|
        0 <= i < old.props@.len() ==> prop_after(#[trigger] old.props@[i], new.props@[i], fields)
    &&& new.spans@.len() == old.spans@.len()
    &&& forall|i: int|
        0 <= i < old.spans@.len() ==> span_after(
            #[trigger] old.spans@[i],
            new.spans@[i],
            fields,
            format,
        )
    &&& new.children@.len() == old.children@.len()
    &&& forall|i: int|
        0 <= i < old.children@.len() ==> node_after(
            #[trigger] old.children@[i],
            new.children@[i],
            fields,
            format,
        )
}

/// The unresolved references of the unit `n` and everything nested in it,
/// in document order: its properties, then its spans, then its children.
pub open spec fn node_missing<D>(n: BoundNode<D>, fields: Seq<DataField<D>>) -> Seq<
    (Seq<char>, Seq<char>, Seq<char>),
>
    decreases n,
{
    props_missing(n.subject@, n.props@, fields) + spans_missing(n.subject@, n.spans@, fields)
        + nodes_missing(n.children@, fields)
}

/// The unresolved references of the units `cs`, in order.
pub open spec fn nodes_missing<D>(cs: Seq<BoundNode<D>>, fields: Seq<DataField<D>>) -> Seq<
    (Seq<char>, Seq<char>, Seq<char>),
>
    decreases cs,
{
    if cs.len() == 0 {
        seq![]
    } else {
        nodes_missing(cs.drop_last(), fields) + node_missing(cs.last(), fields)
    }
}

#[verifier::loop_isolation(false)]
fn subst_props<D: Copy>(
    props: Vec<BoundProp<D>>,
    ctx: &DataContext<D>,
    subject_id: &str,
    diagnostics: &mut Vec<Advisory>,
) -> (r: Vec<BoundProp<D>>)
    ensures
        r@.len() == props@.len(),
        forall|i: int| 0 <= i < props@.len() ==> prop_after(#[trigger] props@[i], r@[i], ctx.fields@),
        advised(
            old(diagnostics)@,
            final(diagnostics)@,
            props_missing(subject_id@, props@, ctx.fields@),
        ),
{
    let ghost old = props@;
    let ghost d0 = diagnostics@;
    let mut rest = props;
    let mut out: Vec<BoundProp<D>> = Vec::new();
    let n = rest.len();
    let mut k: usize = 0;
    proof {
        assert(old.take(0) =~= Seq::<BoundProp<D>>::empty());
    }
    while k < n
        invariant
            n == old.len(),
            k <= n,
            rest@ == old.subrange(k as int, n as int),
            out@.len() == k,
            forall|i: int| 0 <= i < k ==> prop_after(#[trigger] old[i], out@[i], ctx.fields@),
            advised(d0, diagnostics@, props_missing(subject_id@, old.take(k as int), ctx.fields@)),
        decreases n - k,
    {
        let ghost d1 = diagnostics@;
        let mut p = rest.remove(0);
        proof {
            assert(p == old[k as int]);
        }
        match p.kind {
            PropKind::Color => substitute_color_prop_opt(
                &mut p.value,
                ctx,
                subject_id,
                p.name.as_str(),
                diagnostics,
            ),
            PropKind::Dimension => substitute_dim_prop_opt(
                &mut p.value,
                ctx,
                subject_id,
                p.name.as_str(),
                diagnostics,
            ),
        }
        proof {
            assert(old.take(k + 1).drop_last() =~= old.take(k as int));
            assert(old.take(k + 1).last() == old[k as int]);
            lemma_advised_chain(
                d0,
                d1,
                diagnostics@,
                props_missing(subject_id@, old.take(k as int), ctx.fields@),
                value_missing(
                    subject_id@,
                    old[k as int].name@,
                    old[k as int].kind,
                    old[k as int].value,
                    ctx.fields@,
                ),
            );
        }
        out.push(p);
        k = k + 1;
        proof {
            assert(rest@ =~= old.subrange(k as int, n as int));
        }
    }
    proof {
        assert(old.take(n as int) =~= old);
    }
    out
}

#[verifier::loop_isolation(false)]
fn subst_spans<D, F: Fn(&String, &String) -> String>(
    spans: Vec<DataSpan>,
    ctx: &DataContext<D>,
    subject_id: &str,
    format: &F,
    diagnostics: &mut Vec<Advisory>,
) -> (r: Vec<DataSpan>)
    requires
        forall|a: &String, b: &String| #[trigger] format.requires((a, b)),
    ensures
        r@.len() == spans@.len(),
        forall|i: int|
            0 <= i < spans@.len() ==> span_after(#[trigger] spans@[i], r@[i], ctx.fields@, *format),
        advised(
            old(diagnostics)@,
            final(diagnostics)@,
            spans_missing(subject_id@, spans@, ctx.fields@),
        ),
{
    let ghost old = spans@;
    let ghost d0 = diagnostics@;
    let mut rest = spans;
    let mut out: Vec<DataSpan> = Vec::new();
    let n = rest.len();
    let mut k: usize = 0;
    proof {
        assert(old.take(0) =~= Seq::<DataSpan>::empty());
    }
    while k < n
        invariant
            n == old.len(),
            k <= n,
            rest@ == old.subrange(k as int, n as int),
            out@.len() == k,
            forall|i: int|
                0 <= i < k ==> span_after(#[trigger] old[i], out@[i], ctx.fields@, *format),
            advised(d0, diagnostics@, spans_missing(subject_id@, old.take(k as int), ctx.fields@)),
        decreases n - k,
    {
        let ghost d1 = diagnostics@;
        let mut sp = rest.remove(0);
        proof {
            assert(sp == old[k as int]);
        }
        let replaced: Option<String> = match &sp.data_ref {
            Some(path) => match ctx.field(path.as_str()) {
                Some(f) => match &sp.data_format {
                    Some(fmt) => Some(format(&f.value, fmt)),
                    None => Some(String::from_str(f.value.as_str())),
                },
                None => {
                    diagnostics.push(missing_field_diag(subject_id, "span data-ref", path.as_str()));
                    None
                },
            },
            None => None,
        };
        match replaced {
            Some(t) => {
                sp.text = t;
            },
            None => {},
        }
        proof {
            reveal_strlit("span data-ref");
            assert(old.take(k + 1).drop_last() =~= old.take(k as int));
            assert(old.take(k + 1).last() == old[k as int]);
            lemma_advised_chain(
                d0,
                d1,
                diagnostics@,
                spans_missing(subject_id@, old.take(k as int), ctx.fields@),
                span_missing(subject_id@, old[k as int], ctx.fields@),
            );
        }
        out.push(sp);
        k = k + 1;
        proof {
            assert(rest@ =~= old.subrange(k as int, n as int));
        }
    }
    proof {
        assert(old.take(n as int) =~= old);
    }
    out
}

fn subst_node<D: Copy, F: Fn(&String, &String) -> String>(
    node: BoundNode<D>,
    ctx: &DataContext<D>,
    format: &F,
    diagnostics: &mut Vec<Advisory>,
) -> (r: BoundNode<D>)
    requires
        forall|a: &String, b: &String| #[trigger] format.requires((a, b)),
    ensures
        node_after(node, r, ctx.fields@, *format),
        advised(old(diagnostics)@, final(diagnostics)@, node_missing(node, ctx.fields@)),
    decreases node,
{
    let ghost old = node;
    let ghost d0 = diagnostics@;
    let BoundNode { subject, props, spans, children } = node;
    let new_props = subst_props(props, ctx, subject.as_str(), diagnostics);
    let ghost d1 = diagnostics@;
    let new_spans = subst_spans(spans, ctx, subject.as_str(), format, diagnostics);
    let ghost d2 = diagnostics@;
    proof {
        assert(decreases_to!(old => old.children));
    }
    let new_children = subst_nodes(children, ctx, format, diagnostics);
    proof {
        lemma_advised_chain(
            d0,
            d1,
            d2,
            props_missing(subject@, old.props@, ctx.fields@),
            spans_missing(subject@, old.spans@, ctx.fields@),
        );
        lemma_advised_chain(
            d0,
            d2,
            diagnostics@,
            props_missing(subject@, old.props@, ctx.fields@) + spans_missing(
                subject@,
                old.spans@,
                ctx.fields@,
            ),
            nodes_missing(old.children@, ctx.fields@),
        );
    }
    BoundNode { subject, props: new_props, spans: new_spans, children: new_children }
}

#[verifier::loop_isolation(false)]
fn subst_nodes<D: Copy, F: Fn(&String, &String) -> String>(
    nodes: Vec<BoundNode<D>>,
    ctx: &DataContext<D>,
    format: &F,
    diagnostics: &mut Vec<Advisory>,
) -> (r: Vec<BoundNode<D>>)
    requires
        forall|a: &String, b: &String| #[trigger] format.requires((a, b)),
    ensures
        r@.len() == nodes@.len(),
        forall|i: int|
            0 <= i < nodes@.len() ==> node_after(#[trigger] nodes@[i], r@[i], ctx.fields@, *format),
        advised(old(diagnostics)@, final(diagnostics)@, nodes_missing(nodes@, ctx.fields@)),
    decreases nodes,
{
    let ghost entry = nodes;
    let ghost old = nodes@;
    let ghost d0 = diagnostics@;
    let mut rest = nodes;
    let mut out: Vec<BoundNode<D>> = Vec::new();
    let n = rest.len();
    let mut k: usize = 0;
    proof {
        assert(old.take(0) =~= Seq::<BoundNode<D>>::empty());
    }
    while k < n
        invariant
            entry@ == old,
            n == old.len(),
            k <= n,
            rest@ == old.subrange(k as int, n as int),
            out@.len() == k,
            forall|i: int|
                0 <= i < k ==> node_after(#[trigger] old[i], out@[i], ctx.fields@, *format),
            advised(d0, diagnostics@, nodes_missing(old.take(k as int), ctx.fields@)),
        decreases n - k,
    {
        let ghost d1 = diagnostics@;
        let child = rest.remove(0);
        proof {
            assert(child == old[k as int]);
            vstd::std_specs::vec::axiom_vec_index_decreases(entry, k as int);
        }
        let c = subst_node(child, ctx, format, diagnostics);
        proof {
            assert(old.take(k + 1).drop_last() =~= old.take(k as int));
            assert(old.take(k + 1).last() == old[k as int]);
            lemma_advised_chain(
                d0,
                d1,
                diagnostics@,
                nodes_missing(old.take(k as int), ctx.fields@),
                node_missing(old[k as int], ctx.fields@),
            );
        }
        out.push(c);
        k = k + 1;
        proof {
            assert(rest@ =~= old.subrange(k as int, n as int));
        }
    }
    proof {
        assert(old.take(n as int) =~= old);
    }
    out
}

/// Bind every data reference of one unit and everything nested in it, in
/// document order: its properties, its spans, then its children. Span
/// values are formatted with `format(value, data_format)` where the span
/// names a format. Each unresolved reference appends one
/// `data.missing_field` advisory and is left in place.
pub fn substitute_node<D: Copy, F: Fn(&String, &String) -> String>(
    node: &mut BoundNode<D>,
    ctx: &DataContext<D>,
    format: &F,
    diagnostics: &mut Vec<Advisory>,
)
    requires
        forall|a: &String, b: &String| #[trigger] format.requires((a, b)),
    ensures
        node_after(*old(node), *final(node), ctx.fields@, *format),
        advised(old(diagnostics)@, final(diagnostics)@, node_missing(*old(node), ctx.fields@)),
{
    let mut taken = BoundNode {
        subject: String::new(),
        props: Vec::new(),
        spans: Vec::new(),
        children: Vec::new(),
    };
    std::mem::swap(node, &mut taken);
    *node = subst_node(taken, ctx, format, diagnostics);
}

/// Bind every data reference of a list of units (see `substitute_node`).
pub fn substitute_children<D: Copy, F: Fn(&String, &String) -> String>(
    children: &mut Vec<BoundNode<D>>,
    ctx: &DataContext<D>,
    format: &F,
    diagnostics: &mut Vec<Advisory>,
)
    requires
        forall|a: &String, b: &String| #[trigger] format.requires((a, b)),
    ensures
        final(children)@.len() == old(children)@.len(),
        forall|i: int|
            0 <= i < old(children)@.len() ==> node_after(
                #[trigger] old(children)@[i],
                final(children)@[i],
                ctx.fields@,
                *format,
            ),
        advised(
            old(diagnostics)@,
            final(diagnostics)@,
            nodes_missing(old(children)@, ctx.fields@),
        ),
{
    let mut taken: Vec<BoundNode<D>> = Vec::new();
    std::mem::swap(children, &mut taken);
    *children = subst_nodes(taken, ctx, format, diagnostics);
}

/// Bind every data reference of a document, given as its pages in order
/// (each page's background is a color property of the page), against the
/// data context; see `substitute_node`.
pub fn substitute_data_refs<D: Copy, F: Fn(&String, &String) -> String>(
    pages: &mut Vec<BoundNode<D>>,
    ctx: &DataContext<D>,
    format: &F,
    diagnostics: &mut Vec<Advisory>,
)
    requires
        forall|a: &String, b: &String| #[trigger] format.requires((a, b)),
    ensures
        final(pages)@.len() == old(pages)@.len(),
        forall|i: int|
            0 <= i < old(pages)@.len() ==> node_after(
                #[trigger] old(pages)@[i],
                final(pages)@[i],
                ctx.fields@,
                *format,
            ),
        advised(old(diagnostics)@, final(diagnostics)@, nodes_missing(old(pages)@, ctx.fields@)),
{
    substitute_children(pages, ctx, format, diagnostics);
}

/// Bind the data references of a span list of node `subject_id` (see
/// `substitute_node`).
pub fn substitute_spans<D, F: Fn(&String, &String) -> String>(
    spans: &mut Vec<DataSpan>,
    ctx: &DataContext<D>,
    subject_id: &str,
    format: &F,
    diagnostics: &mut Vec<Advisory>,
)
    requires
        forall|a: &String, b: &String| #[trigger] format.requires((a, b)),
    ensures
        final(spans)@.len() == old(spans)@.len(),
        forall|i: int|
            0 <= i < old(spans)@.len() ==> span_after(
                #[trigger] old(spans)@[i],
                final(spans)@[i],
                ctx.fields@,
                *format,
            ),
        advised(
            old(diagnostics)@,
            final(diagnostics)@,
            spans_missing(subject_id@, old(spans)@, ctx.fields@),
        ),
{
    let mut taken: Vec<DataSpan> = Vec::new();
    std::mem::swap(spans, &mut taken);
    *spans = subst_spans(taken, ctx, subject_id, format, diagnostics);
}

// ── Laws of the pre-pass ────────────────────────────────────────────────────

/// If `p` is a data reference, the context cannot resolve it.
pub open spec fn unresolved_if_ref<D>(p: BoundProp<D>, fields: Seq<DataField<D>>) -> bool {
    match p.value {
        Some(PropValue::DataRef(path)) => match ctx_get(fields, path@) {
            Some(f) => p.kind == PropKind::Dimension && f.px is None,
            None => true,
        },
        _ => true,
    }
}

/// Every data reference left in the unit `n`, or anything nested in it, is
/// one the context cannot resolve: its field is missing, or it wants pixels
/// and the field does not read as pixels.
pub open spec fn only_unresolved_refs<D>(n: BoundNode<D>, fields: Seq<DataField<D>>) -> bool
    decreases n,
{
    &&& forall|i: int| 0 <= i < n.props@.len() ==> unresolved_if_ref(#[trigger] n.props@[i], fields)
    &&& forall|i: int|
        0 <= i < n.children@.len() ==> only_unresolved_refs(#[trigger] n.children@[i], fields)
}

/// After binding, the only property references left are the unresolved
/// ones: every reference the context can resolve has been replaced.
pub proof fn law_binding_leaves_only_unresolved_refs<D, F: Fn(&String, &String) -> String>(
    old: BoundNode<D>,
    new: BoundNode<D>,
    fields: Seq<DataField<D>>,
    format: F,
)
    requires
        node_after(old, new, fields, format),
    ensures
        only_unresolved_refs(new, fields),
    decreases old,
{
    assert forall|i: int| 0 <= i < new.props@.len() implies unresolved_if_ref(
        #[trigger] new.props@[i],
        fields,
    ) by {
        assert(prop_after(old.props@[i], new.props@[i], fields));
    }
    assert forall|i: int| 0 <= i < new.children@.len() implies only_unresolved_refs(
        #[trigger] new.children@[i],
        fields,
    ) by {
        assert(node_after(old.children@[i], new.children@[i], fields, format));
        law_binding_leaves_only_unresolved_refs(
            old.children@[i],
            new.children@[i],
            fields,
            format,
        );
    }
}

/// The property values, and span texts, of `new` are those of `old`,
/// throughout.
pub open spec fn values_unchanged<D>(old: BoundNode<D>, new: BoundNode<D>) -> bool
    decreases old,
{
    &&& new.props@.len() == old.props@.len()
    &&& forall|i: int|
        0 <= i < old.props@.len() ==> (#[trigger] new.props@[i]).value == old.props@[i].value
    &&& new.spans@.len() == old.spans@.len()
    &&& forall|i: int|
        0 <= i < old.spans@.len() ==> (#[trigger] new.spans@[i]).text == old.spans@[i].text
    &&& new.children@.len() == old.children@.len()
    &&& forall|i: int|
        0 <= i < old.children@.len() ==> values_unchanged(
            #[trigger] old.children@[i],
            new.children@[i],
        )
}

proof fn lemma_props_without_refs<D>(
    subject: Seq<char>,
    props: Seq<BoundProp<D>>,
    fields: Seq<DataField<D>>,
)
    requires
        forall|i: int| 0 <= i < props.len() ==> !is_data_ref(#[trigger] props[i].value),
    ensures
        props_missing(subject, props, fields) == Seq::<(Seq<char>, Seq<char>, Seq<char>)>::empty(),
    decreases props.len(),
{
    if props.len() > 0 {
        let init = props.drop_last();
        assert forall|i: int| 0 <= i < init.len() implies !is_data_ref(#[trigger] init[i].value) by {
            assert(init[i] == props[i]);
        }
        lemma_props_without_refs(subject, init, fields);
        assert(!is_data_ref(props[props.len() - 1].value));
        assert(props_missing(subject, props, fields) =~= Seq::<
            (Seq<char>, Seq<char>, Seq<char>),
        >::empty());
    }
}

proof fn lemma_spans_without_refs<D>(
    subject: Seq<char>,
    spans: Seq<DataSpan>,
    fields: Seq<DataField<D>>,
)
    requires
        forall|i: int| 0 <= i < spans.len() ==> (#[trigger] spans[i]).data_ref is None,
    ensures
        spans_missing(subject, spans, fields) == Seq::<(Seq<char>, Seq<char>, Seq<char>)>::empty(),
    decreases spans.len(),
{
    if spans.len() > 0 {
        let init = spans.drop_last();
        assert forall|i: int| 0 <= i < init.len() implies (#[trigger] init[i]).data_ref is None by {
            assert(init[i] == spans[i]);
        }
        lemma_spans_without_refs(subject, init, fields);
        assert(spans[spans.len() - 1].data_ref is None);
        assert(spans_missing(subject, spans, fields) =~= Seq::<
            (Seq<char>, Seq<char>, Seq<char>),
        >::empty());
    }
}

proof fn lemma_nodes_without_refs<D>(cs: Seq<BoundNode<D>>, fields: Seq<DataField<D>>)
    requires
        forall|i: int| 0 <= i < cs.len() ==> !node_has_ref(#[trigger] cs[i]),
    ensures
        nodes_missing(cs, fields) == Seq::<(Seq<char>, Seq<char>, Seq<char>)>::empty(),
    decreases cs,
{
    if cs.len() > 0 {
        let init = cs.drop_last();
        assert forall|i: int| 0 <= i < init.len() implies !node_has_ref(#[trigger] init[i]) by {
            assert(init[i] == cs[i]);
        }
        lemma_nodes_without_refs(init, fields);
        let last = cs[cs.len() - 1];
        assert(!node_has_ref(last));
        lemma_props_without_refs(last.subject@, last.props@, fields);
        lemma_spans_without_refs(last.subject@, last.spans@, fields);
        lemma_nodes_without_refs(last.children@, fields);
        assert(node_missing(last, fields) =~= Seq::<(Seq<char>, Seq<char>, Seq<char>)>::empty());
        assert(nodes_missing(cs, fields) =~= Seq::<(Seq<char>, Seq<char>, Seq<char>)>::empty());
    }
}

/// A unit without any data reference is left exactly as it was by binding,
/// and raises no advisory.
pub proof fn law_no_refs_nothing_to_bind<D, F: Fn(&String, &String) -> String>(
    old: BoundNode<D>,
    new: BoundNode<D>,
    fields: Seq<DataField<D>>,
    format: F,
)
    requires
        !node_has_ref(old),
        node_after(old, new, fields, format),
    ensures
        values_unchanged(old, new),
        node_missing(old, fields) == Seq::<(Seq<char>, Seq<char>, Seq<char>)>::empty(),
    decreases old,
{
    assert forall|i: int| 0 <= i < old.props@.len() implies (#[trigger] new.props@[i]).value
        == old.props@[i].value by {
        assert(!is_data_ref(old.props@[i].value));
        assert(prop_after(old.props@[i], new.props@[i], fields));
    }
    assert forall|i: int| 0 <= i < old.spans@.len() implies (#[trigger] new.spans@[i]).text
        == old.spans@[i].text by {
        assert(old.spans@[i].data_ref is None);
        assert(span_after(old.spans@[i], new.spans@[i], fields, format));
    }
    assert forall|i: int| 0 <= i < old.children@.len() implies values_unchanged(
        #[trigger] old.children@[i],
        new.children@[i],
    ) by {
        assert(!node_has_ref(old.children@[i]));
        assert(node_after(old.children@[i], new.children@[i], fields, format));
        law_no_refs_nothing_to_bind(old.children@[i], new.children@[i], fields, format);
    }
    assert forall|i: int| 0 <= i < old.props@.len() implies !is_data_ref(
        #[trigger] old.props@[i].value,
    ) by {}
    lemma_props_without_refs(old.subject@, old.props@, fields);
    lemma_spans_without_refs(old.subject@, old.spans@, fields);
    lemma_nodes_without_refs(old.children@, fields);
    assert(node_missing(old, fields) =~= Seq::<(Seq<char>, Seq<char>, Seq<char>)>::empty());
}

/// Binding one property value: a color reference whose field is present
/// becomes a literal with the field's value; a dimension reference whose
/// field is present and reads as pixels becomes that dimension; a reference
/// whose field is missing, or (for a dimension) does not read as pixels,
/// stays and is reported once, naming the property and the field; any other
/// value stays and is not reported.
pub proof fn law_binding_one_value<D>(
    subject: Seq<char>,
    name: Seq<char>,
    kind: PropKind,
    v: Option<PropValue<D>>,
    w: Option<PropValue<D>>,
    fields: Seq<DataField<D>>,
    path: String,
    f: DataField<D>,
)
    requires
        value_after(kind, v, w, fields),
    ensures
        (v == Some(PropValue::<D>::DataRef(path)) && ctx_get(fields, path@) == Some(f) && kind
            == PropKind::Color) ==> (w matches Some(PropValue::Literal(l)) && l@ == f.value@)
            && value_missing(subject, name, kind, v, fields).len() == 0,
        (v == Some(PropValue::<D>::DataRef(path)) && ctx_get(fields, path@) == Some(f) && kind
            == PropKind::Dimension && f.px is Some) ==> w == Some(
            PropValue::Dimension(f.px.unwrap()),
        ) && value_missing(subject, name, kind, v, fields).len() == 0,
        (v == Some(PropValue::<D>::DataRef(path)) && (ctx_get(fields, path@) is None || (kind
            == PropKind::Dimension && ctx_get(fields, path@).unwrap().px is None))) ==> w == v
            && value_missing(subject, name, kind, v, fields) == seq![(subject, name, path@)],
        !(v matches Some(PropValue::DataRef(_))) ==> w == v && value_missing(
            subject,
            name,
            kind,
            v,
            fields,
        ).len() == 0,
{
}

} // verus!
