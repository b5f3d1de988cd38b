//! Font resolution decisions: the font-weight property (including the
//! decimal parse of a bare literal such as `font-weight=700`), the family
//! fallback to the bundled default face, and the advisories it raises.

use vstd::prelude::*;

use crate::advisory::{advisory_is, concat, concat_spec, Advisory};
use crate::data_binding::PropValue;
use crate::property_resolve::{token_get, ResolvedValue, TokenEntry, TokenTable};

use crate::palette::{decimal_chars, digit_char};
use crate::text::utf8_bytes;
use vstd::string::StringExecFns;

verus! {

/// The byte is an ASCII decimal digit.
pub open spec fn is_digit(b: u8) -> bool {
    48 <= b <= 57
}

/// The value of a string of ASCII digits (leading zeros allowed).
pub open spec fn digits_value(d: Seq<u8>) -> nat
    decreases d.len(),
{
    if d.len() == 0 {
        0
    } else {
        digits_value(d.drop_last()) * 10 + (d.last() - 48) as nat
    }
}

/// The digits of a literal: everything after one optional leading `+`.
pub open spec fn literal_digits(b: Seq<u8>) -> Seq<u8> {
    if b.len() > 0 && b[0] == 43 {
        b.drop_first()
    } else {
        b
    }
}

/// What `str::parse::<u16>` accepts: an optional `+`, then one or more ASCII
/// digits whose value fits in 16 bits.
pub open spec fn parse_u16_spec(b: Seq<u8>) -> Option<u16> {
    let d = literal_digits(b);
    if d.len() > 0 && (forall|i: int| 0 <= i < d.len() ==> is_digit(#[trigger] d[i]))
        && digits_value(d) <= 65535 {
        Some(digits_value(d) as u16)
    } else {
        None
    }
}

proof fn lemma_digits_value_mono(d: Seq<u8>, k: int)
    requires
        0 <= k <= d.len(),
        forall|i: int| 0 <= i < d.len() ==> is_digit(#[trigger] d[i]),
    ensures
        digits_value(d) >= digits_value(d.take(k)),
    decreases d.len() - k,
{
    if k < d.len() {
        lemma_digits_value_mono(d, k + 1);
        assert(d.take(k + 1).drop_last() =~= d.take(k));
        assert(digits_value(d.take(k + 1)) == digits_value(d.take(k)) * 10 + (d[k] - 48) as nat);
    } else {
        assert(d.take(k) =~= d);
    }
}

/// Parse a decimal `u16` as `str::parse::<u16>().ok()` does: an optional
/// leading `+`, then ASCII digits only, no surrounding whitespace, and a
/// value of at most 65535.
pub fn parse_u16(s: &str) -> (r: Option<u16>)
    ensures
        r == parse_u16_spec(utf8_bytes(s@)),
{
    let b = s.as_bytes();
    let ghost d = literal_digits(b@);
    let start: usize = if b.len() > 0 && b[0] == 43 {
        1
    } else {
        0
    };
    proof {
        if start == 1 {
            assert(d =~= b@.subrange(1, b@.len() as int));
        } else {
            assert(d =~= b@.subrange(0, b@.len() as int));
        }
    }
    if start >= b.len() {
        return None;
    }
    let mut acc: u32 = 0;
    let mut i: usize = start;
    while i < b.len()
        invariant
            start <= i <= b@.len(),
            start < b@.len(),
            d == literal_digits(b@),
            b@ == utf8_bytes(s@),
            d == b@.subrange(start as int, b@.len() as int),
            forall|j: int| 0 <= j < i - start ==> is_digit(#[trigger] d[j]),
            acc as nat == digits_value(d.take(i - start)),
            acc <= 65535,
        decreases b@.len() - i,
    {
        let c = b[i];
        if c < 48 || c > 57 {
            assert(!is_digit(d[i - start]));
            return None;
        }
        let next = acc * 10 + (c - 48) as u32;
        proof {
            let k = i - start;
            assert(d.take(k + 1).drop_last() =~= d.take(k));
            assert(d.take(k + 1).last() == c);
        }
        if next > 65535 {
            proof {
                let k = i - start + 1;
                if forall|j: int| 0 <= j < d.len() ==> is_digit(#[trigger] d[j]) {
                    lemma_digits_value_mono(d, k);
                }
            }
            return None;
        }
        acc = next;
        i = i + 1;
    }
    proof {
        assert(d.take(d.len() as int) =~= d);
    }
    Some(acc as u16)
}

/// The ASCII bytes of the decimal spelling of `n`.
spec fn decimal_bytes(n: nat) -> Seq<u8>
    decreases n,
{
    if n < 10 {
        seq![(48 + n) as u8]
    } else {
        decimal_bytes(n / 10).push((48 + n % 10) as u8)
    }
}

proof fn lemma_decimal_bytes(n: nat)
    ensures
        decimal_chars(n).len() == decimal_bytes(n).len(),
        decimal_bytes(n).len() > 0,
        forall|i: int|
            0 <= i < decimal_chars(n).len() ==> '0' <= #[trigger] decimal_chars(n)[i] <= '9'
                && decimal_chars(n)[i] as u8 == decimal_bytes(n)[i],
        forall|i: int| 0 <= i < decimal_bytes(n).len() ==> is_digit(#[trigger] decimal_bytes(n)[i]),
        digits_value(decimal_bytes(n)) == n,
    decreases n,
{
    if n >= 10 {
        lemma_decimal_bytes(n / 10);
        let d = n % 10;
        assert(digit_char(d) as u8 == (48 + d) as u8);
        let b = decimal_bytes(n);
        assert(b.drop_last() =~= decimal_bytes(n / 10));
        assert(digits_value(b) == digits_value(decimal_bytes(n / 10)) * 10 + d);
        assert(forall|i: int|
            0 <= i < decimal_chars(n).len() - 1 ==> decimal_chars(n)[i] == decimal_chars(
                n / 10,
            )[i]);
        assert(forall|i: int|
            0 <= i < decimal_bytes(n).len() - 1 ==> decimal_bytes(n)[i] == decimal_bytes(
                n / 10,
            )[i]);
    } else {
        assert(digit_char(n) as u8 == (48 + n) as u8);
        assert(digits_value(decimal_bytes(n)) == digits_value(decimal_bytes(n).drop_last()) * 10
            + n);
        assert(decimal_bytes(n).drop_last() =~= Seq::<u8>::empty());
    }
}

/// Round trip: parsing the decimal spelling of any `u16` (as written by
/// `decimal_string`) gives the number back.
pub proof fn law_parse_reads_back_decimal(n: u16)
    ensures
        parse_u16_spec(utf8_bytes(decimal_chars(n as nat))) == Some(n),
{
    let c = decimal_chars(n as nat);
    lemma_decimal_bytes(n as nat);
    assert(vstd::utf8::is_ascii_chars(c));
    vstd::utf8::is_ascii_chars_encode_utf8(c);
    assert(utf8_bytes(c) =~= decimal_bytes(n as nat));
    assert(literal_digits(utf8_bytes(c)) == utf8_bytes(c));
}

/// The weight a font-weight property gives: a token that resolved to a
/// font weight gives that weight; a literal that parses as a `u16` gives its
/// value; anything else (absent, unresolved or non-weight token, unparsable
/// literal, dimension) gives `default`.
pub open spec fn font_weight_spec<D>(
    prop: Option<&PropValue<D>>,
    tokens: Seq<TokenEntry>,
    default: u16,
) -> u16 {
    match prop {
        Some(PropValue::TokenRef(id)) => match token_get(tokens, id@) {
            Some(e) => match e.value {
                ResolvedValue::FontWeight(w) => w,
                _ => default,
            },
            None => default,
        },
        Some(PropValue::Literal(s)) => match parse_u16_spec(utf8_bytes(s@)) {
            Some(v) => v,
            None => default,
        },
        _ => default,
    }
}

/// Resolve an optional font-weight property to a numeric weight (see
/// `font_weight_spec`).
pub fn resolve_font_weight<D>(prop: Option<&PropValue<D>>, tokens: &TokenTable, default: u16) -> (w:
    u16)
    ensures
        w == font_weight_spec(prop, tokens.entries@, default),
{
    match prop {
        Some(PropValue::TokenRef(id)) => match tokens.get(id.as_str()) {
            Some(TokenEntry { value: ResolvedValue::FontWeight(v), .. }) => *v,
            _ => default,
        },
        Some(PropValue::Literal(s)) => match parse_u16(s.as_str()) {
            Some(v) => v,
            None => default,
        },
        _ => default,
    }
}


/// ASCII lower-casing of one byte.
pub open spec fn ascii_lower(b: u8) -> u8 {
    if 65 <= b <= 90 {
        (b + 32) as u8
    } else {
        b
    }
}

/// The byte strings are equal up to ASCII case.
pub open spec fn eq_ignore_ascii_case_spec(a: Seq<u8>, b: Seq<u8>) -> bool {
    a.len() == b.len() && forall|i: int| 0 <= i < a.len() ==> ascii_lower(#[trigger] a[i])
        == ascii_lower(b[i])
}

/// `str::eq_ignore_ascii_case`: same length and equal bytes after ASCII
/// lower-casing.
pub fn eq_ignore_ascii_case(a: &str, b: &str) -> (r: bool)
    ensures
        r == eq_ignore_ascii_case_spec(utf8_bytes(a@), utf8_bytes(b@)),
{
    let x = a.as_bytes();
    let y = b.as_bytes();
    if x.len() != y.len() {
        return false;
    }
    let mut i: usize = 0;
    while i < x.len()
        invariant
            x@ == utf8_bytes(a@),
            y@ == utf8_bytes(b@),
            x@.len() == y@.len(),
            i <= x@.len(),
            forall|j: int| 0 <= j < i ==> ascii_lower(#[trigger] x@[j]) == ascii_lower(y@[j]),
        decreases x@.len() - i,
    {
        let p = x[i];
        let q = y[i];
        let lp = if p >= 65 && p <= 90 {
            p + 32
        } else {
            p
        };
        let lq = if q >= 65 && q <= 90 {
            q + 32
        } else {
            q
        };
        if lp != lq {
            return false;
        }
        i = i + 1;
    }
    true
}

/// The family actually used and whether it fell back: a family equal to the
/// default up to ASCII case is used as requested; otherwise the requested
/// family is used when the font provider resolves it, else the default.
pub open spec fn family_choice_spec(
    requested: Seq<char>,
    default_family: Seq<char>,
    provider_resolves: bool,
) -> (Seq<char>, bool) {
    if eq_ignore_ascii_case_spec(utf8_bytes(requested), utf8_bytes(default_family)) {
        (requested, false)
    } else if provider_resolves {
        (requested, false)
    } else {
        (default_family, true)
    }
}

/// Resolve a requested font family, falling back to the bundled default when
/// the requested family is unregistered.
///
/// `provider_resolves` is the font provider's answer for the requested family
/// (at the shaping request's weight and style); it is not needed when the
/// requested family is the default itself (compared ignoring ASCII case).
/// Returns the family to use and `true` when it fell back, so the caller can
/// emit its `font.unresolved` advisory.
pub fn resolve_family_with_fallback(
    requested: &str,
    default_family: &str,
    provider_resolves: bool,
) -> (r: (String, bool))
    ensures
        (r.0@, r.1) == family_choice_spec(requested@, default_family@, provider_resolves),
{
    if eq_ignore_ascii_case(requested, default_family) {
        return (String::from_str(requested), false);
    }
    if provider_resolves {
        (String::from_str(requested), false)
    } else {
        (String::from_str(default_family), true)
    }
}


/// The `font.unresolved` message for node `node_id`, named in advisories as
/// `label` (e.g. `"text node"`).
pub open spec fn font_unresolved_message(
    label: Seq<char>,
    node_id: Seq<char>,
    family: Seq<char>,
    default_family: Seq<char>,
) -> Seq<char> {
    label + " '"@ + node_id + "': font family '"@ + family
        + "' not available, falling back to '"@ + default_family + "'"@
}

/// The `font.unresolved` advisory raised when family `family` requested by
/// node `node_id` fell back to `default_family`.
pub fn font_unresolved_diag(label: &str, node_id: &str, family: &str, default_family: &str) -> (a:
    Advisory)
    ensures
        advisory_is(
            a,
            "font.unresolved"@,
            font_unresolved_message(label@, node_id@, family@, default_family@),
            node_id@,
        ),
{
    let parts = [
        label,
        " '",
        node_id,
        "': font family '",
        family,
        "' not available, falling back to '",
        default_family,
        "'",
    ];
    let message = concat(&parts);
    proof {
        reveal_with_fuel(concat_spec, 9);
        assert(parts@.drop_last().drop_last().drop_last().drop_last().drop_last().drop_last().drop_last().drop_last()
            =~= Seq::<&str>::empty());
        assert(concat_spec(parts@) =~= font_unresolved_message(
            label@,
            node_id@,
            family@,
            default_family@,
        ));
    }
    Advisory {
        code: String::from_str("font.unresolved"),
        message,
        subject: Some(String::from_str(node_id)),
    }
}

/// The `font.local` message for text node `node_id`.
pub open spec fn font_local_message(node_id: Seq<char>, family: Seq<char>) -> Seq<char> {
    "text node '"@ + node_id + "': font family '"@ + family
        + "' resolved from a local/system font; rendering is NOT guaranteed deterministic across machines \u{2014} bundle the font or guarantee the target OS provides it"@
}

/// The advisories for the family a text node requested: `font.unresolved`
/// when it fell back to `default_family`, then `font.local` when the family
/// came from a local or system font rather than a bundled one.
pub fn font_family_advisories(
    node_id: &str,
    family: &str,
    default_family: &str,
    fell_back: bool,
    is_local: bool,
) -> (r: Vec<Advisory>)
    ensures
        r@.len() == (if fell_back { 1int } else { 0 }) + (if is_local { 1int } else { 0 }),
        fell_back ==> advisory_is(
            r@[0],
            "font.unresolved"@,
            font_unresolved_message("text node"@, node_id@, family@, default_family@),
            node_id@,
        ),
        is_local ==> advisory_is(
            r@[r@.len() - 1],
            "font.local"@,
            font_local_message(node_id@, family@),
            node_id@,
        ),
{
    let mut out: Vec<Advisory> = Vec::new();
    if fell_back {
        out.push(font_unresolved_diag("text node", node_id, family, default_family));
    }
    if is_local {
        let parts = [
            "text node '",
            node_id,
            "': font family '",
            family,
            "' resolved from a local/system font; rendering is NOT guaranteed deterministic across machines \u{2014} bundle the font or guarantee the target OS provides it",
        ];
        let message = concat(&parts);
        proof {
            reveal_with_fuel(concat_spec, 6);
            assert(parts@.drop_last().drop_last().drop_last().drop_last().drop_last() =~= Seq::<
                &str,
            >::empty());
            assert(concat_spec(parts@) =~= font_local_message(node_id@, family@));
        }
        out.push(
            Advisory {
                code: String::from_str("font.local"),
                message,
                subject: Some(String::from_str(node_id)),
            },
        );
    }
    out
}

/// The weight a font-weight property gives: a token that resolved to a
/// font weight gives that weight, a literal that reads as a `u16` gives
/// that number, and every other case (no property, a token that did not
/// resolve or is of another type, an unreadable literal, a dimension, a data
/// reference) gives the default.
pub proof fn law_font_weight<D>(prop: Option<&PropValue<D>>, tokens: Seq<TokenEntry>, default: u16, w: u16)
    ensures
        prop is None ==> font_weight_spec(prop, tokens, default) == default,
        (prop matches Some(PropValue::TokenRef(id)) && token_get(tokens, id@) matches Some(e)
            && e.value == ResolvedValue::FontWeight(w)) ==> font_weight_spec(prop, tokens, default)
            == w,
        (prop matches Some(PropValue::TokenRef(id)) && !(token_get(tokens, id@) matches Some(e)
            && e.value is FontWeight)) ==> font_weight_spec(prop, tokens, default) == default,
        (prop matches Some(PropValue::Literal(s)) && parse_u16_spec(utf8_bytes(s@)) == Some(w))
            ==> font_weight_spec(prop, tokens, default) == w,
        (prop matches Some(PropValue::Literal(s)) && parse_u16_spec(utf8_bytes(s@)) is None)
            ==> font_weight_spec(prop, tokens, default) == default,
        (prop matches Some(PropValue::Dimension(_)) || prop matches Some(PropValue::DataRef(_)))
            ==> font_weight_spec(prop, tokens, default) == default,
{
}

/// The family fallback: a request equal to the default (ignoring ASCII
/// case) is used as written without asking the provider; otherwise the
/// request is used when the provider resolves it and the default, flagged
/// as a fallback, when it does not.
pub proof fn law_family_fallback(requested: Seq<char>, default_family: Seq<char>, provider_resolves: bool)
    ensures
        family_choice_spec(requested, default_family, true) == (requested, false),
        eq_ignore_ascii_case_spec(utf8_bytes(requested), utf8_bytes(default_family))
            ==> family_choice_spec(requested, default_family, provider_resolves) == (requested, false),
        !eq_ignore_ascii_case_spec(utf8_bytes(requested), utf8_bytes(default_family))
            ==> family_choice_spec(requested, default_family, false) == (default_family, true),
        family_choice_spec(requested, default_family, provider_resolves).1 ==> family_choice_spec(
            requested,
            default_family,
            provider_resolves,
        ).0 == default_family,
{
}

} // verus!
