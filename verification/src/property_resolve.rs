//! Resolution of color- and family-typed properties against the resolved
//! design tokens: from the authored value (a token reference, a literal, or a
//! dimension) to the hex string to parse or the family name to shape with,
//! and from a color's parse outcome to the color or the advisory that skips
//! the paint.

use vstd::prelude::*;
use vstd::string::StringExecFns;

use crate::advisory::{advisory_is, concat, concat_spec, Advisory};
use crate::data_binding::PropValue;
use crate::palette::Color;
use crate::text::str_eq;

verus! {

/// The resolved value of a design token, as far as property resolution
/// reads it.
pub enum ResolvedValue {
    /// A color token, with its hex string.
    Color(String),
    /// A font-family token, with the family name.
    FontFamily(String),
    /// A font-weight token, with the weight as the compiler reads it.
    FontWeight(u16),
    /// A token of any other type.
    Other,
}

/// One resolved design token.
pub struct TokenEntry {
    pub id: String,
    pub value: ResolvedValue,
    /// How the value reads in advisories (its debug rendering).
    pub shown: String,
}

/// The resolved design tokens.
pub struct TokenTable {
    pub entries: Vec<TokenEntry>,
}

/// The resolved token `id`, as a map built from the entries in order sees
/// it: a later entry with the same id replaces an earlier one.
pub open spec fn token_get(entries: Seq<TokenEntry>, id: Seq<char>) -> Option<TokenEntry>
    decreases entries.len(),
{
    if entries.len() == 0 {
        None
    } else if entries.last().id@ == id {
        Some(entries.last())
    } else {
        token_get(entries.drop_last(), id)
    }
}

impl TokenTable {
    /// Look up token `id`.
    pub fn get(&self, id: &str) -> (r: Option<&TokenEntry>)
        ensures
            match r {
                Some(v) => token_get(self.entries@, id@) == Some(*v),
                None => token_get(self.entries@, id@) is None,
            },
    {
        let mut i: usize = self.entries.len();
        proof {
            assert(self.entries@.take(i as int) =~= self.entries@);
        }
        while i > 0
            invariant
                i <= self.entries@.len(),
                token_get(self.entries@, id@) == token_get(self.entries@.take(i as int), id@),
            decreases i,
        {
            proof {
                assert(self.entries@.take(i as int).drop_last() =~= self.entries@.take(i - 1));
                assert(self.entries@.take(i as int).last() == self.entries@[i - 1]);
            }
            if str_eq(self.entries[i - 1].id.as_str(), id) {
                return Some(&self.entries[i - 1]);
            }
            i = i - 1;
        }
        None
    }
}

/// Where the hex string of a color property came from.
#[derive(PartialEq, Eq, Debug)]
pub enum ColorSource {
    /// The color token with this id resolved to this hex string.
    Token(String, String),
    /// The property is this literal.
    Literal(String),
}

/// The `scene.wrong_token_type` message for a token of another type.
pub open spec fn wrong_token_type_message(
    subject_id: Seq<char>,
    token_id: Seq<char>,
    value: Seq<char>,
) -> Seq<char> {
    "node '"@ + subject_id + "' references token '"@ + token_id
        + "' which resolved to a non-color value ("@ + value + "); skipped"@
}

/// The `scene.unresolved_token` message.
pub open spec fn unresolved_token_message(subject_id: Seq<char>, token_id: Seq<char>) -> Seq<
    char,
> {
    "node '"@ + subject_id + "' references token '"@ + token_id
        + "' which did not resolve (check token diagnostics); skipped"@
}

/// The `scene.wrong_token_type` message for a dimension in a color slot.
pub open spec fn dimension_as_color_message(subject_id: Seq<char>) -> Seq<char> {
    "node '"@ + subject_id + "' has a dimension value where a color is expected; skipped"@
}

/// The `scene.invalid_color` message for a color token whose hex does not
/// parse.
pub open spec fn invalid_token_color_message(token_id: Seq<char>, hex: Seq<char>) -> Seq<char> {
    "token '"@ + token_id + "' resolved to '"@ + hex
        + "' which is not a valid sRGB hex color; skipped"@
}

/// The `scene.invalid_color` message for a literal that does not parse.
pub open spec fn invalid_literal_color_message(subject_id: Seq<char>, hex: Seq<char>) -> Seq<
    char,
> {
    "node '"@ + subject_id + "' has a fill literal '"@ + hex
        + "' that is not a valid sRGB hex color; skipped"@
}

fn advisory(code: &str, parts: &[&str], subject_id: &str) -> (a: Advisory)
    ensures
        a.code@ == code@,
        a.message@ == concat_spec(parts@),
        a.subject is Some && a.subject.unwrap()@ == subject_id@,
{
    Advisory {
        code: String::from_str(code),
        message: concat(parts),
        subject: Some(String::from_str(subject_id)),
    }
}

/// The hex string a color-typed property of node `subject_id` asks to paint
/// with: a token reference takes its color token's hex, a literal is taken
/// as it stands. A token that did not resolve (`scene.unresolved_token`), a
/// token of another type, or a dimension (`scene.wrong_token_type`) gives
/// the advisory instead, and the paint is skipped. A data reference still
/// unbound after the data-binding pass gives `Ok(None)`: there is nothing to
/// paint, and the pass has already reported the reference.
pub fn resolve_color_source<D>(prop: &PropValue<D>, tokens: &TokenTable, subject_id: &str) -> (r:
    Result<Option<ColorSource>, Advisory>)
    ensures
        match *prop {
            PropValue::TokenRef(id) => match token_get(tokens.entries@, id@) {
                Some(e) => match e.value {
                    ResolvedValue::Color(hex) => r matches Ok(Some(ColorSource::Token(t, h))) && t@ == id@
                        && h@ == hex@,
                    _ => r matches Err(a) && advisory_is(
                        a,
                        "scene.wrong_token_type"@,
                        wrong_token_type_message(subject_id@, id@, e.shown@),
                        subject_id@,
                    ),
                },
                None => r matches Err(a) && advisory_is(
                    a,
                    "scene.unresolved_token"@,
                    unresolved_token_message(subject_id@, id@),
                    subject_id@,
                ),
            },
            PropValue::Literal(hex) => r matches Ok(Some(ColorSource::Literal(h))) && h@ == hex@,
            PropValue::Dimension(_) => r matches Err(a) && advisory_is(
                a,
                "scene.wrong_token_type"@,
                dimension_as_color_message(subject_id@),
                subject_id@,
            ),
            PropValue::DataRef(_) => r matches Ok(None),
        },
{
    match prop {
        PropValue::TokenRef(id) => match tokens.get(id.as_str()) {
            Some(TokenEntry { value: ResolvedValue::Color(hex), .. }) => Ok(
                Some(
                    ColorSource::Token(
                        String::from_str(id.as_str()),
                        String::from_str(hex.as_str()),
                    ),
                ),
            ),
            Some(e) => {
                let value = &e.shown;
                let parts = [
                    "node '",
                    subject_id,
                    "' references token '",
                    id.as_str(),
                    "' which resolved to a non-color value (",
                    value.as_str(),
                    "); skipped",
                ];
                let a = advisory("scene.wrong_token_type", &parts, subject_id);
                proof {
                    reveal_with_fuel(concat_spec, 8);
                    assert(parts@.drop_last().drop_last().drop_last().drop_last().drop_last().drop_last().drop_last()
                        =~= Seq::<&str>::empty());
                    assert(concat_spec(parts@) =~= wrong_token_type_message(
                        subject_id@,
                        id@,
                        value@,
                    ));
                }
                Err(a)
            },
            None => {
                let parts = [
                    "node '",
                    subject_id,
                    "' references token '",
                    id.as_str(),
                    "' which did not resolve (check token diagnostics); skipped",
                ];
                let a = advisory("scene.unresolved_token", &parts, subject_id);
                proof {
                    reveal_with_fuel(concat_spec, 6);
                    assert(parts@.drop_last().drop_last().drop_last().drop_last().drop_last()
                        =~= Seq::<&str>::empty());
                    assert(concat_spec(parts@) =~= unresolved_token_message(subject_id@, id@));
                }
                Err(a)
            },
        },
        PropValue::Literal(hex) => Ok(Some(ColorSource::Literal(String::from_str(hex.as_str())))),
        PropValue::Dimension(_) => {
            let parts = [
                "node '",
                subject_id,
                "' has a dimension value where a color is expected; skipped",
            ];
            let a = advisory("scene.wrong_token_type", &parts, subject_id);
            proof {
                reveal_with_fuel(concat_spec, 4);
                assert(parts@.drop_last().drop_last().drop_last() =~= Seq::<&str>::empty());
                assert(concat_spec(parts@) =~= dimension_as_color_message(subject_id@));
            }
            Err(a)
        },
        PropValue::DataRef(_) => Ok(None),
    }
}

/// Finish a color property of node `subject_id` from the outcome of parsing
/// its hex string: the parsed color, or, when the hex is not a valid sRGB
/// color, the `scene.invalid_color` advisory worded for where the hex came
/// from, and the paint is skipped.
pub fn resolve_parsed_color(source: &ColorSource, parsed: Option<Color>, subject_id: &str) -> (r:
    Result<Color, Advisory>)
    ensures
        parsed matches Some(c) ==> r == Ok::<Color, Advisory>(c),
        parsed is None ==> match *source {
            ColorSource::Token(id, hex) => r matches Err(a) && advisory_is(
                a,
                "scene.invalid_color"@,
                invalid_token_color_message(id@, hex@),
                subject_id@,
            ),
            ColorSource::Literal(hex) => r matches Err(a) && advisory_is(
                a,
                "scene.invalid_color"@,
                invalid_literal_color_message(subject_id@, hex@),
                subject_id@,
            ),
        },
{
    match parsed {
        Some(c) => Ok(c),
        None => match source {
            ColorSource::Token(id, hex) => {
                let parts = [
                    "token '",
                    id.as_str(),
                    "' resolved to '",
                    hex.as_str(),
                    "' which is not a valid sRGB hex color; skipped",
                ];
                let a = advisory("scene.invalid_color", &parts, subject_id);
                proof {
                    reveal_with_fuel(concat_spec, 6);
                    assert(parts@.drop_last().drop_last().drop_last().drop_last().drop_last()
                        =~= Seq::<&str>::empty());
                    assert(concat_spec(parts@) =~= invalid_token_color_message(id@, hex@));
                }
                Err(a)
            },
            ColorSource::Literal(hex) => {
                let parts = [
                    "node '",
                    subject_id,
                    "' has a fill literal '",
                    hex.as_str(),
                    "' that is not a valid sRGB hex color; skipped",
                ];
                let a = advisory("scene.invalid_color", &parts, subject_id);
                proof {
                    reveal_with_fuel(concat_spec, 6);
                    assert(parts@.drop_last().drop_last().drop_last().drop_last().drop_last()
                        =~= Seq::<&str>::empty());
                    assert(concat_spec(parts@) =~= invalid_literal_color_message(
                        subject_id@,
                        hex@,
                    ));
                }
                Err(a)
            },
        },
    }
}

/// The family a family-typed property names: a font-family token's name or
/// a literal as it stands. An absent property, a token that did not resolve
/// or is of another type, and a dimension all name `default_family`.
pub open spec fn family_name_spec<D>(
    prop: Option<&PropValue<D>>,
    entries: Seq<TokenEntry>,
    default_family: Seq<char>,
) -> Seq<char> {
    match prop {
        Some(PropValue::TokenRef(id)) => match token_get(entries, id@) {
            Some(e) => match e.value {
                ResolvedValue::FontFamily(name) => name@,
                _ => default_family,
            },
            None => default_family,
        },
        Some(PropValue::Literal(name)) => name@,
        _ => default_family,
    }
}

/// Resolve the family name a text or code node asks to be shaped with (see
/// `family_name_spec`).
pub fn resolve_family_name<D>(
    prop: Option<&PropValue<D>>,
    tokens: &TokenTable,
    default_family: &str,
) -> (r: String)
    ensures
        r@ == family_name_spec(prop, tokens.entries@, default_family@),
{
    match prop {
        Some(PropValue::TokenRef(id)) => match tokens.get(id.as_str()) {
            Some(TokenEntry { value: ResolvedValue::FontFamily(name), .. }) => String::from_str(
                name.as_str(),
            ),
            _ => String::from_str(default_family),
        },
        Some(PropValue::Literal(name)) => String::from_str(name.as_str()),
        _ => String::from_str(default_family),
    }
}

} // verus!
