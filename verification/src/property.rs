//! Typed object properties: the weakly-typed key/value scheme carried by map
//! objects and templates, decoded from `property` markup nodes.
//!
//! A property keeps one slot per representable type and a discriminant naming
//! the live slot; the other slots stay at their defaults.  Reading a property
//! through the wrong type therefore yields that type's default, which is the
//! behaviour map consumers rely on.  Float-typed values are carried as their
//! decimal source text: the crate never computes with them, it only stores
//! and hands them on.

use vstd::prelude::*;

verus! {

use crate::num::is_plain_decimal;
use crate::num::is_plain_decimal_chars;
use crate::num::parse_i64_chars;
use crate::num::spec_fmt_i64;
use crate::num::spec_parse_i64;
use crate::num::fmt_i64_chars;
use crate::num::lemma_fmt_parse_i64;
use crate::text::chars_of;
use crate::text::str_eq;
use crate::text::string_from_chars;
use vstd::string::StringExecFns;

/// The discriminant naming a property's live value slot.
#[derive(Clone, Copy, Debug, PartialEq, Eq, Structural)]
pub enum ObjectPropertyValueType {
    Bool,
    Color,
    Float,
    File,
    Int,
    Obj,
    Str,
}

/// A colour as four 8-bit channels.
#[derive(Clone, Copy, Debug, PartialEq, Eq, Structural)]
pub struct Rgba {
    pub r: u8,
    pub g: u8,
    pub b: u8,
    pub a: u8,
}

/// The sentinel colour every colour-typed property decodes to.
pub open spec fn spec_white() -> Rgba {
    Rgba { r: 255, g: 255, b: 255, a: 255 }
}

/// Opaque white, the sentinel value of colour-typed properties.
pub fn white() -> (c: Rgba)
    ensures
        c == spec_white(),
{
    Rgba { r: 255, g: 255, b: 255, a: 255 }
}

/// The mathematical image of an [`ObjectProperty`].
pub ghost struct SpecProp {
    pub name: Seq<char>,
    pub value_b: bool,
    pub value_c: Rgba,
    pub value_f: Seq<char>,
    pub value_s: Seq<char>,
    pub value_i: i64,
    pub value_type: ObjectPropertyValueType,
}

/// One named property of a map object or template.
#[derive(Debug)]
pub struct ObjectProperty {
    pub name: String,
    pub value_b: bool,
    pub value_c: Rgba,
    pub value_f: String,
    pub value_s: String,
    pub value_i: i64,
    pub value_type: ObjectPropertyValueType,
}

impl View for ObjectProperty {
    type V = SpecProp;

    open spec fn view(&self) -> SpecProp {
        SpecProp {
            name: self.name@,
            value_b: self.value_b,
            value_c: self.value_c,
            value_f: self.value_f@,
            value_s: self.value_s@,
            value_i: self.value_i,
            value_type: self.value_type,
        }
    }
}

/// The view of a property sequence.
pub open spec fn props_view(props: Seq<ObjectProperty>) -> Seq<SpecProp> {
    props.map_values(|p: ObjectProperty| p@)
}

/// A property whose every slot is at its default, under the given name.
pub open spec fn spec_default_prop(name: Seq<char>) -> SpecProp {
    SpecProp {
        name,
        value_b: false,
        value_c: spec_white(),
        value_f: seq!['0'],
        value_s: Seq::<char>::empty(),
        value_i: 0,
        value_type: ObjectPropertyValueType::Int,
    }
}

/// Well-formedness: the slots that the discriminant does not select hold
/// their defaults, and a float slot holds decimal text.
pub open spec fn spec_prop_wf(p: SpecProp) -> bool {
    &&& (p.value_type != ObjectPropertyValueType::Bool ==> p.value_b == false)
    &&& p.value_c == spec_white()
    &&& (p.value_type != ObjectPropertyValueType::Float ==> p.value_f == seq!['0'])
    &&& (p.value_type == ObjectPropertyValueType::Float ==> is_plain_decimal(p.value_f))
    &&& (p.value_type != ObjectPropertyValueType::Str && p.value_type
        != ObjectPropertyValueType::File ==> p.value_s == Seq::<char>::empty())
    &&& (p.value_type != ObjectPropertyValueType::Int && p.value_type
        != ObjectPropertyValueType::Obj ==> p.value_i == 0)
}

impl ObjectProperty {
    /// A copy whose fields equal this property's fields.
    pub fn duplicate(&self) -> (r: ObjectProperty)
        ensures
            r@ == self@,
    {
        ObjectProperty {
            name: self.name.clone(),
            value_b: self.value_b,
            value_c: self.value_c,
            value_f: self.value_f.clone(),
            value_s: self.value_s.clone(),
            value_i: self.value_i,
            value_type: self.value_type,
        }
    }
}

/// Why a `property` node failed to decode.
#[derive(Clone, Copy, Debug, PartialEq, Eq, Structural)]
pub enum DecodeError {
    /// The node carries no `value` attribute though its type needs one.
    MissingValue,
    /// A boolean-typed value is neither `true` nor `false`.
    BadBool,
    /// An integer- or object-typed value is not a decimal integer.
    BadInt,
    /// A float-typed value is not a plain decimal number.
    BadFloat,
    /// The `type` attribute names no known property type.
    UnknownType,
}

/// The view of an optional attribute value.
pub open spec fn opt_view(o: Option<String>) -> Option<Seq<char>> {
    match o {
        Some(s) => Some(s@),
        None => None,
    }
}

/// Decoding of a `property` node, on character sequences.  Dispatch is keyed
/// on the `type` attribute; an absent `type`, like the tag `string`, yields
/// the string variant.  A colour-typed value is ignored: such a property
/// always decodes to opaque white.
pub open spec fn spec_decode_property(
    name: Seq<char>,
    ptype: Option<Seq<char>>,
    value: Option<Seq<char>>,
) -> Result<SpecProp, DecodeError> {
    match ptype {
        None => spec_decode_str(name, value),
        Some(t) => if t == "bool"@ {
            match value {
                None => Err(DecodeError::MissingValue),
                Some(v) => if v == "true"@ {
                    Ok(
                        SpecProp {
                            value_b: true,
                            value_type: ObjectPropertyValueType::Bool,
                            ..spec_default_prop(name)
                        },
                    )
                } else if v == "false"@ {
                    Ok(
                        SpecProp {
                            value_b: false,
                            value_type: ObjectPropertyValueType::Bool,
                            ..spec_default_prop(name)
                        },
                    )
                } else {
                    Err(DecodeError::BadBool)
                },
            }
        } else if t == "color"@ {
            Ok(SpecProp { value_type: ObjectPropertyValueType::Color, ..spec_default_prop(name) })
        } else if t == "float"@ {
            match value {
                None => Err(DecodeError::MissingValue),
                Some(v) => if is_plain_decimal(v) {
                    Ok(
                        SpecProp {
                            value_f: v,
                            value_type: ObjectPropertyValueType::Float,
                            ..spec_default_prop(name)
                        },
                    )
                } else {
                    Err(DecodeError::BadFloat)
                },
            }
        } else if t == "file"@ {
            match value {
                None => Err(DecodeError::MissingValue),
                Some(v) => Ok(
                    SpecProp {
                        value_s: v,
                        value_type: ObjectPropertyValueType::File,
                        ..spec_default_prop(name)
                    },
                ),
            }
        } else if t == "int"@ {
            match value {
                None => Err(DecodeError::MissingValue),
                Some(v) => match spec_parse_i64(v) {
                    Some(n) => Ok(
                        SpecProp {
                            value_i: n,
                            value_type: ObjectPropertyValueType::Int,
                            ..spec_default_prop(name)
                        },
                    ),
                    None => Err(DecodeError::BadInt),
                },
            }
        } else if t == "object"@ {
            match value {
                None => Err(DecodeError::MissingValue),
                Some(v) => match spec_parse_i64(v) {
                    Some(n) => Ok(
                        SpecProp {
                            value_i: n,
                            value_type: ObjectPropertyValueType::Obj,
                            ..spec_default_prop(name)
                        },
                    ),
                    None => Err(DecodeError::BadInt),
                },
            }
        } else if t == "string"@ {
            spec_decode_str(name, value)
        } else {
            Err(DecodeError::UnknownType)
        },
    }
}

/// The string variant: the value text kept as it stands.
pub open spec fn spec_decode_str(name: Seq<char>, value: Option<Seq<char>>) -> Result<
    SpecProp,
    DecodeError,
> {
    match value {
        None => Err(DecodeError::MissingValue),
        Some(v) => Ok(
            SpecProp { value_s: v, value_type: ObjectPropertyValueType::Str, ..spec_default_prop(name) },
        ),
    }
}

/// Decodes one `property` node from its `name`, optional `type` and optional
/// `value` attributes.
pub fn decode_property(name: String, ptype: Option<String>, value: Option<String>) -> (r: Result<
    ObjectProperty,
    DecodeError,
>)
    ensures
        match r {
            Ok(p) => spec_decode_property(name@, opt_view(ptype), opt_view(value)) == Ok::<
                SpecProp,
                DecodeError,
            >(p@) && spec_prop_wf(p@),
            Err(e) => spec_decode_property(name@, opt_view(ptype), opt_view(value)) == Err::<
                SpecProp,
                DecodeError,
            >(e),
        },
{
    let base = default_property(name);
    match ptype {
        None => decode_str_value(base, value),
        Some(t) => {
            if str_eq(t.as_str(), "bool") {
                match value {
                    None => Err(DecodeError::MissingValue),
                    Some(v) => {
                        if str_eq(v.as_str(), "true") {
                            Ok(
                                ObjectProperty {
                                    value_b: true,
                                    value_type: ObjectPropertyValueType::Bool,
                                    ..base
                                },
                            )
                        } else if str_eq(v.as_str(), "false") {
                            Ok(
                                ObjectProperty {
                                    value_b: false,
                                    value_type: ObjectPropertyValueType::Bool,
                                    ..base
                                },
                            )
                        } else {
                            Err(DecodeError::BadBool)
                        }
                    },
                }
            } else if str_eq(t.as_str(), "color") {
                Ok(ObjectProperty { value_type: ObjectPropertyValueType::Color, ..base })
            } else if str_eq(t.as_str(), "float") {
                match value {
                    None => Err(DecodeError::MissingValue),
                    Some(v) => {
                        let cs = chars_of(v.as_str());
                        if is_plain_decimal_chars(&cs) {
                            Ok(
                                ObjectProperty {
                                    value_f: v,
                                    value_type: ObjectPropertyValueType::Float,
                                    ..base
                                },
                            )
                        } else {
                            Err(DecodeError::BadFloat)
                        }
                    },
                }
            } else if str_eq(t.as_str(), "file") {
                match value {
                    None => Err(DecodeError::MissingValue),
                    Some(v) => Ok(
                        ObjectProperty {
                            value_s: v,
                            value_type: ObjectPropertyValueType::File,
                            ..base
                        },
                    ),
                }
            } else if str_eq(t.as_str(), "int") {
                match value {
                    None => Err(DecodeError::MissingValue),
                    Some(v) => {
                        let cs = chars_of(v.as_str());
                        match parse_i64_chars(&cs) {
                            Some(n) => Ok(
                                ObjectProperty {
                                    value_i: n,
                                    value_type: ObjectPropertyValueType::Int,
                                    ..base
                                },
                            ),
                            None => Err(DecodeError::BadInt),
                        }
                    },
                }
            } else if str_eq(t.as_str(), "object") {
                match value {
                    None => Err(DecodeError::MissingValue),
                    Some(v) => {
                        let cs = chars_of(v.as_str());
                        match parse_i64_chars(&cs) {
                            Some(n) => Ok(
                                ObjectProperty {
                                    value_i: n,
                                    value_type: ObjectPropertyValueType::Obj,
                                    ..base
                                },
                            ),
                            None => Err(DecodeError::BadInt),
                        }
                    },
                }
            } else if str_eq(t.as_str(), "string") {
                decode_str_value(base, value)
            } else {
                Err(DecodeError::UnknownType)
            }
        },
    }
}

/// A property with every slot at its default, under the given name.
pub fn default_property(name: String) -> (r: ObjectProperty)
    ensures
        r@ == spec_default_prop(name@),
{
    let zero_text = String::from_str("0");
    proof {
        reveal_strlit("0");
        assert(zero_text@ =~= seq!['0']);
    }
    ObjectProperty {
        name,
        value_b: false,
        value_c: white(),
        value_f: zero_text,
        value_s: String::new(),
        value_i: 0,
        value_type: ObjectPropertyValueType::Int,
    }
}

fn decode_str_value(base: ObjectProperty, value: Option<String>) -> (r: Result<
    ObjectProperty,
    DecodeError,
>)
    requires
        base@ == spec_default_prop(base@.name),
    ensures
        match r {
            Ok(p) => spec_decode_str(base@.name, opt_view(value)) == Ok::<SpecProp, DecodeError>(
                p@,
            ) && spec_prop_wf(p@),
            Err(e) => spec_decode_str(base@.name, opt_view(value)) == Err::<SpecProp, DecodeError>(
                e,
            ),
        },
{
    match value {
        None => Err(DecodeError::MissingValue),
        Some(v) => Ok(ObjectProperty { value_s: v, value_type: ObjectPropertyValueType::Str, ..base }),
    }
}

// ---------------------------------------------------------------------------
// Encoding
// ---------------------------------------------------------------------------

/// The `type` attribute a property encodes to; the string variant encodes to
/// an absent attribute.
pub open spec fn spec_encode_type(p: SpecProp) -> Option<Seq<char>> {
    match p.value_type {
        ObjectPropertyValueType::Bool => Some("bool"@),
        ObjectPropertyValueType::Color => Some("color"@),
        ObjectPropertyValueType::Float => Some("float"@),
        ObjectPropertyValueType::File => Some("file"@),
        ObjectPropertyValueType::Int => Some("int"@),
        ObjectPropertyValueType::Obj => Some("object"@),
        ObjectPropertyValueType::Str => None,
    }
}

/// The `value` attribute a property encodes to.
pub open spec fn spec_encode_value(p: SpecProp) -> Seq<char> {
    match p.value_type {
        ObjectPropertyValueType::Bool => if p.value_b {
            "true"@
        } else {
            "false"@
        },
        ObjectPropertyValueType::Color => Seq::<char>::empty(),
        ObjectPropertyValueType::Float => p.value_f,
        ObjectPropertyValueType::File => p.value_s,
        ObjectPropertyValueType::Int => spec_fmt_i64(p.value_i),
        ObjectPropertyValueType::Obj => spec_fmt_i64(p.value_i),
        ObjectPropertyValueType::Str => p.value_s,
    }
}

/// Encodes a property back into the `type` and `value` attribute texts of a
/// `property` node.
pub fn encode_property(p: &ObjectProperty) -> (r: (Option<String>, String))
    ensures
        opt_view(r.0) == spec_encode_type(p@),
        r.1@ == spec_encode_value(p@),
{
    match p.value_type {
        ObjectPropertyValueType::Bool => (
            Some(String::from_str("bool")),
            if p.value_b {
                String::from_str("true")
            } else {
                String::from_str("false")
            },
        ),
        ObjectPropertyValueType::Color => (Some(String::from_str("color")), String::new()),
        ObjectPropertyValueType::Float => (Some(String::from_str("float")), p.value_f.clone()),
        ObjectPropertyValueType::File => (Some(String::from_str("file")), p.value_s.clone()),
        ObjectPropertyValueType::Int => (
            Some(String::from_str("int")),
            string_from_chars(&fmt_i64_chars(p.value_i)),
        ),
        ObjectPropertyValueType::Obj => (
            Some(String::from_str("object")),
            string_from_chars(&fmt_i64_chars(p.value_i)),
        ),
        ObjectPropertyValueType::Str => (None, p.value_s.clone()),
    }
}

/// Decoding what a well-formed property encodes to returns the property
/// itself.  A colour-typed property carries the white sentinel, so it too
/// comes back unchanged, whatever colour text originally produced it.
#[verifier::rlimit(50)]
pub proof fn lemma_property_round_trip(p: SpecProp)
    requires
        spec_prop_wf(p),
    ensures
        spec_decode_property(p.name, spec_encode_type(p), Some(spec_encode_value(p))) == Ok::<
            SpecProp,
            DecodeError,
        >(p),
{
    reveal_strlit("bool");
    reveal_strlit("color");
    reveal_strlit("float");
    reveal_strlit("file");
    reveal_strlit("int");
    reveal_strlit("object");
    reveal_strlit("string");
    reveal_strlit("true");
    reveal_strlit("false");
    reveal_strlit("0");
    // The type tags decode dispatches over are pairwise distinct: those of
    // equal length differ in their first character.
    assert("bool"@.len() == 4 && "color"@.len() == 5 && "float"@.len() == 5 && "file"@.len() == 4
        && "int"@.len() == 3 && "object"@.len() == 6 && "string"@.len() == 6 && "true"@.len() == 4
        && "false"@.len() == 5);
    assert("color"@[0] == 'c' && "float"@[0] == 'f' && "bool"@[0] == 'b' && "file"@[0] == 'f'
        && "object"@[0] == 'o' && "string"@[0] == 's');
    let t = spec_encode_type(p);
    let v = spec_encode_value(p);
    match p.value_type {
        ObjectPropertyValueType::Bool => {
            assert(spec_decode_property(p.name, t, Some(v)) == Ok::<SpecProp, DecodeError>(p));
        },
        ObjectPropertyValueType::Color => {
            assert(spec_decode_property(p.name, t, Some(v)) == Ok::<SpecProp, DecodeError>(p));
        },
        ObjectPropertyValueType::Float => {
            assert(spec_decode_property(p.name, t, Some(v)) == Ok::<SpecProp, DecodeError>(p));
        },
        ObjectPropertyValueType::File => {
            assert(spec_decode_property(p.name, t, Some(v)) == Ok::<SpecProp, DecodeError>(p));
        },
        ObjectPropertyValueType::Int => {
            lemma_fmt_parse_i64(p.value_i);
            assert(spec_decode_property(p.name, t, Some(v)) == Ok::<SpecProp, DecodeError>(p));
        },
        ObjectPropertyValueType::Obj => {
            lemma_fmt_parse_i64(p.value_i);
            assert(spec_decode_property(p.name, t, Some(v)) == Ok::<SpecProp, DecodeError>(p));
        },
        ObjectPropertyValueType::Str => {
            assert(spec_decode_property(p.name, t, Some(v)) == Ok::<SpecProp, DecodeError>(p));
        },
    }
}

// ---------------------------------------------------------------------------
// Lookup by name
// ---------------------------------------------------------------------------

/// The position of the first property named `name` at or after `i`.
pub open spec fn spec_find_prop_from(props: Seq<SpecProp>, name: Seq<char>, i: int) -> Option<int>
    decreases props.len() - i,
{
    if i < 0 || i >= props.len() {
        None
    } else if props[i].name == name {
        Some(i)
    } else {
        spec_find_prop_from(props, name, i + 1)
    }
}

/// The first property named `name`, if any.
pub open spec fn spec_find_prop(props: Seq<SpecProp>, name: Seq<char>) -> Option<SpecProp> {
    match spec_find_prop_from(props, name, 0) {
        Some(i) => Some(props[i]),
        None => None,
    }
}

/// The position of the first property named `name`, if any.
pub fn find_property(props: &Vec<ObjectProperty>, name: &str) -> (r: Option<usize>)
    ensures
        match r {
            Some(i) => i < props@.len() && spec_find_prop_from(props_view(props@), name@, 0)
                == Some(i as int),
            None => spec_find_prop_from(props_view(props@), name@, 0) is None,
        },
{
    let ghost pv = props_view(props@);
    let mut i: usize = 0;
    while i < props.len()
        invariant
            i <= props@.len(),
            pv == props_view(props@),
            pv.len() == props@.len(),
            spec_find_prop_from(pv, name@, 0) == spec_find_prop_from(pv, name@, i as int),
        decreases props@.len() - i,
    {
        proof {
            assert(pv[i as int] == props@[i as int]@);
        }
        if str_eq(props[i].name.as_str(), name) {
            return Some(i);
        }
        i = i + 1;
    }
    None
}

} // verus!
