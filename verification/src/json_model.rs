//! The library's model of a parsed JSON document, and the trusted bridge
//! from the `jsonc_parser` AST to it.
//!
//! The locator only ever needs three things from a parsed value: the shape
//! of a node (string, array, object, other), the decoded text and byte range
//! of each string literal, and ordered name lookup in objects.  The model
//! holds exactly that as plain values, so everything that walks it can be
//! verified; the parser and the structural conversion stay behind trusted
//! wrappers.
use crate::byte_ops::bytes_eq;
use vstd::prelude::*;

verus! {

/// A JSON string literal: its decoded text, and the byte range its quoted
/// literal occupies in the document.
pub struct JsonStr {
    pub value: Vec<u8>,
    pub start: usize,
    pub end: usize,
}

/// One object property: the property name's text and its value, in document
/// order.
pub struct JsonProp {
    pub name: Vec<u8>,
    pub value: JsonValue,
}

/// The shape of a parsed JSON value, as far as the locator reads it.
/// Numbers, booleans and nulls all appear as `Other`: the locator only ever
/// skips them.
pub enum JsonValue {
    Str(JsonStr),
    Arr(Vec<JsonValue>),
    Obj(Vec<JsonProp>),
    Other,
}

/// A failed parse: the parser's error message.
#[derive(Debug)]
pub struct ParseFailure {
    pub message: Vec<u8>,
}

/// The value of the first property named `name`, in document order, like
/// `jsonc_parser`'s own ordered lookup.
pub open spec fn lookup_prop(props: Seq<JsonProp>, name: Seq<u8>) -> Option<JsonValue>
    decreases props.len(),
{
    if props.len() == 0 {
        None
    } else if props[0].name@ == name {
        Some(props[0].value)
    } else {
        lookup_prop(props.drop_first(), name)
    }
}

/// The first property named `name` when it is a string literal, else `None`.
pub open spec fn lookup_str(props: Seq<JsonProp>, name: Seq<u8>) -> Option<JsonStr> {
    match lookup_prop(props, name) {
        Some(JsonValue::Str(s)) => Some(s),
        _ => None,
    }
}

/// The first property named `name` when it is an object, else `None`.
pub open spec fn lookup_obj(props: Seq<JsonProp>, name: Seq<u8>) -> Option<Seq<JsonProp>> {
    match lookup_prop(props, name) {
        Some(JsonValue::Obj(ps)) => Some(ps@),
        _ => None,
    }
}

/// The first property named `name` when it is an array, else `None`.
pub open spec fn lookup_arr(props: Seq<JsonProp>, name: Seq<u8>) -> Option<Seq<JsonValue>> {
    match lookup_prop(props, name) {
        Some(JsonValue::Arr(es)) => Some(es@),
        _ => None,
    }
}

/// Finds the first property with the given name, in document order.
#[verifier::loop_isolation(false)]
pub fn obj_get<'a>(props: &'a Vec<JsonProp>, name: &[u8]) -> (r: Option<&'a JsonValue>)
    ensures
        (match r {
            Some(v) => lookup_prop(props@, name@) == Some(*v),
            None => lookup_prop(props@, name@) is None,
        }),
{
    let mut i: usize = 0;
    proof {
        assert(props@.skip(0) =~= props@);
    }
    while i < props.len()
        invariant
            i <= props@.len(),
            lookup_prop(props@, name@) == lookup_prop(props@.skip(i as int), name@),
        decreases props@.len() - i,
    {
        proof {
            assert(props@.skip(i as int)[0] == props@[i as int]);
            assert(props@.skip(i as int).drop_first() =~= props@.skip(i + 1));
        }
        if bytes_eq(props[i].name.as_slice(), name) {
            return Some(&props[i].value);
        }
        i += 1;
    }
    proof {
        assert(props@.skip(props@.len() as int) =~= Seq::<JsonProp>::empty());
    }
    None
}

/// Finds the first property with the given name when it is a string literal.
pub fn obj_get_string<'a>(props: &'a Vec<JsonProp>, name: &[u8]) -> (r: Option<&'a JsonStr>)
    ensures
        (match r {
            Some(s) => lookup_str(props@, name@) == Some(*s),
            None => lookup_str(props@, name@) is None,
        }),
{
    match obj_get(props, name) {
        Some(v) => match v {
            JsonValue::Str(s) => Some(s),
            _ => None,
        },
        None => None,
    }
}

/// Finds the first property with the given name when it is an object.
pub fn obj_get_object<'a>(props: &'a Vec<JsonProp>, name: &[u8]) -> (r: Option<&'a Vec<JsonProp>>)
    ensures
        (match r {
            Some(ps) => lookup_obj(props@, name@) == Some(ps@),
            None => lookup_obj(props@, name@) is None,
        }),
{
    match obj_get(props, name) {
        Some(v) => match v {
            JsonValue::Obj(ps) => Some(ps),
            _ => None,
        },
        None => None,
    }
}

/// Finds the first property with the given name when it is an array.
pub fn obj_get_array<'a>(props: &'a Vec<JsonProp>, name: &[u8]) -> (r: Option<&'a Vec<JsonValue>>)
    ensures
        (match r {
            Some(es) => lookup_arr(props@, name@) == Some(es@),
            None => lookup_arr(props@, name@) is None,
        }),
{
    match obj_get(props, name) {
        Some(v) => match v {
            JsonValue::Arr(es) => Some(es),
            _ => None,
        },
        None => None,
    }
}

#[verifier::external_type_specification]
#[verifier::external_body]
pub struct ExAstValue<'a>(jsonc_parser::ast::Value<'a>);

#[verifier::external_type_specification]
#[verifier::external_body]
pub struct ExAstObjectProp<'a>(jsonc_parser::ast::ObjectProp<'a>);

/// Relies on the fields of `jsonc_parser::ast::ObjectProp`: the property's
/// name (string or loose word) becomes the model property's name, its value
/// is converted structurally.
#[verifier::external_body]
fn convert_prop(p: &jsonc_parser::ast::ObjectProp<'_>) -> JsonProp {
    let name = match &p.name {
        jsonc_parser::ast::ObjectPropName::String(s) => s.value.as_bytes().to_vec(),
        jsonc_parser::ast::ObjectPropName::Word(w) => w.value.as_bytes().to_vec(),
    };
    JsonProp { name, value: convert_value(&p.value) }
}

/// Relies on the shape of `jsonc_parser::ast::Value`: string literals keep
/// their decoded text and literal byte range, arrays and objects convert
/// element for element in order, every other node becomes `Other`.
#[verifier::external_body]
fn convert_value(v: &jsonc_parser::ast::Value<'_>) -> JsonValue {
    match v {
        jsonc_parser::ast::Value::StringLit(s) => JsonValue::Str(
            JsonStr { value: s.value.as_bytes().to_vec(), start: s.range.start, end: s.range.end },
        ),
        jsonc_parser::ast::Value::Array(a) => JsonValue::Arr(a.elements.iter().map(convert_value).collect()),
        jsonc_parser::ast::Value::Object(o) => JsonValue::Obj(o.properties.iter().map(convert_prop).collect()),
        _ => JsonValue::Other,
    }
}

/// What parsing a text yields: the root value (if the text parses and holds
/// one) in the library's model, or the parser's error message.  Parsing is
/// deterministic, so the outcome is a function of the text alone.
pub uninterp spec fn parsed_doc(text: Seq<u8>) -> Result<Option<JsonValue>, ParseFailure>;

/// Relies on `jsonc_parser::parse_to_ast`, tolerating exactly comments,
/// trailing commas and loose property names: returns the document's root
/// value (when the text parses and holds one) converted to the library's
/// model, or the parser's error message.  Byte offsets in the model refer
/// to the given text.  An empty text scans to no token at all, so it
/// parses successfully to no root value.
#[verifier::external_body]
pub fn parse_document(text: &[u8]) -> (r: Result<Option<JsonValue>, ParseFailure>)
    ensures
        r == parsed_doc(text@),
        r == (if text@.len() == 0 {
            Ok::<Option<JsonValue>, ParseFailure>(None)
        } else {
            parsed_doc(text@)
        }),
{
    let s = match std::str::from_utf8(text) {
        Ok(s) => s,
        Err(e) => return Err(ParseFailure { message: e.to_string().into_bytes() }),
    };
    let parse_options = jsonc_parser::ParseOptions {
        allow_comments: true, allow_loose_object_property_names: true, allow_trailing_commas: true,
        allow_missing_commas: false, allow_single_quoted_strings: false, allow_hexadecimal_numbers: false,
        allow_unary_plus_numbers: false, allow_bare_decimal_point_numbers: false,
        allow_non_finite_numbers: false, allow_extended_string_escapes: false,
    };
    match jsonc_parser::parse_to_ast(s, &jsonc_parser::CollectOptions { comments: jsonc_parser::CommentCollectionStrategy::Off, tokens: false }, &parse_options) {
        Ok(result) => Ok(result.value.map(|v| convert_value(&v))),
        Err(e) => Err(ParseFailure { message: e.to_string().into_bytes() }),
    }
}

} // verus!
