use vstd::prelude::*;

use crate::json::JsonValue;
use crate::json::get_bool;
use crate::json::get_u64;
use crate::json::json_as_str;
use crate::json::json_get;
use crate::text::str_eq;

verus! {

// ---------------------------------------------------------------------------
// One parameter of an operation's input or output schema.
// ---------------------------------------------------------------------------

/// The value type a parameter can carry.
#[derive(Debug, Clone, Copy, PartialEq, Eq, Structural)]
pub enum Type {
    /// A text value, rendered as `String`.
    Text,
    /// An unsigned number, rendered as `u64`.
    Number,
    /// A signed integer, rendered as `i64`.
    Integer,
    /// A boolean, rendered as `bool`.
    Boolean,
}

/// The type named by a schema's `type` member, when it names one.
pub open spec fn type_word_of(j: JsonValue) -> Option<Type> {
    if json_as_str(j) == Some("string"@) {
        Some(Type::Text)
    } else if json_as_str(j) == Some("number"@) {
        Some(Type::Number)
    } else if json_as_str(j) == Some("integer"@) {
        Some(Type::Integer)
    } else if json_as_str(j) == Some("boolean"@) {
        Some(Type::Boolean)
    } else {
        None
    }
}

impl Type {
    /// The Rust type the parameter renders to in generated code.
    pub fn rust_type(&self) -> (r: &'static str)
        ensures
            match self {
                Type::Text => r@ == "String"@,
                Type::Number => r@ == "u64"@,
                Type::Integer => r@ == "i64"@,
                Type::Boolean => r@ == "bool"@,
            },
    {
        match self {
            Type::Text => "String",
            Type::Number => "u64",
            Type::Integer => "i64",
            Type::Boolean => "bool",
        }
    }

    /// Reads a `type` member; fails on anything but the four type words.
    pub fn from_json(value: &JsonValue) -> (r: Result<Type, Error>)
        ensures
            match type_word_of(*value) {
                Some(t) => r matches Ok(v) && v == t,
                None => r matches Err(e) && e matches Error::InvalidField(f) && f@ == "type"@,
            },
    {
        match value.as_str() {
            Some(s) => {
                if str_eq(s, "string") {
                    Ok(Type::Text)
                } else if str_eq(s, "number") {
                    Ok(Type::Number)
                } else if str_eq(s, "integer") {
                    Ok(Type::Integer)
                } else if str_eq(s, "boolean") {
                    Ok(Type::Boolean)
                } else {
                    Err(Error::InvalidField("type"))
                }
            },
            None => Err(Error::InvalidField("type")),
        }
    }
}

/// A parameter's default value.
#[derive(Debug)]
pub enum DefaultValue {
    Text(String),
    Boolean(bool),
    Number(u64),
}

/// The default value a JSON value denotes: a string, a boolean, or an
/// unsigned 64-bit number; anything else is rejected.
pub open spec fn default_of(j: JsonValue) -> Option<DefaultValue> {
    match j {
        JsonValue::Text(s) => Some(DefaultValue::Text(s)),
        JsonValue::Bool(b) => Some(DefaultValue::Boolean(b)),
        JsonValue::Number(n) => match n {
            Some(v) => Some(DefaultValue::Number(v)),
            None => None,
        },
        _ => None,
    }
}

impl DefaultValue {
    /// Reads a `default` member.
    pub fn from_json(value: &JsonValue) -> (r: Result<DefaultValue, Error>)
        ensures
            match default_of(*value) {
                Some(d) => r matches Ok(v) && v == d,
                None => r matches Err(e) && e matches Error::InvalidField(f) && f@ == "default"@,
            },
    {
        match value {
            JsonValue::Text(s) => Ok(DefaultValue::Text(s.clone())),
            JsonValue::Bool(b) => Ok(DefaultValue::Boolean(*b)),
            JsonValue::Number(n) => match n {
                Some(v) => Ok(DefaultValue::Number(*v)),
                None => Err(Error::InvalidField("default")),
            },
            _ => Err(Error::InvalidField("default")),
        }
    }
}

/// One named parameter of a schema.
#[derive(Debug)]
pub struct Parameter {
    pub ty: Type,
    pub description: Option<String>,
    pub default: Option<DefaultValue>,
    pub required: Option<bool>,
    pub min_length: Option<u64>,
    pub max_length: Option<u64>,
    pub minimum: Option<u64>,
    pub maximum: Option<u64>,
}

/// Whether a schema object yields a parameter: it must carry one of the
/// four type words under `type`, and its `default`, when present, must be
/// a string, boolean or unsigned number.
pub open spec fn param_ok(j: JsonValue) -> bool {
    &&& json_get(j, "type"@) matches Some(t) && type_word_of(t) is Some
    &&& (json_get(j, "default"@) matches Some(d) ==> default_of(d) is Some)
}

/// Whether `p` is the parameter the schema object `j` yields, field by
/// field.
pub open spec fn param_matches(p: Parameter, j: JsonValue) -> bool {
    &&& type_word_of(json_get(j, "type"@).unwrap()) == Some(p.ty)
    &&& (match crate::json::get_str(j, "description"@) {
        Some(s) => p.description matches Some(d) && d@ == s,
        None => p.description is None,
    })
    &&& p.default == (match json_get(j, "default"@) {
        Some(d) => default_of(d),
        None => None::<DefaultValue>,
    })
    &&& p.required == get_bool(j, "required"@)
    &&& p.min_length == get_u64(j, "minLength"@)
    &&& p.max_length == get_u64(j, "maxLength"@)
    &&& p.minimum == get_u64(j, "minimum"@)
    &&& p.maximum == get_u64(j, "maximum"@)
}

impl Parameter {
    /// Reads a parameter out of a schema object.  Succeeds exactly when
    /// the object yields a parameter; the error names the offending
    /// member: a missing `type`, an unknown type word, or a malformed
    /// `default`.
    pub fn from_json(value: &JsonValue) -> (r: Result<Parameter, Error>)
        ensures
            r is Ok <==> param_ok(*value),
            r matches Ok(p) ==> param_matches(p, *value),
            json_get(*value, "type"@) is None ==> (r matches Err(e) && e matches
                Error::MissingField(f) && f@ == "type"@),
            (json_get(*value, "type"@) matches Some(t) && type_word_of(t) is None) ==> (
            r matches Err(e) && e matches Error::InvalidField(f) && f@ == "type"@),
            ((json_get(*value, "type"@) matches Some(t) && type_word_of(t) is Some) && (json_get(
                *value,
                "default"@,
            ) matches Some(d) && default_of(d) is None)) ==> (r matches Err(e) && e matches
                Error::InvalidField(f) && f@ == "default"@),
    {
        let ty = match value.get("type") {
            None => {
                return Err(Error::MissingField("type"));
            },
            Some(t) => match Type::from_json(t) {
                Ok(ty) => ty,
                Err(e) => {
                    return Err(e);
                },
            },
        };
        let description = match value.get_text("description") {
            Some(s) => Some(String::from_str(s)),
            None => None,
        };
        let default = match value.get("default") {
            Some(d) => match DefaultValue::from_json(d) {
                Ok(v) => Some(v),
                Err(e) => {
                    return Err(e);
                },
            },
            None => None,
        };
        let required = value.get_boolean("required");
        let min_length = value.get_number("minLength");
        let max_length = value.get_number("maxLength");
        let minimum = value.get_number("minimum");
        let maximum = value.get_number("maximum");
        Ok(
            Parameter {
                ty,
                description,
                default,
                required,
                min_length,
                max_length,
                minimum,
                maximum,
            },
        )
    }
}

/// The reason a parameter or schema member was rejected.
#[derive(Debug, Clone, Copy, PartialEq, Eq)]
pub enum Error {
    MissingField(&'static str),
    InvalidField(&'static str),
}

} // verus!
