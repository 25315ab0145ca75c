use vstd::prelude::*;

use vstd::string::StringExecFns;

use crate::json::JsonValue;
use crate::json::get_str;
use crate::json::json_get;
use crate::parameter::Parameter;
use crate::parameter::param_matches;
use crate::parameter::param_ok;

verus! {

// ---------------------------------------------------------------------------
// The input and output schemas of an operation: an encoding, a schema
// type, the required member names and the named parameters.
// ---------------------------------------------------------------------------

/// The declared content type of an operation's body.
#[verifier::external_type_specification]
#[verifier::external_body]
pub struct ExMime(mime::Mime);

/// Whether a string parses as a content type; the verdict depends on the
/// characters alone.
pub uninterp spec fn mime_ok(s: Seq<char>) -> bool;

/// Relies on mime's `FromStr`: parsing a fixed string is a pure function
/// of its characters.
#[verifier::external_body]
fn parse_mime(s: &str) -> (r: Option<mime::Mime>)
    ensures
        r is Some <==> mime_ok(s@),
{
    match s.parse::<mime::Mime>() {
        Ok(m) => Some(m),
        Err(_) => None,
    }
}

/// The reason a schema was rejected.
#[derive(Debug)]
pub enum SchemaError {
    MissingField(&'static str),
    InvalidField(&'static str),
    /// A parameter inside `properties` was rejected.
    Parameter(crate::parameter::Error),
}

/// Whether every element of `items` is a string.
pub open spec fn all_strings(items: Seq<JsonValue>) -> bool {
    forall|i: int| 0 <= i < items.len() ==> #[trigger] items[i] is Text
}

/// Whether every value of `entries` is an object that yields a parameter.
pub open spec fn all_params_ok(entries: Seq<(String, JsonValue)>) -> bool {
    forall|i: int|
        0 <= i < entries.len() ==> (#[trigger] entries[i].1) is Object && param_ok(entries[i].1)
}

/// Whether an object yields an input/output schema: a string `type`, an
/// array `required` of strings, and an object `properties` whose values
/// all yield parameters.
pub open spec fn io_schema_ok(j: JsonValue) -> bool {
    &&& json_get(j, "type"@) matches Some(t) && t is Text
    &&& json_get(j, "required"@) matches Some(rq) && rq matches JsonValue::Array(a) && all_strings(
        a@,
    )
    &&& json_get(j, "properties"@) matches Some(ps) && ps matches JsonValue::Object(es)
        && all_params_ok(es@)
}

/// The body schema of an operation's input or output.
#[derive(Debug)]
pub struct IoSchema {
    schema_type: String,
    required: Vec<String>,
    properties: Vec<(String, Parameter)>,
}

impl IoSchema {
    pub closed spec fn spec_type(&self) -> Seq<char> {
        self.schema_type@
    }

    pub closed spec fn spec_required(&self) -> Seq<String> {
        self.required@
    }

    pub closed spec fn spec_properties(&self) -> Seq<(String, Parameter)> {
        self.properties@
    }

    /// Whether this schema is what the object `j` describes.
    pub open spec fn matches_json(&self, j: JsonValue) -> bool {
        &&& get_str(j, "type"@) == Some(self.spec_type())
        &&& (json_get(j, "required"@) matches Some(rq) && rq matches JsonValue::Array(a) && {
            &&& self.spec_required().len() == a@.len()
            &&& forall|i: int|
                0 <= i < a@.len() ==> (a@[i] matches JsonValue::Text(s) && (
                #[trigger] self.spec_required()[i])@ == s@)
        })
        &&& (json_get(j, "properties"@) matches Some(ps) && ps matches JsonValue::Object(es) && {
            &&& self.spec_properties().len() == es@.len()
            &&& forall|i: int|
                0 <= i < es@.len() ==> (#[trigger] self.spec_properties()[i]).0 == es@[i].0
                    && param_matches(self.spec_properties()[i].1, es@[i].1)
        })
    }

    pub fn required(&self) -> (r: &Vec<String>)
        ensures
            r@ == self.spec_required(),
    {
        &self.required
    }

    pub fn properties(&self) -> (r: &Vec<(String, Parameter)>)
        ensures
            r@ == self.spec_properties(),
    {
        &self.properties
    }

    /// Reads a schema out of an object: its `type`, the `required` member
    /// names in order, and every property as a parameter, in order.
    /// Succeeds exactly when the object yields a schema.
    #[verifier::loop_isolation(false)]
    pub fn from_json(value: &JsonValue) -> (r: Result<IoSchema, SchemaError>)
        ensures
            r is Ok <==> io_schema_ok(*value),
            r matches Ok(s) ==> s.matches_json(*value),
    {
        let schema_type = match value.get("type") {
            None => {
                return Err(SchemaError::MissingField("type"));
            },
            Some(t) => match t.as_str() {
                Some(s) => String::from_str(s),
                None => {
                    return Err(SchemaError::InvalidField("type"));
                },
            },
        };
        let required: Vec<String> = match value.get("required") {
            None => {
                return Err(SchemaError::MissingField("required"));
            },
            Some(rq) => match rq.as_array() {
                None => {
                    return Err(SchemaError::InvalidField("required"));
                },
                Some(items) => {
                    let mut out: Vec<String> = Vec::new();
                    let mut i: usize = 0;
                    while i < items.len()
                        invariant
                            0 <= i <= items@.len(),
                            out@.len() == i,
                            forall|k: int| 0 <= k < i ==> #[trigger] items@[k] is Text,
                            forall|k: int|
                                0 <= k < i ==> (items@[k] matches JsonValue::Text(s) && (
                                #[trigger] out@[k])@ == s@),
                        decreases items@.len() - i,
                    {
                        match items[i].as_str() {
                            Some(s) => {
                                out.push(String::from_str(s));
                            },
                            None => {
                                return Err(SchemaError::InvalidField("required"));
                            },
                        }
                        i += 1;
                    }
                    out
                },
            },
        };
        let properties: Vec<(String, Parameter)> = match value.get("properties") {
            None => {
                return Err(SchemaError::MissingField("properties"));
            },
            Some(ps) => match ps.as_object() {
                None => {
                    return Err(SchemaError::InvalidField("properties"));
                },
                Some(entries) => {
                    let mut out: Vec<(String, Parameter)> = Vec::new();
                    let mut i: usize = 0;
                    while i < entries.len()
                        invariant
                            0 <= i <= entries@.len(),
                            out@.len() == i,
                            forall|k: int|
                                0 <= k < i ==> (#[trigger] entries@[k].1) is Object && param_ok(
                                    entries@[k].1,
                                ),
                            forall|k: int|
                                0 <= k < i ==> (#[trigger] out@[k]).0 == entries@[k].0
                                    && param_matches(out@[k].1, entries@[k].1),
                        decreases entries@.len() - i,
                    {
                        let (k, v) = &entries[i];
                        match v.as_object() {
                            None => {
                                return Err(SchemaError::InvalidField("properties"));
                            },
                            Some(_) => {},
                        }
                        match Parameter::from_json(v) {
                            Ok(p) => {
                                out.push((k.clone(), p));
                            },
                            Err(e) => {
                                return Err(SchemaError::Parameter(e));
                            },
                        }
                        i += 1;
                    }
                    out
                },
            },
        };
        Ok(IoSchema { schema_type, required, properties })
    }
}

/// Whether an object yields an input or output: an `encoding` string that
/// parses as a content type, and a `schema` object that yields a schema.
pub open spec fn io_ok(j: JsonValue) -> bool {
    &&& get_str(j, "encoding"@) matches Some(enc) && mime_ok(enc)
    &&& json_get(j, "schema"@) matches Some(sc) && sc is Object && io_schema_ok(sc)
}

/// What an operation accepts as its request body.
#[derive(Debug)]
pub struct Input {
    pub description: Option<String>,
    pub encoding: mime::Mime,
    pub schema: IoSchema,
}

impl Input {
    pub fn required(&self) -> (r: &Vec<String>)
        ensures
            r@ == self.schema.spec_required(),
    {
        self.schema.required()
    }

    pub fn properties(&self) -> (r: &Vec<(String, Parameter)>)
        ensures
            r@ == self.schema.spec_properties(),
    {
        self.schema.properties()
    }

    /// Reads an input out of an object.  Succeeds exactly when the object
    /// yields one.
    pub fn from_json(value: &JsonValue) -> (r: Result<Input, SchemaError>)
        ensures
            r is Ok <==> io_ok(*value),
            r matches Ok(inp) ==> {
                &&& (match get_str(*value, "description"@) {
                    Some(s) => inp.description matches Some(d) && d@ == s,
                    None => inp.description is None,
                })
                &&& json_get(*value, "schema"@) matches Some(sc) && inp.schema.matches_json(sc)
            },
    {
        let description = match value.get_text("description") {
            Some(s) => Some(String::from_str(s)),
            None => None,
        };
        let encoding = match value.get("encoding") {
            None => {
                return Err(SchemaError::MissingField("encoding"));
            },
            Some(e) => match e.as_str() {
                None => {
                    return Err(SchemaError::InvalidField("encoding"));
                },
                Some(s) => match parse_mime(s) {
                    Some(m) => m,
                    None => {
                        return Err(SchemaError::InvalidField("encoding"));
                    },
                },
            },
        };
        let schema = match value.get("schema") {
            None => {
                return Err(SchemaError::MissingField("schema"));
            },
            Some(sc) => {
                match sc.as_object() {
                    None => {
                        return Err(SchemaError::InvalidField("schema"));
                    },
                    Some(_) => {},
                }
                match IoSchema::from_json(sc) {
                    Ok(s) => s,
                    Err(e) => {
                        return Err(e);
                    },
                }
            },
        };
        Ok(Input { description, encoding, schema })
    }
}

/// What an operation returns as its response body.
#[derive(Debug)]
pub struct Output {
    pub description: Option<String>,
    pub encoding: mime::Mime,
    pub schema: IoSchema,
}

impl Output {
    pub fn required(&self) -> (r: &Vec<String>)
        ensures
            r@ == self.schema.spec_required(),
    {
        self.schema.required()
    }

    pub fn properties(&self) -> (r: &Vec<(String, Parameter)>)
        ensures
            r@ == self.schema.spec_properties(),
    {
        self.schema.properties()
    }

    /// Reads an output out of an object.  Succeeds exactly when the
    /// object yields one.
    pub fn from_json(value: &JsonValue) -> (r: Result<Output, SchemaError>)
        ensures
            r is Ok <==> io_ok(*value),
            r matches Ok(out) ==> {
                &&& (match get_str(*value, "description"@) {
                    Some(s) => out.description matches Some(d) && d@ == s,
                    None => out.description is None,
                })
                &&& json_get(*value, "schema"@) matches Some(sc) && out.schema.matches_json(sc)
            },
    {
        let description = match value.get_text("description") {
            Some(s) => Some(String::from_str(s)),
            None => None,
        };
        let encoding = match value.get("encoding") {
            None => {
                return Err(SchemaError::MissingField("encoding"));
            },
            Some(e) => match e.as_str() {
                None => {
                    return Err(SchemaError::InvalidField("encoding"));
                },
                Some(s) => match parse_mime(s) {
                    Some(m) => m,
                    None => {
                        return Err(SchemaError::InvalidField("encoding"));
                    },
                },
            },
        };
        let schema = match value.get("schema") {
            None => {
                return Err(SchemaError::MissingField("schema"));
            },
            Some(sc) => {
                match sc.as_object() {
                    None => {
                        return Err(SchemaError::InvalidField("schema"));
                    },
                    Some(_) => {},
                }
                match IoSchema::from_json(sc) {
                    Ok(s) => s,
                    Err(e) => {
                        return Err(e);
                    },
                }
            },
        };
        Ok(Output { description, encoding, schema })
    }
}

/// Whether every element of `items` is an object carrying a string
/// `name`.
pub open spec fn all_variants_ok(items: Seq<JsonValue>) -> bool {
    forall|i: int|
        0 <= i < items.len() ==> (#[trigger] items[i]) is Object && get_str(items[i], "name"@)
            is Some
}

/// One declared error of an operation.
#[derive(Debug)]
pub struct ErrorVariant {
    name: String,
}

impl ErrorVariant {
    pub closed spec fn spec_name(&self) -> Seq<char> {
        self.name@
    }

    pub fn name(&self) -> (r: &str)
        ensures
            r@ == self.spec_name(),
    {
        self.name.as_str()
    }

    /// Reads one error variant: an object with a string `name`.
    pub fn from_json(value: &JsonValue) -> (r: Result<ErrorVariant, SchemaError>)
        ensures
            r is Ok <==> get_str(*value, "name"@) is Some,
            r matches Ok(v) ==> get_str(*value, "name"@) == Some(v.spec_name()),
    {
        match value.get("name") {
            None => Err(SchemaError::MissingField("name")),
            Some(n) => match n.as_str() {
                None => Err(SchemaError::InvalidField("name")),
                Some(s) => Ok(ErrorVariant { name: String::from_str(s) }),
            },
        }
    }
}

/// The declared errors of an operation.
#[derive(Debug)]
pub struct Error {
    variants: Vec<ErrorVariant>,
}

impl Error {
    pub closed spec fn spec_variants(&self) -> Seq<ErrorVariant> {
        self.variants@
    }

    pub fn variants(&self) -> (r: &Vec<ErrorVariant>)
        ensures
            r@ == self.spec_variants(),
    {
        &self.variants
    }

    /// Reads the error list: every element must be an object with a
    /// string `name`.
    #[verifier::loop_isolation(false)]
    pub fn from_json(items: &Vec<JsonValue>) -> (r: Result<Error, SchemaError>)
        ensures
            r is Ok <==> all_variants_ok(items@),
            r matches Ok(e) ==> {
                &&& e.spec_variants().len() == items@.len()
                &&& forall|i: int|
                    0 <= i < items@.len() ==> get_str(#[trigger] items@[i], "name"@) == Some(
                        e.spec_variants()[i].spec_name(),
                    )
            },
    {
        let mut variants: Vec<ErrorVariant> = Vec::new();
        let mut i: usize = 0;
        while i < items.len()
            invariant
                0 <= i <= items@.len(),
                variants@.len() == i,
                forall|k: int|
                    0 <= k < i ==> (#[trigger] items@[k]) is Object && get_str(items@[k], "name"@)
                        is Some,
                forall|k: int|
                    0 <= k < i ==> get_str(#[trigger] items@[k], "name"@) == Some(
                        variants@[k].spec_name(),
                    ),
            decreases items@.len() - i,
        {
            match items[i].as_object() {
                None => {
                    return Err(SchemaError::InvalidField("error"));
                },
                Some(_) => {},
            }
            match ErrorVariant::from_json(&items[i]) {
                Ok(v) => {
                    variants.push(v);
                },
                Err(e) => {
                    return Err(e);
                },
            }
            i += 1;
        }
        Ok(Error { variants })
    }
}

} // verus!
