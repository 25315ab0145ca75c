use vstd::prelude::*;

use vstd::string::StrSliceExecFns;
use vstd::string::StringExecFns;

use crate::json::JsonValue;
use crate::json::get_str;
use crate::json::get_u64;
use crate::json::json_get;
use crate::lexicon_io::Error as IoError;
use crate::lexicon_io::Input;
use crate::lexicon_io::Output;
use crate::lexicon_io::all_variants_ok;
use crate::lexicon_io::io_ok;
use crate::nsid::Nsid;
use crate::nsid::nsid_pattern_match;
use crate::text::str_eq;

verus! {

// ---------------------------------------------------------------------------
// A lexicon document: one operation's description, read out of a JSON
// tree.
// ---------------------------------------------------------------------------

/// The kind of operation a document describes.
#[derive(Debug, Clone, Copy, PartialEq, Eq, Structural)]
pub enum LexiconDocType {
    Query,
    Procedure,
    Record,
}

/// The document type a `type` member names, when it names one.
pub open spec fn doc_type_of(s: Seq<char>) -> Option<LexiconDocType> {
    if s == "query"@ {
        Some(LexiconDocType::Query)
    } else if s == "procedure"@ {
        Some(LexiconDocType::Procedure)
    } else if s == "record"@ {
        Some(LexiconDocType::Record)
    } else {
        None
    }
}

impl LexiconDocType {
    /// Reads a document type out of its name; `None` on any other text.
    pub fn parse(s: &str) -> (r: Option<LexiconDocType>)
        ensures
            r == doc_type_of(s@),
    {
        if str_eq(s, "query") {
            Some(LexiconDocType::Query)
        } else if str_eq(s, "procedure") {
            Some(LexiconDocType::Procedure)
        } else if str_eq(s, "record") {
            Some(LexiconDocType::Record)
        } else {
            None
        }
    }
}

/// The schema version a document declares.
#[derive(Debug, Clone, Copy, PartialEq, Eq, Structural)]
pub enum LexiconVersion {
    V1,
    Unknown(u64),
}

/// The version a numeric `lexicon` member denotes.
pub open spec fn version_of(version: u64) -> LexiconVersion {
    if version == 1 {
        LexiconVersion::V1
    } else {
        LexiconVersion::Unknown(version)
    }
}

impl From<u64> for LexiconVersion {
    /// Version 1 is the only known version.
    fn from(version: u64) -> (r: Self) {
        if version == 1 {
            LexiconVersion::V1
        } else {
            LexiconVersion::Unknown(version)
        }
    }
}

impl vstd::std_specs::convert::FromSpecImpl<u64> for LexiconVersion {
    open spec fn obeys_from_spec() -> bool {
        true
    }

    open spec fn from_spec(version: u64) -> Self {
        version_of(version)
    }
}

/// The error variants a document's `error` member yields, when it yields
/// one.
pub open spec fn error_member_ok(j: JsonValue) -> bool {
    json_get(j, "error"@) matches Some(e) && e matches JsonValue::Array(a) && all_variants_ok(a@)
}

/// Whether a document tree yields a lexicon document: a numeric version
/// under `lexicon`, a string `id` naming a valid namespaced identifier,
/// and a known operation kind under `type`.
pub open spec fn lexicon_doc_ok(j: JsonValue) -> bool {
    &&& get_u64(j, "lexicon"@) is Some
    &&& doc_id_chars(j).len() > 0 && nsid_pattern_match(doc_id_chars(j))
    &&& get_str(j, "type"@) matches Some(t) && doc_type_of(t) is Some
}

/// The id text a document carries: its `id` string, or empty when absent.
pub open spec fn doc_id_chars(j: JsonValue) -> Seq<char> {
    match get_str(j, "id"@) {
        Some(s) => s,
        None => Seq::empty(),
    }
}

/// One operation's description.
#[derive(Debug)]
pub struct LexiconDoc {
    lexicon: LexiconVersion,
    id: Nsid,
    doc_type: LexiconDocType,
    revision: Option<u64>,
    description: Option<String>,
    input: Option<Input>,
    output: Option<Output>,
    error: Option<IoError>,
}

/// The reason a document was rejected.
#[derive(Debug)]
pub enum LexiconDocError {
    /// The document is missing the required member.
    MissingField(&'static str),
    /// The document has an invalid member, whose value is carried.
    InvalidField { field: &'static str, value: String },
}

impl LexiconDoc {
    pub closed spec fn spec_lexicon(&self) -> LexiconVersion {
        self.lexicon
    }

    pub closed spec fn spec_id(&self) -> Seq<char> {
        self.id@
    }

    pub closed spec fn spec_doc_type(&self) -> LexiconDocType {
        self.doc_type
    }

    pub closed spec fn spec_revision(&self) -> Option<u64> {
        self.revision
    }

    pub closed spec fn spec_description(&self) -> Option<Seq<char>> {
        match self.description {
            Some(d) => Some(d@),
            None => None,
        }
    }

    pub closed spec fn spec_input(&self) -> Option<Input> {
        self.input
    }

    pub closed spec fn spec_output(&self) -> Option<Output> {
        self.output
    }

    pub open spec fn spec_has_input(&self) -> bool {
        self.spec_input() is Some
    }

    pub open spec fn spec_has_output(&self) -> bool {
        self.spec_output() is Some
    }

    pub closed spec fn spec_has_error(&self) -> bool {
        self.error is Some
    }

    pub fn lexicon(&self) -> (r: &LexiconVersion)
        ensures
            *r == self.spec_lexicon(),
    {
        &self.lexicon
    }

    pub fn id(&self) -> (r: &Nsid)
        ensures
            r@ == self.spec_id(),
    {
        &self.id
    }

    pub fn doc_type(&self) -> (r: &LexiconDocType)
        ensures
            *r == self.spec_doc_type(),
    {
        &self.doc_type
    }

    pub fn revision(&self) -> (r: Option<u64>)
        ensures
            r == self.spec_revision(),
    {
        self.revision
    }

    pub fn description(&self) -> (r: Option<&str>)
        ensures
            match r {
                Some(d) => self.spec_description() == Some(d@),
                None => self.spec_description() is None,
            },
    {
        match &self.description {
            Some(d) => Some(d.as_str()),
            None => None,
        }
    }

    pub fn input(&self) -> (r: Option<&Input>)
        ensures
            match r {
                Some(i) => self.spec_input() == Some(*i),
                None => self.spec_input() is None,
            },
    {
        match &self.input {
            Some(v) => Some(v),
            None => None,
        }
    }

    pub fn output(&self) -> (r: Option<&Output>)
        ensures
            match r {
                Some(o) => self.spec_output() == Some(*o),
                None => self.spec_output() is None,
            },
    {
        match &self.output {
            Some(v) => Some(v),
            None => None,
        }
    }

    pub fn error(&self) -> (r: Option<&IoError>)
        ensures
            r is Some == self.spec_has_error(),
    {
        match &self.error {
            Some(v) => Some(v),
            None => None,
        }
    }

    /// Reads a document out of a JSON tree.  Success needs a numeric
    /// `lexicon` version, an `id` naming a valid namespaced identifier and
    /// a known `type`; `revision` and `description` are optional, and a
    /// malformed `input`, `output` or `error` member is dropped rather
    /// than fatal.  The error names the first offence: the missing
    /// `lexicon`, the invalid `id` (with its text), or the missing or
    /// unknown `type`.
    pub fn from_json(json: &JsonValue) -> (r: Result<LexiconDoc, LexiconDocError>)
        ensures
            r is Ok <==> lexicon_doc_ok(*json),
            r matches Ok(d) ==> {
                &&& Some(d.spec_lexicon()) == (match get_u64(*json, "lexicon"@) {
                    Some(v) => Some(version_of(v)),
                    None => None::<LexiconVersion>,
                })
                &&& d.spec_id() == doc_id_chars(*json)
                &&& (get_str(*json, "type"@) matches Some(t) && doc_type_of(t) == Some(
                    d.spec_doc_type(),
                ))
                &&& d.spec_revision() == get_u64(*json, "revision"@)
                &&& d.spec_description() == get_str(*json, "description"@)
                &&& d.spec_has_input() == (json_get(*json, "input"@) matches Some(v) && v
                    is Object && io_ok(v))
                &&& d.spec_has_output() == (json_get(*json, "output"@) matches Some(v) && v
                    is Object && io_ok(v))
                &&& d.spec_has_error() == error_member_ok(*json)
            },
            get_u64(*json, "lexicon"@) is None ==> (r matches Err(e) && e matches
                LexiconDocError::MissingField(f) && f@ == "lexicon"@),
            (get_u64(*json, "lexicon"@) is Some && !(doc_id_chars(*json).len() > 0
                && nsid_pattern_match(doc_id_chars(*json)))) ==> (r matches Err(e) && e matches
                LexiconDocError::InvalidField { field, value } && field@ == "id"@ && value@
                == doc_id_chars(*json)),
            (get_u64(*json, "lexicon"@) is Some && doc_id_chars(*json).len() > 0
                && nsid_pattern_match(doc_id_chars(*json)) && !(get_str(*json, "type"@)
                matches Some(t) && doc_type_of(t) is Some)) ==> (r matches Err(e) && e matches
                LexiconDocError::MissingField(f) && f@ == "type"@),
    {
        let lexicon = match json.get_number("lexicon") {
            Some(v) => LexiconVersion::from(v),
            None => {
                return Err(LexiconDocError::MissingField("lexicon"));
            },
        };
        let id_text: String = match json.get_text("id") {
            Some(s) => String::from_str(s),
            None => String::new(),
        };
        let id = match Nsid::new(id_text.as_str()) {
            Ok(n) => n,
            Err(_) => {
                return Err(LexiconDocError::InvalidField { field: "id", value: id_text });
            },
        };
        let doc_type = match json.get_text("type") {
            Some(t) => match LexiconDocType::parse(t) {
                Some(d) => d,
                None => {
                    return Err(LexiconDocError::MissingField("type"));
                },
            },
            None => {
                return Err(LexiconDocError::MissingField("type"));
            },
        };
        let revision = json.get_number("revision");
        let description = match json.get_text("description") {
            Some(s) => Some(String::from_str(s)),
            None => None,
        };
        let input = match json.get("input") {
            Some(v) => match v.as_object() {
                Some(_) => match Input::from_json(v) {
                    Ok(inp) => Some(inp),
                    Err(_) => None,
                },
                None => None,
            },
            None => None,
        };
        let output = match json.get("output") {
            Some(v) => match v.as_object() {
                Some(_) => match Output::from_json(v) {
                    Ok(out) => Some(out),
                    Err(_) => None,
                },
                None => None,
            },
            None => None,
        };
        let error = match json.get("error") {
            Some(v) => match v.as_array() {
                Some(items) => match IoError::from_json(items) {
                    Ok(e) => Some(e),
                    Err(_) => None,
                },
                None => None,
            },
            None => None,
        };
        Ok(
            LexiconDoc {
                lexicon,
                id,
                doc_type,
                revision,
                description,
                input,
                output,
                error,
            },
        )
    }
}

} // verus!
