use abnf_engine::json::JsonValue;
use abnf_engine::lexicon_doc::{LexiconDoc, LexiconDocError, LexiconDocType, LexiconVersion};
use abnf_engine::lexicon_io::{ErrorVariant, Input, IoSchema};
use abnf_engine::parameter::{DefaultValue, Parameter, Type};
use abnf_engine::request::{self, XrpcRequest};
use abnf_engine::codegen::Crate;
use abnf_engine::metadata::CrateMetadata;
use abnf_engine::operation_writer::write_to_module;

fn text(s: &str) -> JsonValue {
    JsonValue::Text(s.to_string())
}

fn obj(entries: Vec<(&str, JsonValue)>) -> JsonValue {
    JsonValue::Object(entries.into_iter().map(|(k, v)| (k.to_string(), v)).collect())
}

fn schema_json() -> JsonValue {
    obj(vec![
        ("type", text("object")),
        ("required", JsonValue::Array(vec![text("handle")])),
        (
            "properties",
            obj(vec![(
                "handle",
                obj(vec![
                    ("type", text("string")),
                    ("description", text("the account's handle")),
                ]),
            )]),
        ),
    ])
}

fn doc_json() -> JsonValue {
    obj(vec![
        ("lexicon", JsonValue::Number(Some(1))),
        ("id", text("com.atproto.createAccount")),
        ("type", text("procedure")),
        ("revision", JsonValue::Number(Some(3))),
        ("description", text("Create an account.")),
        (
            "input",
            obj(vec![("encoding", text("application/json")), ("schema", schema_json())]),
        ),
        (
            "error",
            JsonValue::Array(vec![obj(vec![("name", text("InvalidHandle"))])]),
        ),
    ])
}

#[test]
fn json_lookup_takes_the_first_match() {
    let v = obj(vec![("a", JsonValue::Bool(true)), ("a", JsonValue::Bool(false))]);
    assert_eq!(v.get("a").unwrap().as_bool(), Some(true));
    assert!(v.get("b").is_none());
    assert!(JsonValue::Null.get("a").is_none());
}

#[test]
fn parameter_reads_all_members() {
    let p = Parameter::from_json(&obj(vec![
        ("type", text("integer")),
        ("description", text("a count")),
        ("default", JsonValue::Number(Some(4))),
        ("required", JsonValue::Bool(true)),
        ("minLength", JsonValue::Number(Some(1))),
        ("maxLength", JsonValue::Number(Some(9))),
        ("minimum", JsonValue::Number(Some(0))),
        ("maximum", JsonValue::Number(Some(100))),
    ]))
    .unwrap();
    assert_eq!(p.ty, Type::Integer);
    assert_eq!(p.description.as_deref(), Some("a count"));
    assert!(matches!(p.default, Some(DefaultValue::Number(4))));
    assert_eq!(p.required, Some(true));
    assert_eq!(p.min_length, Some(1));
    assert_eq!(p.max_length, Some(9));
    assert_eq!(p.minimum, Some(0));
    assert_eq!(p.maximum, Some(100));
}

#[test]
fn parameter_errors_name_the_member() {
    let err = Parameter::from_json(&obj(vec![("description", text("x"))])).unwrap_err();
    assert_eq!(err, abnf_engine::parameter::Error::MissingField("type"));
    let err = Parameter::from_json(&obj(vec![("type", text("float"))])).unwrap_err();
    assert_eq!(err, abnf_engine::parameter::Error::InvalidField("type"));
    let err = Parameter::from_json(&obj(vec![
        ("type", text("string")),
        ("default", JsonValue::Null),
    ]))
    .unwrap_err();
    assert_eq!(err, abnf_engine::parameter::Error::InvalidField("default"));
}

#[test]
fn parameter_types_render_to_rust_types() {
    assert_eq!(Type::Text.rust_type(), "String");
    assert_eq!(Type::Number.rust_type(), "u64");
    assert_eq!(Type::Integer.rust_type(), "i64");
    assert_eq!(Type::Boolean.rust_type(), "bool");
}

#[test]
fn io_schema_collects_required_and_properties() {
    let schema = IoSchema::from_json(&schema_json()).unwrap();
    assert_eq!(schema.required().len(), 1);
    assert_eq!(schema.required()[0], "handle");
    assert_eq!(schema.properties().len(), 1);
    assert_eq!(schema.properties()[0].0, "handle");
    assert_eq!(schema.properties()[0].1.ty, Type::Text);
}

#[test]
fn input_requires_a_valid_encoding() {
    let good = obj(vec![("encoding", text("application/json")), ("schema", schema_json())]);
    let input = Input::from_json(&good).unwrap();
    assert_eq!(input.required()[0], "handle");

    let bad = obj(vec![("encoding", text("nope")), ("schema", schema_json())]);
    assert!(Input::from_json(&bad).is_err());

    let missing = obj(vec![("schema", schema_json())]);
    assert!(Input::from_json(&missing).is_err());
}

#[test]
fn error_variants_need_a_name() {
    let items = vec![obj(vec![("name", text("Denied"))])];
    let errors = abnf_engine::lexicon_io::Error::from_json(&items).unwrap();
    assert_eq!(errors.variants().len(), 1);
    assert_eq!(errors.variants()[0].name(), "Denied");

    let variant = ErrorVariant::from_json(&obj(vec![("name", text("Oops"))])).unwrap();
    assert_eq!(variant.name(), "Oops");

    let items = vec![obj(vec![("label", text("Denied"))])];
    assert!(abnf_engine::lexicon_io::Error::from_json(&items).is_err());
}

#[test]
fn lexicon_doc_reads_every_member() {
    let doc = LexiconDoc::from_json(&doc_json()).unwrap();
    assert_eq!(*doc.lexicon(), LexiconVersion::V1);
    assert_eq!(doc.id().as_str(), "com.atproto.createAccount");
    assert_eq!(*doc.doc_type(), LexiconDocType::Procedure);
    assert_eq!(doc.revision(), Some(3));
    assert_eq!(doc.description(), Some("Create an account."));
    assert!(doc.input().is_some());
    assert!(doc.output().is_none());
    assert!(doc.error().is_some());
}

#[test]
fn lexicon_doc_errors_follow_the_member_order() {
    let err = LexiconDoc::from_json(&obj(vec![])).unwrap_err();
    assert!(matches!(err, LexiconDocError::MissingField("lexicon")));

    let err = LexiconDoc::from_json(&obj(vec![("lexicon", JsonValue::Number(Some(1)))]))
        .unwrap_err();
    assert!(matches!(err, LexiconDocError::InvalidField { field: "id", .. }));

    let err = LexiconDoc::from_json(&obj(vec![
        ("lexicon", JsonValue::Number(Some(1))),
        ("id", text("com.atproto.test")),
    ]))
    .unwrap_err();
    assert!(matches!(err, LexiconDocError::MissingField("type")));
}

#[test]
fn unknown_versions_are_carried() {
    let json = obj(vec![
        ("lexicon", JsonValue::Number(Some(7))),
        ("id", text("com.atproto.test")),
        ("type", text("query")),
    ]);
    let doc = LexiconDoc::from_json(&json).unwrap();
    assert_eq!(*doc.lexicon(), LexiconVersion::Unknown(7));
    assert_eq!(LexiconVersion::from(1), LexiconVersion::V1);
}

#[test]
fn malformed_optional_members_are_dropped() {
    let json = obj(vec![
        ("lexicon", JsonValue::Number(Some(1))),
        ("id", text("com.atproto.test")),
        ("type", text("record")),
        ("input", obj(vec![("encoding", text("nope"))])),
        ("error", JsonValue::Array(vec![JsonValue::Null])),
    ]);
    let doc = LexiconDoc::from_json(&json).unwrap();
    assert!(doc.input().is_none());
    assert!(doc.error().is_none());
}

#[test]
fn request_builder_requires_a_type() {
    let req = XrpcRequest::builder().req_type(request::Type::Query).build().unwrap();
    assert_eq!(req.req_type(), request::Type::Query);

    let err = XrpcRequest::builder().build().unwrap_err();
    assert_eq!(err, request::Error::MissingField("type"));

    let mut b = XrpcRequest::builder();
    b.set_type(Some(request::Type::Procedure));
    let req = b.build().unwrap();
    assert_eq!(req.req_type(), request::Type::Procedure);
}

#[test]
fn generated_structs_render_the_schema() {
    let doc = LexiconDoc::from_json(&doc_json()).unwrap();
    let mut c = Crate::new(CrateMetadata {
        name: "generated".to_string(),
        description: "d".to_string(),
        version: "0.1.0".to_string(),
        authors: vec![],
    });
    write_to_module(&mut c, &doc);
    let writes = c.writes();
    assert_eq!(writes.len(), 2);
    let expected_input = "/// Input for the CreateAccount operation\npub struct CreateAccountInput {\n    /// the account's handle\n    pub handle: String,\n}\n\n";
    assert_eq!(writes[0].1, expected_input);
    let expected_output = "/// Output for the CreateAccount operation\npub struct CreateAccountOutput {\n    // this output has no fields\n}\n\n";
    assert_eq!(writes[1].1, expected_output);
}
