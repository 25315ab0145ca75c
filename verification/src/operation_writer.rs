use vstd::prelude::*;

use vstd::string::StringExecFns;

use crate::codegen::Crate;
use crate::lexicon_doc::LexiconDoc;
use crate::module::Module;
use crate::module::Parent;
use crate::module::Visibility;
use crate::module::segments_spec;
use crate::nsid::nsid_segments;
use crate::nsid::pascal_of;
use crate::parameter::Parameter;
use crate::parameter::Type;

verus! {

// ---------------------------------------------------------------------------
// Rendering one operation's input and output structs into a generated
// crate.
// ---------------------------------------------------------------------------

/// The module that collects generated input structs.
pub fn input_module() -> (r: Module)
    ensures
        segments_spec(r) == seq!["input"@],
{
    let r = Module {
        name: String::from_str("input"),
        documentation: String::from_str("XRPC inputs"),
        parent: Parent::Lib,
        dependencies: Vec::new(),
        visibility: Visibility::Public,
    };
    proof {
        assert(segments_spec(r) =~= seq!["input"@]);
    }
    r
}

/// The module that collects generated output structs.
pub fn output_module() -> (r: Module)
    ensures
        segments_spec(r) == seq!["output"@],
{
    let r = Module {
        name: String::from_str("output"),
        documentation: String::from_str("XRPC outputs"),
        parent: Parent::Lib,
        dependencies: Vec::new(),
        visibility: Visibility::Public,
    };
    proof {
        assert(segments_spec(r) =~= seq!["output"@]);
    }
    r
}

/// The struct-name stem of a document: its last id segment in Pascal
/// case.
pub open spec fn struct_name_chars(doc: LexiconDoc) -> Seq<char> {
    pascal_of(nsid_segments(doc.spec_id()).last())
}

/// The Rust type a parameter renders to, wrapped for an optional value.
pub open spec fn field_type_chars(p: Parameter) -> Seq<char> {
    let base = match p.ty {
        Type::Text => "String"@,
        Type::Number => "u64"@,
        Type::Integer => "i64"@,
        Type::Boolean => "bool"@,
    };
    if p.required == Some(true) {
        "Option<"@ + base + ">"@
    } else {
        base
    }
}

/// One field declaration, with its doc line when the parameter has a
/// description.
pub open spec fn field_line_chars(name: Seq<char>, p: Parameter) -> Seq<char> {
    (match p.description {
        Some(d) => "    /// "@ + d@ + "\n"@,
        None => Seq::empty(),
    }) + "    pub "@ + name + ": "@ + field_type_chars(p) + ",\n"@
}

/// The field declarations of all properties, in order.
pub open spec fn field_lines_chars(props: Seq<(String, Parameter)>) -> Seq<char>
    decreases props.len(),
{
    if props.len() == 0 {
        Seq::empty()
    } else {
        field_lines_chars(props.drop_last()) + field_line_chars(
            props.last().0@,
            props.last().1,
        )
    }
}

/// The complete input struct declaration of a document.
pub open spec fn input_struct_chars(doc: LexiconDoc) -> Seq<char> {
    let sname = struct_name_chars(doc);
    "/// Input for the "@ + sname + " operation\n"@ + (match doc.spec_input() {
        Some(i) => match i.description {
            Some(d) => "/// \\n\n             /// "@ + d@ + "\n"@,
            None => Seq::empty(),
        },
        None => Seq::empty(),
    }) + "pub struct "@ + sname + "Input {\n"@ + (match doc.spec_input() {
        Some(i) => field_lines_chars(i.schema.spec_properties()),
        None => "    // this input has no fields\n"@,
    }) + "}\n"@ + "\n"@
}

/// The complete output struct declaration of a document.
pub open spec fn output_struct_chars(doc: LexiconDoc) -> Seq<char> {
    let sname = struct_name_chars(doc);
    "/// Output for the "@ + sname + " operation\n"@ + (match doc.spec_output() {
        Some(o) => match o.description {
            Some(d) => "/// \\n\n             /// "@ + d@ + "\n"@,
            None => Seq::empty(),
        },
        None => Seq::empty(),
    }) + "pub struct "@ + sname + "Output {\n"@ + (match doc.spec_output() {
        Some(o) => field_lines_chars(o.schema.spec_properties()),
        None => "    // this output has no fields\n"@,
    }) + "}\n"@ + "\n"@
}

/// Appends the rendered field declarations of `props` to `out`.
#[verifier::loop_isolation(false)]
#[verifier::rlimit(60)]
fn append_field_lines(out: &mut String, props: &Vec<(String, Parameter)>)
    ensures
        final(out)@ == old(out)@ + field_lines_chars(props@),
{
    let ghost base = out@;
    let mut i: usize = 0;
    while i < props.len()
        invariant
            0 <= i <= props@.len(),
            out@ == base + field_lines_chars(props@.take(i as int)),
        decreases props@.len() - i,
    {
        match &props[i].1.description {
            Some(d) => {
                out.append("    /// ");
                out.append(d.as_str());
                out.append("\n");
            },
            None => {},
        }
        out.append("    pub ");
        out.append(props[i].0.as_str());
        out.append(": ");
        if matches!(props[i].1.required, Some(true)) {
            out.append("Option<");
            out.append(props[i].1.ty.rust_type());
            out.append(">");
        } else {
            out.append(props[i].1.ty.rust_type());
        }
        out.append(",\n");
        proof {
            assert(props@.take(i as int + 1).drop_last() =~= props@.take(i as int));
            assert(props@.take(i as int + 1).last() == props@[i as int]);
            assert(out@ =~= base + field_lines_chars(props@.take(i as int + 1)));
        }
        i += 1;
    }
    proof {
        assert(props@.take(props@.len() as int) =~= props@);
    }
}

/// Renders the document's input struct and queues it on the `input`
/// module.
fn write_input_struct(c: &mut Crate, doc: &LexiconDoc)
    requires
        old(c).wf(),
    ensures
        final(c).wf(),
        final(c).spec_metadata() == old(c).spec_metadata(),
        final(c).spec_pending().len() == old(c).spec_pending().len() + 1,
        forall|i: int|
            0 <= i < old(c).spec_pending().len() ==> final(c).spec_pending()[i] == old(
                c,
            ).spec_pending()[i],
        segments_spec(final(c).spec_pending().last().0) == seq!["input"@],
        final(c).spec_pending().last().1@ == input_struct_chars(*doc),
{
    let sname = doc.id().as_struct_name();
    let mut text = String::new();
    text.append("/// Input for the ");
    text.append(sname.as_str());
    text.append(" operation\n");
    match doc.input() {
        Some(inp) => match &inp.description {
            Some(d) => {
                text.append("/// \\n\n             /// ");
                text.append(d.as_str());
                text.append("\n");
            },
            None => {},
        },
        None => {},
    }
    text.append("pub struct ");
    text.append(sname.as_str());
    text.append("Input {\n");
    match doc.input() {
        Some(inp) => {
            append_field_lines(&mut text, inp.properties());
        },
        None => {
            text.append("    // this input has no fields\n");
        },
    }
    text.append("}\n");
    text.append("\n");
    proof {
        assert(text@ =~= input_struct_chars(*doc));
    }
    c.write(input_module(), text);
}

/// Renders the document's output struct and queues it on the `output`
/// module.
fn write_output_struct(c: &mut Crate, doc: &LexiconDoc)
    requires
        old(c).wf(),
    ensures
        final(c).wf(),
        final(c).spec_metadata() == old(c).spec_metadata(),
        final(c).spec_pending().len() == old(c).spec_pending().len() + 1,
        forall|i: int|
            0 <= i < old(c).spec_pending().len() ==> final(c).spec_pending()[i] == old(
                c,
            ).spec_pending()[i],
        segments_spec(final(c).spec_pending().last().0) == seq!["output"@],
        final(c).spec_pending().last().1@ == output_struct_chars(*doc),
{
    let sname = doc.id().as_struct_name();
    let mut text = String::new();
    text.append("/// Output for the ");
    text.append(sname.as_str());
    text.append(" operation\n");
    match doc.output() {
        Some(out) => match &out.description {
            Some(d) => {
                text.append("/// \\n\n             /// ");
                text.append(d.as_str());
                text.append("\n");
            },
            None => {},
        },
        None => {},
    }
    text.append("pub struct ");
    text.append(sname.as_str());
    text.append("Output {\n");
    match doc.output() {
        Some(out) => {
            append_field_lines(&mut text, out.properties());
        },
        None => {
            text.append("    // this output has no fields\n");
        },
    }
    text.append("}\n");
    text.append("\n");
    proof {
        assert(text@ =~= output_struct_chars(*doc));
    }
    c.write(output_module(), text);
}

/// Queues the document's generated input and output structs, in that
/// order.
pub fn write_to_module(c: &mut Crate, doc: &LexiconDoc)
    requires
        old(c).wf(),
    ensures
        final(c).wf(),
        final(c).spec_metadata() == old(c).spec_metadata(),
        final(c).spec_pending().len() == old(c).spec_pending().len() + 2,
        forall|i: int|
            0 <= i < old(c).spec_pending().len() ==> final(c).spec_pending()[i] == old(
                c,
            ).spec_pending()[i],
        segments_spec(final(c).spec_pending()[final(c).spec_pending().len() - 2].0) == seq![
            "input"@,
        ],
        final(c).spec_pending()[final(c).spec_pending().len() - 2].1@ == input_struct_chars(*doc),
        segments_spec(final(c).spec_pending().last().0) == seq!["output"@],
        final(c).spec_pending().last().1@ == output_struct_chars(*doc),
{
    write_input_struct(c, doc);
    write_output_struct(c, doc);
}

} // verus!
