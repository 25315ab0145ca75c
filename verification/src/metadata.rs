use vstd::prelude::*;

use vstd::string::StringExecFns;

verus! {

// ---------------------------------------------------------------------------
// The `[package]` section of a generated manifest.
// ---------------------------------------------------------------------------

/// The metadata of a generated crate.
pub struct CrateMetadata {
    pub name: String,
    pub description: String,
    pub version: String,
    pub authors: Vec<String>,
}

/// One indented, quoted author line each.
pub open spec fn author_lines_chars(authors: Seq<String>) -> Seq<char>
    decreases authors.len(),
{
    if authors.len() == 0 {
        Seq::empty()
    } else {
        author_lines_chars(authors.drop_last()) + "    \""@ + authors.last()@ + "\",\n"@
    }
}

/// What the metadata renders to: the `[package]` section with the name,
/// version, a fixed edition, the description and the author list, ending
/// in a blank line.
pub open spec fn metadata_chars(m: CrateMetadata) -> Seq<char> {
    "[package]\n"@ + "name = \""@ + m.name@ + "\"\n"@ + "version = \""@ + m.version@ + "\"\n"@
        + "edition = \"2021\"\n"@ + "description = \""@ + m.description@ + "\"\n"@
        + "authors = [\n"@ + author_lines_chars(m.authors@) + "]\n"@ + "\n"@
}

impl CrateMetadata {
    /// The metadata rendered as a manifest section.
    #[verifier::loop_isolation(false)]
    pub fn to_manifest(&self) -> (r: String)
        ensures
            r@ == metadata_chars(*self),
    {
        let mut out = String::new();
        out.append("[package]\n");
        out.append("name = \"");
        out.append(self.name.as_str());
        out.append("\"\n");
        out.append("version = \"");
        out.append(self.version.as_str());
        out.append("\"\n");
        out.append("edition = \"2021\"\n");
        out.append("description = \"");
        out.append(self.description.as_str());
        out.append("\"\n");
        out.append("authors = [\n");
        let ghost base = out@;
        let mut i: usize = 0;
        while i < self.authors.len()
            invariant
                0 <= i <= self.authors@.len(),
                out@ == base + author_lines_chars(self.authors@.take(i as int)),
            decreases self.authors@.len() - i,
        {
            out.append("    \"");
            out.append(self.authors[i].as_str());
            out.append("\",\n");
            proof {
                assert(self.authors@.take(i as int + 1).drop_last() =~= self.authors@.take(
                    i as int,
                ));
                assert(self.authors@.take(i as int + 1).last() == self.authors@[i as int]);
                assert(out@ =~= base + author_lines_chars(self.authors@.take(i as int + 1)));
            }
            i += 1;
        }
        proof {
            assert(self.authors@.take(self.authors@.len() as int) =~= self.authors@);
        }
        out.append("]\n");
        out.append("\n");
        proof {
            assert(out@ =~= metadata_chars(*self));
        }
        out
    }
}

} // verus!
