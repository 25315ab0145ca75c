use vstd::prelude::*;

use vstd::string::StringExecFns;

verus! {

// ---------------------------------------------------------------------------
// One dependency line of a generated manifest.
// ---------------------------------------------------------------------------

/// A crate dependency of generated code: its name, version requirement
/// and the features it needs.
#[derive(Debug)]
pub struct CargoDependency {
    pub name: String,
    pub version: String,
    pub features: Vec<String>,
}

/// Clones a list of strings, keeping the values.
pub fn clone_strings(items: &Vec<String>) -> (r: Vec<String>)
    ensures
        r@ == items@,
{
    let mut out: Vec<String> = Vec::new();
    let mut i: usize = 0;
    while i < items.len()
        invariant
            0 <= i <= items@.len(),
            out@ =~= items@.take(i as int),
        decreases items@.len() - i,
    {
        out.push(items[i].clone());
        proof {
            assert(out@ =~= items@.take(i as int + 1));
        }
        i += 1;
    }
    proof {
        assert(items@.take(items@.len() as int) =~= items@);
    }
    out
}

impl Clone for CargoDependency {
    fn clone(&self) -> (r: Self)
        ensures
            r.name == self.name,
            r.version == self.version,
            r.features@ == self.features@,
    {
        CargoDependency {
            name: self.name.clone(),
            version: self.version.clone(),
            features: clone_strings(&self.features),
        }
    }
}

/// The view of one dependency: its name, version and feature texts.
pub open spec fn dep_view(d: CargoDependency) -> (Seq<char>, Seq<char>, Seq<Seq<char>>) {
    (d.name@, d.version@, d.features@.map_values(|f: String| f@))
}

pub open spec fn dep_views(ds: Seq<CargoDependency>) -> Seq<(Seq<char>, Seq<char>, Seq<Seq<char>>)> {
    ds.map_values(|d: CargoDependency| dep_view(d))
}

/// A feature name in quotes.
pub open spec fn quoted_chars(f: Seq<char>) -> Seq<char> {
    seq!['"'] + f + seq!['"']
}

/// The quoted feature names, joined with `, `.
pub open spec fn quoted_join(fs: Seq<String>) -> Seq<char>
    decreases fs.len(),
{
    if fs.len() == 0 {
        Seq::empty()
    } else if fs.len() == 1 {
        quoted_chars(fs[0]@)
    } else {
        quoted_join(fs.drop_last()) + ", "@ + quoted_chars(fs.last()@)
    }
}

/// What the dependency renders to: `name = "version"` when it needs no
/// features, otherwise the table form listing them, each with a trailing
/// line break.
pub open spec fn dep_line_chars(dep: CargoDependency) -> Seq<char> {
    if dep.features@.len() == 0 {
        dep.name@ + " = \""@ + dep.version@ + "\"\n"@
    } else {
        dep.name@ + " = { version = \""@ + dep.version@ + "\", features = ["@ + quoted_join(
            dep.features@,
        ) + "] }\n"@
    }
}

impl CargoDependency {
    pub fn new(name: String, version: String, features: Vec<String>) -> (r: Self)
        ensures
            r.name == name,
            r.version == version,
            r.features == features,
    {
        Self { name, version, features }
    }

    /// The dependency rendered as one manifest line.
    #[verifier::loop_isolation(false)]
    pub fn to_manifest_line(&self) -> (r: String)
        ensures
            r@ == dep_line_chars(*self),
    {
        let mut out = String::new();
        if self.features.len() == 0 {
            out.append(self.name.as_str());
            out.append(" = \"");
            out.append(self.version.as_str());
            out.append("\"\n");
            out
        } else {
            out.append(self.name.as_str());
            out.append(" = { version = \"");
            out.append(self.version.as_str());
            out.append("\", features = [");
            let mut i: usize = 0;
            let ghost base = out@;
            while i < self.features.len()
                invariant
                    0 <= i <= self.features@.len(),
                    self.features@.len() > 0,
                    out@ == base + quoted_join(self.features@.take(i as int)),
                decreases self.features@.len() - i,
            {
                if i > 0 {
                    out.append(", ");
                }
                out.append("\"");
                out.append(self.features[i].as_str());
                out.append("\"");
                proof {
                    reveal_strlit("\"");
                    assert("\""@ =~= seq!['"']);
                    assert(self.features@.take(i as int + 1).drop_last() =~= self.features@.take(
                        i as int,
                    ));
                    assert(self.features@.take(i as int + 1).last() == self.features@[i as int]);
                    if i == 0 {
                        assert(quoted_join(self.features@.take(1)) =~= quoted_chars(
                            self.features@[0]@,
                        ));
                        assert(out@ =~= base + quoted_join(self.features@.take(1)));
                    } else {
                        assert(out@ =~= base + quoted_join(self.features@.take(i as int + 1)));
                    }
                }
                i += 1;
            }
            proof {
                assert(self.features@.take(self.features@.len() as int) =~= self.features@);
            }
            out.append("] }\n");
            out
        }
    }
}

} // verus!
