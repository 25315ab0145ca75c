use vstd::prelude::*;

use vstd::string::StringExecFns;

use crate::dependency::CargoDependency;
use crate::dependency::dep_views;

verus! {

// ---------------------------------------------------------------------------
// A module of a generated crate and the paths it renders to.
// ---------------------------------------------------------------------------

/// How a generated item is exposed.
#[derive(Debug, Clone, Copy, PartialEq, Eq, Structural)]
pub enum Visibility {
    Public,
    Private,
    PubCrate,
}

impl Visibility {
    /// The prefix the visibility renders to before an item.
    pub fn prefix_str(&self) -> (r: &'static str)
        ensures
            match self {
                Visibility::Public => r@ == "pub "@,
                Visibility::Private => r@ == ""@,
                Visibility::PubCrate => r@ == "pub(crate) "@,
            },
    {
        match self {
            Visibility::Public => "pub ",
            Visibility::Private => "",
            Visibility::PubCrate => "pub(crate) ",
        }
    }
}

/// A module with its place in the module tree, its documentation, the
/// dependencies its contents need, and its visibility.
pub struct Module {
    pub name: String,
    pub documentation: String,
    pub parent: Parent,
    pub dependencies: Vec<CargoDependency>,
    pub visibility: Visibility,
}

/// Where a module hangs: directly under the crate root, or under another
/// module.
pub enum Parent {
    Lib,
    Module(Box<Module>),
}

/// The names on the path from the crate root down to the module.
pub open spec fn segments_spec(m: Module) -> Seq<Seq<char>>
    decreases m,
{
    match m.parent {
        Parent::Lib => seq![m.name@],
        Parent::Module(p) => segments_spec(*p).push(m.name@),
    }
}

/// `::`-prefixed concatenation of the segments.
pub open spec fn colon_join(segs: Seq<Seq<char>>) -> Seq<char>
    decreases segs.len(),
{
    if segs.len() == 0 {
        Seq::empty()
    } else {
        colon_join(segs.drop_last()) + "::"@ + segs.last()
    }
}

/// `/`-separated concatenation of the segments.
pub open spec fn slash_join(segs: Seq<Seq<char>>) -> Seq<char>
    decreases segs.len(),
{
    if segs.len() == 0 {
        Seq::empty()
    } else if segs.len() == 1 {
        segs[0]
    } else {
        slash_join(segs.drop_last()) + "/"@ + segs.last()
    }
}

/// The module path: `crate::a::b`.
pub open spec fn module_path_chars(m: Module) -> Seq<char> {
    "crate"@ + colon_join(segments_spec(m))
}

/// The file path: `a/b.rs`.
pub open spec fn file_path_chars(m: Module) -> Seq<char> {
    slash_join(segments_spec(m)) + ".rs"@
}

/// Clones a list of dependencies, keeping every field's text.
pub fn clone_dependencies(deps: &Vec<CargoDependency>) -> (r: Vec<CargoDependency>)
    ensures
        r@.len() == deps@.len(),
        forall|i: int|
            0 <= i < deps@.len() ==> {
                &&& (#[trigger] r@[i]).name == deps@[i].name
                &&& r@[i].version == deps@[i].version
                &&& r@[i].features@ == deps@[i].features@
            },
{
    let mut out: Vec<CargoDependency> = Vec::new();
    let mut i: usize = 0;
    while i < deps.len()
        invariant
            0 <= i <= deps@.len(),
            out@.len() == i,
            forall|k: int|
                0 <= k < i ==> {
                    &&& (#[trigger] out@[k]).name == deps@[k].name
                    &&& out@[k].version == deps@[k].version
                    &&& out@[k].features@ == deps@[k].features@
                },
        decreases deps@.len() - i,
    {
        out.push(deps[i].clone());
        i += 1;
    }
    out
}

impl Clone for Module {
    fn clone(&self) -> (r: Self)
        ensures
            r.name == self.name,
            r.documentation == self.documentation,
            segments_spec(r) == segments_spec(*self),
            r.visibility == self.visibility,
            dep_views(r.dependencies@) == dep_views(self.dependencies@),
        decreases *self,
    {
        let parent = match &self.parent {
            Parent::Lib => Parent::Lib,
            Parent::Module(p) => Parent::Module(Box::new((**p).clone())),
        };
        let r = Module {
            name: self.name.clone(),
            documentation: self.documentation.clone(),
            parent,
            dependencies: clone_dependencies(&self.dependencies),
            visibility: self.visibility,
        };
        proof {
            assert(segments_spec(r) =~= segments_spec(*self));
            assert(dep_views(r.dependencies@) =~= dep_views(self.dependencies@));
        }
        r
    }
}

impl Module {
    /// The names on the path from the crate root down to this module.
    pub fn path_segments(&self) -> (r: Vec<String>)
        ensures
            r@.map_values(|t: String| t@) == segments_spec(*self),
        decreases *self,
    {
        match &self.parent {
            Parent::Lib => {
                let mut out: Vec<String> = Vec::new();
                out.push(self.name.clone());
                proof {
                    assert(out@.map_values(|t: String| t@) =~= segments_spec(*self));
                }
                out
            },
            Parent::Module(p) => {
                let mut out = (**p).path_segments();
                out.push(self.name.clone());
                proof {
                    assert(out@.map_values(|t: String| t@) =~= segments_spec(*self));
                }
                out
            },
        }
    }

    /// The module path inside the generated crate, such as
    /// `crate::top::bottom`.
    #[verifier::loop_isolation(false)]
    pub fn to_module_path(&self) -> (r: String)
        ensures
            r@ == module_path_chars(*self),
    {
        let segs = self.path_segments();
        let mut out = String::from_str("crate");
        let ghost base = out@;
        let ghost views = segs@.map_values(|t: String| t@);
        let mut i: usize = 0;
        while i < segs.len()
            invariant
                0 <= i <= segs@.len(),
                views == segs@.map_values(|t: String| t@),
                out@ == base + colon_join(views.take(i as int)),
            decreases segs@.len() - i,
        {
            out.append("::");
            out.append(segs[i].as_str());
            proof {
                assert(views.take(i as int + 1).drop_last() =~= views.take(i as int));
                assert(views.take(i as int + 1).last() == views[i as int]);
                assert(out@ =~= base + colon_join(views.take(i as int + 1)));
            }
            i += 1;
        }
        proof {
            assert(views.take(views.len() as int) =~= views);
        }
        out
    }

    /// The file path the module's contents are written to, such as
    /// `top/bottom.rs`.
    #[verifier::loop_isolation(false)]
    pub fn to_file_path(&self) -> (r: String)
        ensures
            r@ == file_path_chars(*self),
    {
        let segs = self.path_segments();
        let ghost views = segs@.map_values(|t: String| t@);
        let mut out = String::new();
        let mut i: usize = 0;
        while i < segs.len()
            invariant
                0 <= i <= segs@.len(),
                views == segs@.map_values(|t: String| t@),
                views.len() == segs@.len(),
                out@ == slash_join(views.take(i as int)),
            decreases segs@.len() - i,
        {
            if i > 0 {
                out.append("/");
            }
            out.append(segs[i].as_str());
            proof {
                assert(views.take(i as int + 1).drop_last() =~= views.take(i as int));
                assert(views.take(i as int + 1).last() == views[i as int]);
                if i == 0 {
                    assert(views.take(1).len() == 1);
                    assert(views.take(1)[0] == views[0]);
                    assert(out@ =~= slash_join(views.take(1)));
                } else {
                    assert(out@ =~= slash_join(views.take(i as int + 1)));
                }
            }
            i += 1;
        }
        proof {
            assert(views.take(views.len() as int) =~= views);
        }
        out.append(".rs");
        out
    }

    /// Folds another module's dependencies into this one.
    pub fn merge(&mut self, other: &Module)
        ensures
            final(self).name == old(self).name,
            final(self).documentation == old(self).documentation,
            segments_spec(*final(self)) == segments_spec(*old(self)),
            final(self).visibility == old(self).visibility,
            final(self).dependencies@.len() == old(self).dependencies@.len()
                + other.dependencies@.len(),
            forall|i: int|
                0 <= i < old(self).dependencies@.len() ==> final(self).dependencies@[i] == old(
                    self,
                ).dependencies@[i],
            forall|i: int|
                0 <= i < other.dependencies@.len() ==> {
                    let d = #[trigger] final(self).dependencies@[old(self).dependencies@.len()
                        + i];
                    &&& d.name == other.dependencies@[i].name
                    &&& d.version == other.dependencies@[i].version
                    &&& d.features@ == other.dependencies@[i].features@
                },
            dep_views(final(self).dependencies@) == dep_views(old(self).dependencies@)
                + dep_views(other.dependencies@),
    {
        let mut extra = clone_dependencies(&other.dependencies);
        let ghost before = self.dependencies@;
        let ghost extrav = extra@;
        self.dependencies.append(&mut extra);
        proof {
            assert(dep_views(self.dependencies@) =~= dep_views(old(self).dependencies@)
                + dep_views(other.dependencies@));
        }
    }
}

} // verus!
