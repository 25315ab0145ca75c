use vstd::prelude::*;

use vstd::string::StringExecFns;

use crate::dependency::CargoDependency;
use crate::dependency::dep_line_chars;
use crate::module::Module;
use crate::module::file_path_chars;
use crate::module::module_path_chars;
use crate::text::lemma_lex_le_total;
use crate::text::lemma_lex_le_trans;
use crate::text::lex_le;
use crate::text::str_eq;
use crate::text::str_le;

verus! {

// ---------------------------------------------------------------------------
// The set of modules a generated crate consists of, keyed by module path.
// ---------------------------------------------------------------------------

/// Whether some module in `ms` has the given module path.
pub open spec fn has_module_path(ms: Seq<Module>, path: Seq<char>) -> bool {
    exists|i: int| 0 <= i < ms.len() && module_path_chars(#[trigger] ms[i]) == path
}

/// The dependencies of all modules, in module order.
pub open spec fn all_deps(ms: Seq<Module>) -> Seq<CargoDependency>
    decreases ms.len(),
{
    if ms.len() == 0 {
        Seq::empty()
    } else {
        all_deps(ms.drop_last()) + ms.last().dependencies@
    }
}

/// Whether `s` is sorted by dependency name.
pub open spec fn deps_sorted(s: Seq<CargoDependency>) -> bool {
    forall|i: int, j: int|
        0 <= i < j < s.len() ==> lex_le((#[trigger] s[i]).name@, (#[trigger] s[j]).name@)
}

/// The rendered lines of a dependency list, in order.
pub open spec fn dep_lines_chars(s: Seq<CargoDependency>) -> Seq<char>
    decreases s.len(),
{
    if s.len() == 0 {
        Seq::empty()
    } else {
        dep_lines_chars(s.drop_last()) + dep_line_chars(s.last())
    }
}

/// The modules of a generated crate; each module path appears once.
pub struct Modules {
    modules: Vec<Module>,
}

impl Modules {
    pub closed spec fn spec_modules(&self) -> Seq<Module> {
        self.modules@
    }

    /// No two modules share a module path.
    pub open spec fn wf(&self) -> bool {
        forall|i: int, j: int|
            0 <= i < j < self.spec_modules().len() ==> module_path_chars(
                #[trigger] self.spec_modules()[i],
            ) != module_path_chars(#[trigger] self.spec_modules()[j])
    }

    pub fn new() -> (r: Self)
        ensures
            r.spec_modules().len() == 0,
            r.wf(),
    {
        Modules { modules: Vec::new() }
    }

    /// Adds a module unless one with its path is already present.
    #[verifier::loop_isolation(false)]
    pub fn add_module_to_tree(&mut self, module: Module)
        requires
            old(self).wf(),
        ensures
            final(self).wf(),
            has_module_path(old(self).spec_modules(), module_path_chars(module)) ==> final(self)
                .spec_modules() == old(self).spec_modules(),
            !has_module_path(old(self).spec_modules(), module_path_chars(module)) ==> final(self)
                .spec_modules() == old(self).spec_modules().push(module),
    {
        let ghost entry = module;
        let path = module.to_module_path();
        let mut i: usize = 0;
        while i < self.modules.len()
            invariant
                0 <= i <= self.modules@.len(),
                forall|k: int|
                    0 <= k < i ==> module_path_chars(#[trigger] old(self).modules@[k]) != path@,
                self.modules@ == old(self).modules@,
                path@ == module_path_chars(entry),
            decreases self.modules@.len() - i,
        {
            let other = self.modules[i].to_module_path();
            if str_eq(other.as_str(), path.as_str()) {
                return ;
            }
            i += 1;
        }
        self.modules.push(module);
        proof {
            let ms = self.modules@;
            let before = old(self).modules@;
            assert forall|a: int, b: int|
                0 <= a < b < ms.len() implies module_path_chars(#[trigger] ms[a])
                != module_path_chars(#[trigger] ms[b]) by {
                assert(ms[a] == before[a]);
                if b == ms.len() - 1 {
                    assert(ms[b] == entry);
                    assert(module_path_chars(entry) == path@);
                    assert(module_path_chars(before[a]) != path@);
                } else {
                    assert(ms[b] == before[b]);
                    assert(old(self).spec_modules()[a] == before[a]);
                    assert(old(self).spec_modules()[b] == before[b]);
                    assert(module_path_chars(old(self).spec_modules()[a]) != module_path_chars(
                        old(self).spec_modules()[b],
                    ));
                }
            }
        }
    }

    /// The file paths of all modules, in insertion order.
    #[verifier::loop_isolation(false)]
    pub fn module_file_paths(&self) -> (r: Vec<String>)
        ensures
            r@.len() == self.spec_modules().len(),
            forall|i: int|
                0 <= i < r@.len() ==> (#[trigger] r@[i])@ == file_path_chars(
                    self.spec_modules()[i],
                ),
    {
        let mut out: Vec<String> = Vec::new();
        let mut i: usize = 0;
        while i < self.modules.len()
            invariant
                0 <= i <= self.modules@.len(),
                out@.len() == i,
                forall|k: int|
                    0 <= k < i ==> (#[trigger] out@[k])@ == file_path_chars(self.modules@[k]),
            decreases self.modules@.len() - i,
        {
            out.push(self.modules[i].to_file_path());
            i += 1;
        }
        out
    }

    /// Every module's dependencies, flattened in module order.
    #[verifier::loop_isolation(false)]
    fn dependencies(&self) -> (r: Vec<CargoDependency>)
        ensures
            r@.len() == all_deps(self.spec_modules()).len(),
            forall|i: int|
                0 <= i < r@.len() ==> {
                    let d = all_deps(self.spec_modules())[i];
                    &&& (#[trigger] r@[i]).name == d.name
                    &&& r@[i].version == d.version
                    &&& r@[i].features@ == d.features@
                },
    {
        let mut out: Vec<CargoDependency> = Vec::new();
        let mut i: usize = 0;
        while i < self.modules.len()
            invariant
                0 <= i <= self.modules@.len(),
                out@.len() == all_deps(self.modules@.take(i as int)).len(),
                forall|k: int|
                    0 <= k < out@.len() ==> {
                        let d = all_deps(self.modules@.take(i as int))[k];
                        &&& (#[trigger] out@[k]).name == d.name
                        &&& out@[k].version == d.version
                        &&& out@[k].features@ == d.features@
                    },
            decreases self.modules@.len() - i,
        {
            let mut extra = crate::module::clone_dependencies(&self.modules[i].dependencies);
            let ghost before = out@;
            out.append(&mut extra);
            proof {
                assert(self.modules@.take(i as int + 1).drop_last() =~= self.modules@.take(
                    i as int,
                ));
                assert(self.modules@.take(i as int + 1).last() == self.modules@[i as int]);
            }
            i += 1;
        }
        proof {
            assert(self.modules@.take(self.modules@.len() as int) =~= self.modules@);
        }
        out
    }

    /// The `[dependencies]` section the modules call for: every module's
    /// dependencies, sorted by name; empty when no module needs any.
    #[verifier::loop_isolation(false)]
    pub fn to_manifest(&self) -> (r: String)
        ensures
            all_deps(self.spec_modules()).len() == 0 ==> r@ == Seq::<char>::empty(),
            all_deps(self.spec_modules()).len() > 0 ==> (exists|sorted: Seq<CargoDependency>|
                deps_sorted(sorted) && sorted.len() == all_deps(self.spec_modules()).len() && r@
                    == "[dependencies]\n"@ + dep_lines_chars(sorted)),
    {
        let deps = self.dependencies();
        if deps.len() == 0 {
            return String::new();
        }
        let sorted = sort_deps_by_name(deps);
        let mut out = String::from_str("[dependencies]\n");
        let ghost base = out@;
        let ghost sortedv = sorted@;
        let mut i: usize = 0;
        while i < sorted.len()
            invariant
                0 <= i <= sorted@.len(),
                sorted@ == sortedv,
                out@ == base + dep_lines_chars(sortedv.take(i as int)),
            decreases sorted@.len() - i,
        {
            let line = sorted[i].to_manifest_line();
            out.append(line.as_str());
            proof {
                assert(sortedv.take(i as int + 1).drop_last() =~= sortedv.take(i as int));
                assert(sortedv.take(i as int + 1).last() == sortedv[i as int]);
            }
            i += 1;
        }
        proof {
            assert(sortedv.take(sortedv.len() as int) =~= sortedv);
            assert(deps_sorted(sortedv) && sortedv.len() == all_deps(self.spec_modules()).len()
                && out@ == "[dependencies]\n"@ + dep_lines_chars(sortedv));
        }
        out
    }
}

/// Sorts dependencies by name, by insertion.
#[verifier::loop_isolation(false)]
pub fn sort_deps_by_name(deps: Vec<CargoDependency>) -> (r: Vec<CargoDependency>)
    ensures
        deps_sorted(r@),
        r@.len() == deps@.len(),
{
    let mut rest = deps;
    let mut out: Vec<CargoDependency> = Vec::new();
    loop
        invariant
            deps_sorted(out@),
            out@.len() + rest@.len() == deps@.len(),
        decreases rest@.len(),
    {
        if rest.len() == 0 {
            return out;
        }
        let item = rest.remove(0);
        let mut pos: usize = 0;
        while pos < out.len() && str_le(out[pos].name.as_str(), item.name.as_str())
            invariant
                0 <= pos <= out@.len(),
                forall|k: int| 0 <= k < pos ==> lex_le((#[trigger] out@[k]).name@, item.name@),
            decreases out@.len() - pos,
        {
            pos += 1;
        }
        proof {
            if pos < out@.len() {
                lemma_lex_le_total(out@[pos as int].name@, item.name@);
                assert(lex_le(item.name@, out@[pos as int].name@));
            }
        }
        let ghost before = out@;
        let ghost itemg = item;
        out.insert(pos, item);
        proof {
            assert forall|i: int, j: int|
                0 <= i < j < out@.len() implies lex_le(
                (#[trigger] out@[i]).name@,
                (#[trigger] out@[j]).name@,
            ) by {
                if i < pos && j == pos {
                    assert(out@[i] == before[i]);
                    assert(out@[j] == itemg);
                } else if i == pos && j > pos {
                    assert(out@[i] == itemg);
                    assert(out@[j] == before[j - 1]);
                    assert(lex_le(itemg.name@, before[pos as int].name@));
                    if j - 1 > pos {
                        lemma_lex_le_trans(
                            itemg.name@,
                            before[pos as int].name@,
                            before[j - 1].name@,
                        );
                    }
                } else if i < pos && j > pos {
                    assert(out@[i] == before[i]);
                    assert(out@[j] == before[j - 1]);
                } else if j < pos {
                    assert(out@[i] == before[i]);
                    assert(out@[j] == before[j]);
                } else {
                    assert(out@[i] == before[i - 1]);
                    assert(out@[j] == before[j - 1]);
                }
            }
        }
    }
}

} // verus!
