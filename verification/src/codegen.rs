use vstd::prelude::*;

use vstd::string::StringExecFns;

use crate::dependency::CargoDependency;
use crate::dependency::dep_views;
use crate::metadata::CrateMetadata;
use crate::metadata::metadata_chars;
use crate::module::Module;
use crate::module::module_path_chars;
use crate::module::segments_spec;
use crate::text::lemma_lex_le_total;
use crate::text::lemma_lex_le_trans;
use crate::text::lex_le;
use crate::text::str_le;
use crate::tree::Modules;
use crate::tree::all_deps;
use crate::tree::dep_lines_chars;
use crate::tree::deps_sorted;
use crate::tree::has_module_path;

verus! {

// ---------------------------------------------------------------------------
// A generated crate being assembled: its metadata, its module tree, and
// the contents to write, queued per module.
// ---------------------------------------------------------------------------

/// The reason assembling a crate failed.
#[derive(Debug)]
pub enum Error {
    Unknown { message: String },
}

/// Whether the queued writes are sorted by module path with no two
/// neighbours on the same path.
pub open spec fn writes_merged(s: Seq<(Module, String)>) -> bool {
    &&& forall|i: int, j: int|
        0 <= i < j < s.len() ==> lex_le(
            module_path_chars((#[trigger] s[i]).0),
            module_path_chars((#[trigger] s[j]).0),
        )
    &&& forall|i: int|
        0 <= i < s.len() - 1 ==> module_path_chars((#[trigger] s[i]).0) != module_path_chars(
            s[i + 1].0,
        )
}

/// The view of one queued write: its module path, its content, and its
/// module's dependency views.
pub open spec fn write_view(w: (Module, String)) -> (
    Seq<char>,
    Seq<char>,
    Seq<(Seq<char>, Seq<char>, Seq<Seq<char>>)>,
) {
    (module_path_chars(w.0), w.1@, dep_views(w.0.dependencies@))
}

pub open spec fn write_views(s: Seq<(Module, String)>) -> Seq<
    (Seq<char>, Seq<char>, Seq<(Seq<char>, Seq<char>, Seq<Seq<char>>)>),
> {
    s.map_values(|w: (Module, String)| write_view(w))
}

/// Position at which a write with path `p` is inserted to keep the queue
/// ordered: after every entry at or before it, so writes to one path keep
/// their order.
pub open spec fn insert_pos_from(s: Seq<(Module, String)>, p: Seq<char>, i: int) -> int
    decreases s.len() - i,
{
    if !(0 <= i <= s.len()) {
        i
    } else if i == s.len() {
        i
    } else if lex_le(module_path_chars(s[i].0), p) {
        insert_pos_from(s, p, i + 1)
    } else {
        i
    }
}

/// The stable insertion sort of the first `upto` queued writes.
pub open spec fn sorted_writes(s: Seq<(Module, String)>, upto: int) -> Seq<(Module, String)>
    decreases upto,
{
    if upto <= 0 {
        Seq::empty()
    } else {
        let prev = sorted_writes(s, upto - 1);
        prev.insert(insert_pos_from(prev, module_path_chars(s[upto - 1].0), 0), s[upto - 1])
    }
}

/// Neighbouring writes to the same path folded into one: contents
/// concatenated in order, dependency lists likewise.
pub open spec fn folded_views(
    v: Seq<(Seq<char>, Seq<char>, Seq<(Seq<char>, Seq<char>, Seq<Seq<char>>)>)>,
) -> Seq<(Seq<char>, Seq<char>, Seq<(Seq<char>, Seq<char>, Seq<Seq<char>>)>)>
    decreases v.len(),
{
    if v.len() == 0 {
        Seq::empty()
    } else {
        let rest = folded_views(v.drop_first());
        if rest.len() > 0 && rest[0].0 == v[0].0 {
            seq![(v[0].0, v[0].1 + rest[0].1, v[0].2 + rest[0].2)] + rest.drop_first()
        } else {
            seq![v[0]] + rest
        }
    }
}

/// Position at which a write whose module path is `item_path` keeps
/// `sorted` ordered: the first entry that is not at or before it.
#[verifier::loop_isolation(false)]
fn find_insert_pos(sorted: &Vec<(Module, String)>, item_path: &str) -> (pos: usize)
    ensures
        0 <= pos <= sorted@.len(),
        forall|k: int|
            0 <= k < pos ==> lex_le(module_path_chars((#[trigger] sorted@[k]).0), item_path@),
        pos < sorted@.len() ==> !lex_le(module_path_chars(sorted@[pos as int].0), item_path@),
        pos as int == insert_pos_from(sorted@, item_path@, 0),
{
    let mut pos: usize = 0;
    loop
        invariant
            0 <= pos <= sorted@.len(),
            forall|k: int|
                0 <= k < pos ==> lex_le(module_path_chars((#[trigger] sorted@[k]).0), item_path@),
            insert_pos_from(sorted@, item_path@, 0) == insert_pos_from(
                sorted@,
                item_path@,
                pos as int,
            ),
        decreases sorted@.len() - pos,
    {
        if pos == sorted.len() {
            return pos;
        }
        let other = sorted[pos].0.to_module_path();
        if !str_le(other.as_str(), item_path) {
            return pos;
        }
        pos += 1;
    }
}

/// Folds neighbouring writes to the same path into one, concatenating
/// their contents in order and merging their modules' dependencies; the
/// queue must already be sorted by path.
#[verifier::loop_isolation(false)]
fn fold_runs(src: Vec<(Module, String)>) -> (out: Vec<(Module, String)>)
    requires
        forall|i: int, j: int|
            0 <= i < j < src@.len() ==> lex_le(
                module_path_chars((#[trigger] src@[i]).0),
                module_path_chars((#[trigger] src@[j]).0),
            ),
    ensures
        write_views(out@) == folded_views(write_views(src@)),
        writes_merged(out@),
        out@.len() == 0 <==> src@.len() == 0,
        out@.len() > 0 ==> module_path_chars(out@[0].0) == module_path_chars(src@[0].0),
    decreases src@.len(),
{
    let ghost srcv = src@;
    let mut src = src;
    if src.len() == 0 {
        let out: Vec<(Module, String)> = Vec::new();
        assert(write_views(out@) =~= folded_views(write_views(srcv)));
        return out;
    }
    assert(srcv.len() > 0);
    let (head_m, head_s) = src.remove(0);
    let ghost head = (head_m, head_s);
    proof {
        assert(src@ =~= srcv.drop_first());
        assert forall|i: int, j: int|
            0 <= i < j < src@.len() implies lex_le(
            module_path_chars((#[trigger] src@[i]).0),
            module_path_chars((#[trigger] src@[j]).0),
        ) by {
            assert(src@[i] == srcv[i + 1]);
            assert(src@[j] == srcv[j + 1]);
        }
    }
    let rest = fold_runs(src);
    let ghost restv = rest@;
    let head_path = head_m.to_module_path();
    if rest.len() > 0 {
        let first_path = rest[0].0.to_module_path();
        if crate::text::str_eq(head_path.as_str(), first_path.as_str()) {
            // the head joins the first run of the rest
            let mut rest = rest;
            let (mut run_m, run_s) = rest.remove(0);
            let mut merged_m = head_m;
            merged_m.merge(&run_m);
            let mut merged_s = head_s;
            merged_s.append(run_s.as_str());
            let ghost merged = (merged_m, merged_s);
            let mut out: Vec<(Module, String)> = Vec::new();
            out.push((merged_m, merged_s));
            let mut tail_rest = rest;
            out.append(&mut tail_rest);
            proof {
                assert(out@ =~= seq![merged] + restv.drop_first());
                assert(module_path_chars(merged.0) == module_path_chars(head.0));
                assert(write_views(srcv)[0] == write_view(head));
                assert(write_views(srcv).drop_first() =~= write_views(srcv.drop_first()));
                assert(write_views(out@) =~= seq![write_view(merged)] + write_views(
                    restv,
                ).drop_first());
                assert(write_views(restv)[0] == write_view(restv[0]));
                assert(write_views(out@) =~= folded_views(write_views(srcv)));
                assert forall|i: int, j: int|
                    0 <= i < j < out@.len() implies lex_le(
                    module_path_chars((#[trigger] out@[i]).0),
                    module_path_chars((#[trigger] out@[j]).0),
                ) by {
                    if i > 0 {
                        assert(out@[i] == restv[i]);
                        assert(out@[j] == restv[j]);
                    } else {
                        assert(out@[j] == restv[j]);
                        assert(lex_le(
                            module_path_chars(restv[0].0),
                            module_path_chars(restv[j].0),
                        ));
                    }
                }
                assert forall|i: int|
                    0 <= i < out@.len() - 1 implies module_path_chars((#[trigger] out@[i]).0)
                    != module_path_chars(out@[i + 1].0) by {
                    if i > 0 {
                        assert(out@[i] == restv[i]);
                        assert(out@[i + 1] == restv[i + 1]);
                    } else {
                        assert(out@[1] == restv[1]);
                        assert(module_path_chars(restv[0].0) != module_path_chars(restv[1].0));
                    }
                }
            }
            out
        } else {
            let mut out: Vec<(Module, String)> = Vec::new();
            out.push((head_m, head_s));
            let mut tail_rest = rest;
            out.append(&mut tail_rest);
            proof {
                assert(out@ =~= seq![head] + restv);
                assert(write_views(srcv)[0] == write_view(head));
                assert(write_views(srcv).drop_first() =~= write_views(srcv.drop_first()));
                assert(write_views(restv)[0] == write_view(restv[0]));
                assert(write_views(out@) =~= seq![write_view(head)] + write_views(restv));
                assert(write_views(out@) =~= folded_views(write_views(srcv)));
                assert(module_path_chars(restv[0].0) == module_path_chars(srcv.drop_first()[0].0));
                assert(srcv.drop_first()[0] == srcv[1]);
                assert(lex_le(module_path_chars(head.0), module_path_chars(srcv[1].0)));
                assert forall|i: int, j: int|
                    0 <= i < j < out@.len() implies lex_le(
                    module_path_chars((#[trigger] out@[i]).0),
                    module_path_chars((#[trigger] out@[j]).0),
                ) by {
                    if i > 0 {
                        assert(out@[i] == restv[i - 1]);
                        assert(out@[j] == restv[j - 1]);
                    } else {
                        assert(out@[j] == restv[j - 1]);
                        if j > 1 {
                            crate::text::lemma_lex_le_trans(
                                module_path_chars(head.0),
                                module_path_chars(restv[0].0),
                                module_path_chars(restv[j - 1].0),
                            );
                        }
                    }
                }
                assert forall|i: int|
                    0 <= i < out@.len() - 1 implies module_path_chars((#[trigger] out@[i]).0)
                    != module_path_chars(out@[i + 1].0) by {
                    if i > 0 {
                        assert(out@[i] == restv[i - 1]);
                        assert(out@[i + 1] == restv[i]);
                    } else {
                        assert(out@[1] == restv[0]);
                    }
                }
            }
            out
        }
    } else {
        let mut out: Vec<(Module, String)> = Vec::new();
        out.push((head_m, head_s));
        proof {
            assert(restv.len() == 0);
            assert(write_views(restv) =~= Seq::<
                (Seq<char>, Seq<char>, Seq<(Seq<char>, Seq<char>, Seq<Seq<char>>)>),
            >::empty());
            assert(folded_views(write_views(srcv.drop_first())) == write_views(restv));
            assert(write_views(srcv)[0] == write_view(head));
            assert(write_views(srcv).drop_first() =~= write_views(srcv.drop_first()));
            assert(out@ =~= seq![head]);
            assert(write_views(out@) =~= seq![write_view(head)]);
            assert(write_views(out@) =~= folded_views(write_views(srcv)));
        }
        out
    }
}

/// A crate under construction.
pub struct Crate {
    metadata: CrateMetadata,
    modules: Modules,
    pending_writes: Vec<(Module, String)>,
}

impl Crate {
    pub closed spec fn spec_metadata(&self) -> CrateMetadata {
        self.metadata
    }

    pub closed spec fn spec_modules(&self) -> Seq<Module> {
        self.modules.spec_modules()
    }

    pub closed spec fn spec_pending(&self) -> Seq<(Module, String)> {
        self.pending_writes@
    }

    pub closed spec fn wf(&self) -> bool {
        self.modules.wf()
    }

    pub fn new(metadata: CrateMetadata) -> (r: Self)
        ensures
            r.spec_metadata() == metadata,
            r.spec_modules().len() == 0,
            r.spec_pending().len() == 0,
            r.wf(),
    {
        Self { metadata, modules: Modules::new(), pending_writes: Vec::new() }
    }

    /// Queues `content` for the module and records the module in the
    /// tree.
    pub fn write(&mut self, module: Module, content: String)
        requires
            old(self).wf(),
        ensures
            final(self).wf(),
            final(self).spec_metadata() == old(self).spec_metadata(),
            final(self).spec_pending().len() == old(self).spec_pending().len() + 1,
            forall|i: int|
                0 <= i < old(self).spec_pending().len() ==> final(self).spec_pending()[i] == old(
                    self,
                ).spec_pending()[i],
            segments_spec(final(self).spec_pending().last().0) == segments_spec(module),
            final(self).spec_pending().last().0.name == module.name,
            final(self).spec_pending().last().0.documentation == module.documentation,
            final(self).spec_pending().last().0.visibility == module.visibility,
            dep_views(final(self).spec_pending().last().0.dependencies@) == dep_views(
                module.dependencies@,
            ),
            final(self).spec_pending().last().1 == content,
            has_module_path(old(self).spec_modules(), module_path_chars(module)) ==> final(self)
                .spec_modules() == old(self).spec_modules(),
            !has_module_path(old(self).spec_modules(), module_path_chars(module)) ==> final(self)
                .spec_modules() == old(self).spec_modules().push(module),
    {
        let copy = module.clone();
        self.pending_writes.push((copy, content));
        self.modules.add_module_to_tree(module);
    }

    /// The metadata the crate was created with.
    pub fn metadata(&self) -> (r: &CrateMetadata)
        ensures
            *r == self.spec_metadata(),
    {
        &self.metadata
    }

    /// The queued writes, in order: each module with the content that
    /// will fill its file.
    pub fn writes(&self) -> (r: &Vec<(Module, String)>)
        ensures
            r@ == self.spec_pending(),
    {
        &self.pending_writes
    }

    /// The file paths of the recorded modules.
    pub fn module_file_paths(&self) -> (r: Vec<String>)
        ensures
            r@.len() == self.spec_modules().len(),
            forall|i: int|
                0 <= i < r@.len() ==> (#[trigger] r@[i])@ == crate::module::file_path_chars(
                    self.spec_modules()[i],
                ),
    {
        self.modules.module_file_paths()
    }

    /// The manifest of the generated crate: its `[package]` section and
    /// the `[dependencies]` its modules call for.
    pub fn cargo_toml_contents(&self) -> (r: String)
        ensures
            all_deps(self.spec_modules()).len() == 0 ==> r@ == metadata_chars(
                self.spec_metadata(),
            ) + "\n"@ + "\n"@ + "\n"@ + "\n"@,
            all_deps(self.spec_modules()).len() > 0 ==> (exists|sorted: Seq<CargoDependency>|
                deps_sorted(sorted) && sorted.len() == all_deps(self.spec_modules()).len() && r@
                    == metadata_chars(self.spec_metadata()) + "\n"@ + "\n"@ + "[dependencies]\n"@
                    + dep_lines_chars(sorted) + "\n"@ + "\n"@),
    {
        let mut out = self.metadata.to_manifest();
        out.append("\n");
        out.append("\n");
        let deps_part = self.modules.to_manifest();
        out.append(deps_part.as_str());
        out.append("\n");
        out.append("\n");
        proof {
            if all_deps(self.spec_modules()).len() == 0 {
                assert(deps_part@ == Seq::<char>::empty());
                assert(out@ =~= metadata_chars(self.spec_metadata()) + "\n"@ + "\n"@ + "\n"@
                    + "\n"@);
            } else {
                let sorted = choose|s: Seq<CargoDependency>|
                    deps_sorted(s) && s.len() == all_deps(self.spec_modules()).len()
                        && deps_part@ == "[dependencies]\n"@ + dep_lines_chars(s);
                assert(out@ =~= metadata_chars(self.spec_metadata()) + "\n"@ + "\n"@
                    + "[dependencies]\n"@ + dep_lines_chars(sorted) + "\n"@ + "\n"@);
            }
        }
        out
    }

    /// Sorts the queued writes by module path — stably, so writes to one
    /// path keep their order — and folds writes to the same module into
    /// one, concatenating their contents in order and merging the
    /// modules' dependencies.  Afterwards the queue holds one write per
    /// module path, in path order.
    #[verifier::loop_isolation(false)]
    pub fn merge_pending_writes(&mut self)
        requires
            old(self).wf(),
        ensures
            final(self).wf(),
            final(self).spec_metadata() == old(self).spec_metadata(),
            final(self).spec_modules() == old(self).spec_modules(),
            writes_merged(final(self).spec_pending()),
            write_views(final(self).spec_pending()) == folded_views(write_views(sorted_writes(
                old(self).spec_pending(),
                old(self).spec_pending().len() as int,
            ))),
    {
        let ghost pending0 = self.pending_writes@;
        let mut rest: Vec<(Module, String)> = Vec::new();
        core::mem::swap(&mut self.pending_writes, &mut rest);
        // sort by module path, stably
        let mut sorted: Vec<(Module, String)> = Vec::new();
        let ghost mut c: int = 0;
        loop
            invariant
                0 <= c <= pending0.len(),
                rest@ == pending0.skip(c),
                sorted@ == sorted_writes(pending0, c),
                forall|i: int, j: int|
                    0 <= i < j < sorted@.len() ==> lex_le(
                        module_path_chars((#[trigger] sorted@[i]).0),
                        module_path_chars((#[trigger] sorted@[j]).0),
                    ),
            decreases rest@.len(),
        {
            if rest.len() == 0 {
                break;
            }
            let item = rest.remove(0);
            proof {
                assert(item == pending0[c]);
                assert(rest@ =~= pending0.skip(c + 1));
            }
            let item_path = item.0.to_module_path();
            let pos = find_insert_pos(&sorted, item_path.as_str());
            proof {
                if pos < sorted@.len() {
                    lemma_lex_le_total(
                        module_path_chars(sorted@[pos as int].0),
                        item_path@,
                    );
                    assert(lex_le(item_path@, module_path_chars(sorted@[pos as int].0)));
                }
            }
            let ghost before = sorted@;
            let ghost itemg = item;
            sorted.insert(pos, item);
            proof {
                c = c + 1;
                assert(sorted@ == sorted_writes(pending0, c));
                assert forall|i: int, j: int|
                    0 <= i < j < sorted@.len() implies lex_le(
                    module_path_chars((#[trigger] sorted@[i]).0),
                    module_path_chars((#[trigger] sorted@[j]).0),
                ) by {
                    if i < pos && j == pos {
                        assert(sorted@[i] == before[i]);
                        assert(sorted@[j] == itemg);
                    } else if i == pos && j > pos {
                        assert(sorted@[i] == itemg);
                        assert(sorted@[j] == before[j - 1]);
                        assert(lex_le(item_path@, module_path_chars(before[pos as int].0)));
                        if j - 1 > pos {
                            lemma_lex_le_trans(
                                item_path@,
                                module_path_chars(before[pos as int].0),
                                module_path_chars(before[j - 1].0),
                            );
                        }
                    } else if i < pos && j > pos {
                        assert(sorted@[i] == before[i]);
                        assert(sorted@[j] == before[j - 1]);
                    } else if j < pos {
                        assert(sorted@[i] == before[i]);
                        assert(sorted@[j] == before[j]);
                    } else {
                        assert(sorted@[i] == before[i - 1]);
                        assert(sorted@[j] == before[j - 1]);
                    }
                }
            }
        }
        proof {
            assert(c == pending0.len());
        }
        // fold neighbouring writes to the same module
        let merged = fold_runs(sorted);
        self.pending_writes = merged;
    }
}

} // verus!
