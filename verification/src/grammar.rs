use vstd::prelude::*;

use crate::expression::Expression;
use crate::expression::Grammar;
use crate::expression::NumValues;
use crate::expression::Rule;
use crate::expression::RuleName;
use crate::expression::expr_closed;
use crate::expression::expr_height;
use crate::expression::exprs_closed;
use crate::expression::find_rule;
use crate::expression::grammar_wf;
use crate::expression::has_rule;
use crate::expression::lemma_exprs_height_elem;
use crate::expression::lemma_rule_index_from;
use crate::expression::rule_index;
use crate::expression::rule_index_from;
use crate::parser::Error;
use crate::parser::RuleDef;

verus! {

// ---------------------------------------------------------------------------
// Building a grammar out of recognised rule definitions: merging of
// incremental (`=/`) definitions, duplicate detection, reference
// resolution and rejection of left recursion that makes no progress.
// ---------------------------------------------------------------------------

/// The alternation branches an expression contributes when it is extended
/// or extends another: an alternation contributes its branches, anything
/// else itself.
pub open spec fn branches_of(e: Expression) -> Seq<Expression> {
    match e {
        Expression::Alternation(bs) => bs@,
        other => seq![other],
    }
}

/// Merges an incremental definition into an existing rule body: the new
/// branches are appended, in order, after the existing ones.
pub fn append_branches(old_body: Expression, new_body: Expression) -> (r: Expression)
    ensures
        r matches Expression::Alternation(bs) && bs@ == branches_of(old_body) + branches_of(
            new_body,
        ),
{
    let ghost old_spec = old_body;
    let ghost new_spec = new_body;
    let mut bs: Vec<Expression> = match old_body {
        Expression::Alternation(v) => v,
        other => {
            let mut v: Vec<Expression> = Vec::new();
            v.push(other);
            proof {
                assert(v@ =~= branches_of(old_spec));
            }
            v
        },
    };
    assert(bs@ == branches_of(old_spec));
    match new_body {
        Expression::Alternation(mut v2) => {
            bs.append(&mut v2);
        },
        other => {
            bs.push(other);
            proof {
                assert(bs@ =~= branches_of(old_spec) + branches_of(new_spec));
            }
        },
    }
    assert(bs@ =~= branches_of(old_spec) + branches_of(new_spec));
    Expression::Alternation(bs)
}

/// Index-returning variant of rule lookup.
pub fn find_rule_index(rules: &Vec<Rule>, name: &RuleName) -> (r: Option<usize>)
    ensures
        match r {
            Some(ix) => rule_index(rules@, name@) == ix as int && ix < rules@.len()
                && rules@[ix as int].name@ == name@,
            None => rule_index(rules@, name@) == -1,
        },
{
    let mut i: usize = 0;
    while i < rules.len()
        invariant
            0 <= i <= rules@.len(),
            rule_index_from(rules@, name@, 0) == rule_index_from(rules@, name@, i as int),
        decreases rules@.len() - i,
    {
        if rules[i].name.same_name(name) {
            return Some(i);
        }
        i += 1;
    }
    None
}

pub proof fn lemma_exprs_closed_all(es: Seq<Expression>, rules: Seq<Rule>)
    requires
        forall|k: int| 0 <= k < es.len() ==> expr_closed(#[trigger] es[k], rules),
    ensures
        exprs_closed(es, rules),
    decreases es.len(),
{
    if es.len() > 0 {
        assert forall|k: int| 0 <= k < es.drop_first().len() implies expr_closed(
            #[trigger] es.drop_first()[k],
            rules,
        ) by {
            assert(es.drop_first()[k] == es[k + 1]);
        }
        lemma_exprs_closed_all(es.drop_first(), rules);
    }
}

/// Returns the name of the first rule reference in `e` that does not
/// resolve in `rules`, or `None` when every reference resolves.
#[verifier::loop_isolation(false)]
pub fn unresolved_ref(e: &Expression, rules: &Vec<Rule>) -> (r: Option<RuleName>)
    ensures
        r is None <==> expr_closed(*e, rules@),
        r matches Some(n) ==> rule_index(rules@, n@) == -1,
    decreases expr_height(*e),
{
    match e {
        Expression::Literal(_) => None,
        Expression::NumericTerm(_, _) => None,
        Expression::Prose(_) => None,
        Expression::RuleRef(n) => {
            proof {
                lemma_rule_index_from(rules@, n@, 0);
            }
            match find_rule(rules, n) {
                Some(_) => None,
                None => Some(n.clone()),
            }
        },
        Expression::Group(inner) => unresolved_ref(&*inner, rules),
        Expression::Optional(inner) => unresolved_ref(&*inner, rules),
        Expression::Repetition { inner, .. } => unresolved_ref(&*inner, rules),
        Expression::Concatenation(es) => unresolved_refs(es, rules, e),
        Expression::Alternation(es) => unresolved_refs(es, rules, e),
    }
}

/// First unresolved reference among `es`, a list of sub-expressions of
/// `parent` (carried only for the termination measure).
#[verifier::loop_isolation(false)]
fn unresolved_refs(es: &Vec<Expression>, rules: &Vec<Rule>, parent: &Expression) -> (r: Option<
    RuleName,
>)
    requires
        crate::expression::exprs_height(es@) < expr_height(*parent),
    ensures
        r is None <==> exprs_closed(es@, rules@),
        r matches Some(n) ==> rule_index(rules@, n@) == -1,
    decreases expr_height(*parent), 0int,
{
    let mut i: usize = 0;
    while i < es.len()
        invariant
            0 <= i <= es@.len(),
            forall|k: int| 0 <= k < i ==> expr_closed(#[trigger] es@[k], rules@),
        decreases es@.len() - i,
    {
        proof {
            lemma_exprs_height_elem(es@, i as int);
        }
        match unresolved_ref(&es[i], rules) {
            Some(n) => {
                proof {
                    lemma_exprs_closed_not(es@, rules@, i as int);
                }
                return Some(n);
            },
            None => {
                i += 1;
            },
        }
    }
    proof {
        lemma_exprs_closed_all(es@, rules@);
    }
    None
}

proof fn lemma_exprs_closed_not(es: Seq<Expression>, rules: Seq<Rule>, i: int)
    requires
        0 <= i < es.len(),
        !expr_closed(es[i], rules),
    ensures
        !exprs_closed(es, rules),
    decreases i,
{
    if i > 0 {
        assert(es.drop_first()[i - 1] == es[i]);
        lemma_exprs_closed_not(es.drop_first(), rules, i - 1);
    }
}

// ---------------------------------------------------------------------------
// The merge of definitions into a rule table.
// ---------------------------------------------------------------------------

/// One merging step: a plain definition of a new name is appended to the
/// table; an incremental definition appends its branches to the rule it
/// extends, in place.
pub open spec fn step_rel(t: Seq<Rule>, d: RuleDef, t2: Seq<Rule>) -> bool {
    let ix = rule_index(t, d.name@);
    if ix >= 0 {
        &&& d.incremental
        &&& t2.len() == t.len()
        &&& forall|j: int| 0 <= j < t.len() && j != ix ==> t2[j] == t[j]
        &&& t2[ix].name == t[ix].name
        &&& t2[ix].body matches Expression::Alternation(bs) && bs@ == branches_of(t[ix].body)
            + branches_of(d.body)
    } else {
        &&& !d.incremental
        &&& t2 == t.push(Rule { name: d.name, body: d.body })
    }
}

/// A full merge history: `tables[k]` is the table before definition `k`
/// is merged, starting empty, and each definition steps it once.
pub open spec fn merge_chain(defs: Seq<RuleDef>, tables: Seq<Seq<Rule>>) -> bool {
    &&& tables.len() == defs.len() + 1
    &&& tables[0] == Seq::<Rule>::empty()
    &&& forall|k: int|
        0 <= k < defs.len() ==> step_rel(#[trigger] tables[k], defs[k], tables[k + 1])
}

/// Whether definition `k` clashes with the ones before it: a second `=`
/// of an already-defined name, or an `=/` of a name not yet defined.
pub open spec fn def_fault(defs: Seq<RuleDef>, k: int) -> bool {
    let seen = exists|j: int| 0 <= j < k && (#[trigger] defs[j].name)@ == defs[k].name@;
    (seen && !defs[k].incremental) || (!seen && defs[k].incremental)
}

/// Index of the first clashing definition at or after `i`, or -1.
pub open spec fn merge_fault_from(defs: Seq<RuleDef>, i: int) -> int
    decreases defs.len() - i,
{
    if !(0 <= i < defs.len()) {
        -1
    } else if def_fault(defs, i) {
        i
    } else {
        merge_fault_from(defs, i + 1)
    }
}

/// A table holds a name as soon as one of its rules carries it.
pub proof fn lemma_index_present(t: Seq<Rule>, n: Seq<char>, p: int)
    requires
        0 <= p < t.len(),
        t[p].name@ == n,
    ensures
        rule_index(t, n) >= 0,
{
    lemma_rule_index_from(t, n, 0);
}

/// A found index is in bounds and carries the name.
pub proof fn lemma_index_match(t: Seq<Rule>, n: Seq<char>)
    requires
        rule_index(t, n) >= 0,
    ensures
        0 <= rule_index(t, n) < t.len(),
        t[rule_index(t, n)].name@ == n,
{
    lemma_rule_index_from(t, n, 0);
}

/// A partially merged table holds a name exactly when one of the already
/// merged definitions declares it.
pub proof fn lemma_chain_name(defs: Seq<RuleDef>, tables: Seq<Seq<Rule>>, upto: int, n: Seq<char>)
    requires
        0 <= upto < tables.len(),
        upto <= defs.len(),
        tables[0] == Seq::<Rule>::empty(),
        forall|k: int| 0 <= k < upto ==> step_rel(#[trigger] tables[k], defs[k], tables[k + 1]),
    ensures
        rule_index(tables[upto], n) >= 0 <==> exists|j: int|
            0 <= j < upto && (#[trigger] defs[j].name)@ == n,
    decreases upto,
{
    let table = tables[upto];
    if upto <= 0 {
        lemma_rule_index_from(table, n, 0);
        assert(table.len() == 0);
    } else {
        lemma_chain_name(defs, tables, upto - 1, n);
        let prev = tables[upto - 1];
        let d = defs[upto - 1];
        let ix = rule_index(prev, d.name@);
        assert(step_rel(prev, d, table));
        if ix >= 0 {
            lemma_index_match(prev, d.name@);
            assert(table.len() == prev.len());
            assert forall|k: int| 0 <= k < table.len() implies (#[trigger] table[k].name)@
                == prev[k].name@ by {
                if k == ix {
                    assert(table[k].name == prev[k].name);
                } else {
                    assert(table[k] == prev[k]);
                }
            }
            if rule_index(table, n) >= 0 {
                lemma_index_match(table, n);
                let p = rule_index(table, n);
                assert(prev[p].name@ == n);
                lemma_index_present(prev, n, p);
            }
            if exists|j: int| 0 <= j < upto && (#[trigger] defs[j].name)@ == n {
                let j = choose|j: int| 0 <= j < upto && (#[trigger] defs[j].name)@ == n;
                if j == upto - 1 {
                    assert(prev[ix].name@ == n);
                    lemma_index_present(prev, n, ix);
                }
                lemma_index_match(prev, n);
                let p = rule_index(prev, n);
                assert(table[p].name@ == n);
                lemma_index_present(table, n, p);
            }
        } else {
            assert(table == prev.push(Rule { name: d.name, body: d.body }));
            assert(table.len() == prev.len() + 1);
            if rule_index(table, n) >= 0 {
                lemma_index_match(table, n);
                let p = rule_index(table, n);
                if p < prev.len() {
                    assert(table[p] == prev[p]);
                    lemma_index_present(prev, n, p);
                } else {
                    assert(table[p].name == d.name);
                    assert(defs[upto - 1].name@ == n);
                }
            }
            if exists|j: int| 0 <= j < upto && (#[trigger] defs[j].name)@ == n {
                let j = choose|j: int| 0 <= j < upto && (#[trigger] defs[j].name)@ == n;
                if j < upto - 1 {
                    lemma_index_match(prev, n);
                    let p = rule_index(prev, n);
                    assert(table[p] == prev[p]);
                    lemma_index_present(table, n, p);
                } else {
                    assert(table[table.len() - 1].name == d.name);
                    lemma_index_present(table, n, table.len() - 1);
                }
            }
        }
    }
}

// ---------------------------------------------------------------------------
// Left recursion without progress.
//
// A rule that can reach a reference to itself without consuming any input
// would recurse forever in an unbounded evaluator, so such a cycle is a
// fatal construction error.  `spec_nullable` and `spec_reaches` define the
// bounded exploration of the reference graph: `fuel` bounds the number of
// rule expansions, and a fuel of the number of rules suffices to follow
// any simple cycle.  Cycles that consume input on every traversal are
// permitted.
// ---------------------------------------------------------------------------

/// Whether `e` can match without consuming any input, explored with at
/// most `fuel` rule expansions.
pub open spec fn spec_nullable(rules: Seq<Rule>, e: Expression, fuel: nat) -> bool
    decreases fuel, e,
{
    match e {
        Expression::Literal(l) => l@.len() == 0,
        Expression::NumericTerm(_, vals) => match vals {
            NumValues::Sequence(vs) => vs@.len() == 0,
            _ => false,
        },
        Expression::Prose(_) => false,
        Expression::RuleRef(n) => fuel > 0 && rule_index(rules, n@) >= 0 && spec_nullable(
            rules,
            rules[rule_index(rules, n@)].body,
            (fuel - 1) as nat,
        ),
        Expression::Group(inner) => spec_nullable(rules, *inner, fuel),
        Expression::Optional(_) => true,
        Expression::Repetition { min, inner, .. } => min == 0 || spec_nullable(
            rules,
            *inner,
            fuel,
        ),
        Expression::Concatenation(es) => spec_all_nullable(rules, es@, fuel),
        Expression::Alternation(es) => spec_any_nullable(rules, es@, fuel),
    }
}

pub open spec fn spec_all_nullable(rules: Seq<Rule>, es: Seq<Expression>, fuel: nat) -> bool
    decreases fuel, es,
{
    if es.len() == 0 {
        true
    } else {
        spec_nullable(rules, es[0], fuel) && spec_all_nullable(rules, es.drop_first(), fuel)
    }
}

pub open spec fn spec_any_nullable(rules: Seq<Rule>, es: Seq<Expression>, fuel: nat) -> bool
    decreases fuel, es,
{
    if es.len() == 0 {
        false
    } else {
        spec_nullable(rules, es[0], fuel) || spec_any_nullable(rules, es.drop_first(), fuel)
    }
}

/// Whether evaluating `e` can reach a reference to `target` before any
/// input has been consumed, with at most `fuel` rule expansions.
pub open spec fn spec_reaches(rules: Seq<Rule>, e: Expression, target: Seq<char>, fuel: nat)
    -> bool
    decreases fuel, e,
{
    match e {
        Expression::Literal(_) => false,
        Expression::NumericTerm(_, _) => false,
        Expression::Prose(_) => false,
        Expression::RuleRef(n) => n@ == target || (fuel > 0 && rule_index(rules, n@) >= 0
            && spec_reaches(rules, rules[rule_index(rules, n@)].body, target, (fuel - 1) as nat)),
        Expression::Group(inner) => spec_reaches(rules, *inner, target, fuel),
        Expression::Optional(inner) => spec_reaches(rules, *inner, target, fuel),
        Expression::Repetition { inner, .. } => spec_reaches(rules, *inner, target, fuel),
        Expression::Concatenation(es) => spec_reaches_prefix(rules, es@, target, fuel),
        Expression::Alternation(es) => spec_any_reaches(rules, es@, target, fuel),
    }
}

/// A reference is reachable in a concatenation while everything before it
/// can match empty.
pub open spec fn spec_reaches_prefix(
    rules: Seq<Rule>,
    es: Seq<Expression>,
    target: Seq<char>,
    fuel: nat,
) -> bool
    decreases fuel, es,
{
    if es.len() == 0 {
        false
    } else {
        spec_reaches(rules, es[0], target, fuel) || (spec_nullable(rules, es[0], rules.len())
            && spec_reaches_prefix(rules, es.drop_first(), target, fuel))
    }
}

pub open spec fn spec_any_reaches(
    rules: Seq<Rule>,
    es: Seq<Expression>,
    target: Seq<char>,
    fuel: nat,
) -> bool
    decreases fuel, es,
{
    if es.len() == 0 {
        false
    } else {
        spec_reaches(rules, es[0], target, fuel) || spec_any_reaches(
            rules,
            es.drop_first(),
            target,
            fuel,
        )
    }
}

/// Index of the first rule that can reach itself without progress, at or
/// after `k`, or -1.
pub open spec fn left_recursive_from(rules: Seq<Rule>, k: int) -> int
    decreases rules.len() - k,
{
    if !(0 <= k < rules.len()) {
        -1
    } else if spec_reaches(rules, rules[k].body, rules[k].name@, rules.len() as nat) {
        k
    } else {
        left_recursive_from(rules, k + 1)
    }
}

/// Whether `e` can match without consuming any input.
#[verifier::loop_isolation(false)]
fn nullable_expr(rules: &Vec<Rule>, e: &Expression, fuel: usize) -> (r: bool)
    ensures
        r == spec_nullable(rules@, *e, fuel as nat),
    decreases fuel, expr_height(*e),
{
    match e {
        Expression::Literal(l) => l.len() == 0,
        Expression::NumericTerm(_, vals) => match vals {
            NumValues::Sequence(vs) => vs.len() == 0,
            _ => false,
        },
        Expression::Prose(_) => false,
        Expression::RuleRef(n) => {
            if fuel == 0 {
                false
            } else {
                proof {
                    lemma_rule_index_from(rules@, n@, 0);
                }
                match find_rule(rules, n) {
                    Some(rule) => nullable_expr(rules, &rule.body, fuel - 1),
                    None => false,
                }
            }
        },
        Expression::Group(inner) => nullable_expr(rules, &*inner, fuel),
        Expression::Optional(_) => true,
        Expression::Repetition { min, inner, .. } => *min == 0 || nullable_expr(
            rules,
            &*inner,
            fuel,
        ),
        Expression::Concatenation(es) => {
            let mut i: usize = 0;
            assert(es@.skip(0) =~= es@);
            while i < es.len()
                invariant
                    0 <= i <= es@.len(),
                    spec_all_nullable(rules@, es@, fuel as nat) == spec_all_nullable(
                        rules@,
                        es@.skip(i as int),
                        fuel as nat,
                    ),
                decreases es@.len() - i,
            {
                proof {
                    lemma_exprs_height_elem(es@, i as int);
                    assert(es@.skip(i as int)[0] == es@[i as int]);
                    assert(es@.skip(i as int).drop_first() =~= es@.skip(i as int + 1));
                }
                if !nullable_expr(rules, &es[i], fuel) {
                    return false;
                }
                i += 1;
            }
            assert(es@.skip(i as int).len() == 0);
            true
        },
        Expression::Alternation(es) => {
            let mut i: usize = 0;
            assert(es@.skip(0) =~= es@);
            while i < es.len()
                invariant
                    0 <= i <= es@.len(),
                    spec_any_nullable(rules@, es@, fuel as nat) == spec_any_nullable(
                        rules@,
                        es@.skip(i as int),
                        fuel as nat,
                    ),
                decreases es@.len() - i,
            {
                proof {
                    lemma_exprs_height_elem(es@, i as int);
                    assert(es@.skip(i as int)[0] == es@[i as int]);
                    assert(es@.skip(i as int).drop_first() =~= es@.skip(i as int + 1));
                }
                if nullable_expr(rules, &es[i], fuel) {
                    return true;
                }
                i += 1;
            }
            assert(es@.skip(i as int).len() == 0);
            false
        },
    }
}

/// Whether evaluating `e` can reach a reference to `target` before any
/// input has been consumed.
#[verifier::loop_isolation(false)]
fn reaches_without_progress(
    rules: &Vec<Rule>,
    e: &Expression,
    target: &RuleName,
    fuel: usize,
) -> (r: bool)
    ensures
        r == spec_reaches(rules@, *e, target@, fuel as nat),
    decreases fuel, expr_height(*e),
{
    match e {
        Expression::Literal(_) => false,
        Expression::NumericTerm(_, _) => false,
        Expression::Prose(_) => false,
        Expression::RuleRef(n) => {
            if n.same_name(target) {
                true
            } else if fuel == 0 {
                false
            } else {
                proof {
                    lemma_rule_index_from(rules@, n@, 0);
                }
                match find_rule(rules, n) {
                    Some(rule) => reaches_without_progress(rules, &rule.body, target, fuel - 1),
                    None => false,
                }
            }
        },
        Expression::Group(inner) => reaches_without_progress(rules, &*inner, target, fuel),
        Expression::Optional(inner) => reaches_without_progress(rules, &*inner, target, fuel),
        Expression::Repetition { inner, .. } => reaches_without_progress(
            rules,
            &*inner,
            target,
            fuel,
        ),
        Expression::Concatenation(es) => {
            let mut i: usize = 0;
            assert(es@.skip(0) =~= es@);
            while i < es.len()
                invariant
                    0 <= i <= es@.len(),
                    spec_reaches_prefix(rules@, es@, target@, fuel as nat) == spec_reaches_prefix(
                        rules@,
                        es@.skip(i as int),
                        target@,
                        fuel as nat,
                    ),
                decreases es@.len() - i,
            {
                proof {
                    lemma_exprs_height_elem(es@, i as int);
                    assert(es@.skip(i as int)[0] == es@[i as int]);
                    assert(es@.skip(i as int).drop_first() =~= es@.skip(i as int + 1));
                }
                if reaches_without_progress(rules, &es[i], target, fuel) {
                    return true;
                }
                if !nullable_expr(rules, &es[i], rules.len()) {
                    return false;
                }
                i += 1;
            }
            assert(es@.skip(i as int).len() == 0);
            false
        },
        Expression::Alternation(es) => {
            let mut i: usize = 0;
            assert(es@.skip(0) =~= es@);
            while i < es.len()
                invariant
                    0 <= i <= es@.len(),
                    spec_any_reaches(rules@, es@, target@, fuel as nat) == spec_any_reaches(
                        rules@,
                        es@.skip(i as int),
                        target@,
                        fuel as nat,
                    ),
                decreases es@.len() - i,
            {
                proof {
                    lemma_exprs_height_elem(es@, i as int);
                    assert(es@.skip(i as int)[0] == es@[i as int]);
                    assert(es@.skip(i as int).drop_first() =~= es@.skip(i as int + 1));
                }
                if reaches_without_progress(rules, &es[i], target, fuel) {
                    return true;
                }
                i += 1;
            }
            assert(es@.skip(i as int).len() == 0);
            false
        },
    }
}

// ---------------------------------------------------------------------------
// The build itself
// ---------------------------------------------------------------------------

/// Builds an immutable grammar from recognised definitions, in declaration
/// order: `=/` definitions append branches to the rule's earlier `=`
/// definition; a second `=` definition of a name is a `DuplicateRule`
/// error and an `=/` without a prior `=` an `OrphanIncrementalRule` error.
/// After merging, every rule reference must resolve, and no rule may reach
/// itself again without consuming input.  The root is the first declared
/// rule unless `root_override` designates another.
#[verifier::loop_isolation(false)]
pub fn build_grammar(defs: Vec<RuleDef>, root_override: Option<RuleName>) -> (r: Result<
    Grammar,
    Error,
>)
    requires
        forall|k: int| 0 <= k < defs@.len() ==> (#[trigger] defs@[k].name).wf(),
        root_override matches Some(n) ==> n.wf(),
    ensures
        r matches Ok(g) ==> {
            &&& g.wf()
            &&& merge_fault_from(defs@, 0) == -1
            &&& exists|tables: Seq<Seq<Rule>>|
                #[trigger] merge_chain(defs@, tables) && tables.last() == g.spec_rules()
            &&& (match root_override {
                Some(n) => g.spec_root() == n@,
                None => g.spec_rules().len() > 0 && g.spec_root() == g.spec_rules()[0].name@,
            })
            &&& left_recursive_from(g.spec_rules(), 0) == -1
        },
        r matches Err(e) ==> (match e {
            Error::DuplicateRule { name } => {
                let f = merge_fault_from(defs@, 0);
                &&& 0 <= f < defs@.len()
                &&& !defs@[f].incremental
                &&& name == defs@[f].name
            },
            Error::OrphanIncrementalRule { name } => {
                let f = merge_fault_from(defs@, 0);
                &&& 0 <= f < defs@.len()
                &&& defs@[f].incremental
                &&& name == defs@[f].name
            },
            Error::InvalidMetasyntax { location } => {
                &&& location == 0
                &&& root_override is None
                &&& defs@.len() == 0
            },
            Error::UnresolvedRuleRef { name } => exists|tables: Seq<Seq<Rule>>| {
                &&& #[trigger] merge_chain(defs@, tables)
                &&& rule_index(tables.last(), name@) == -1
            },
            Error::LeftRecursionWithoutProgress { name } => exists|tables: Seq<Seq<Rule>>| {
                &&& #[trigger] merge_chain(defs@, tables)
                &&& left_recursive_from(tables.last(), 0) >= 0
                &&& name@ == tables.last()[left_recursive_from(tables.last(), 0)].name@
            },
        }),
        (merge_fault_from(defs@, 0) == -1 && (match root_override {
            Some(n) => exists|j: int| 0 <= j < defs@.len() && (#[trigger] defs@[j].name)@ == n@,
            None => defs@.len() > 0,
        })) ==> !(r matches Err(e) && (e is DuplicateRule || e is OrphanIncrementalRule || e
            is InvalidMetasyntax)),
{
    let ghost defs0 = defs@;
    let mut rules: Vec<Rule> = Vec::new();
    let mut remaining = defs;
    let ghost mut c: int = 0;
    let ghost mut trace: Seq<Seq<Rule>> = seq![Seq::<Rule>::empty()];
    loop
        invariant
            0 <= c <= defs0.len(),
            remaining@ == defs0.skip(c),
            trace.len() == c + 1,
            trace[0] == Seq::<Rule>::empty(),
            trace.last() == rules@,
            forall|k: int| 0 <= k < c ==> step_rel(#[trigger] trace[k], defs0[k], trace[k + 1]),
            merge_fault_from(defs0, 0) == merge_fault_from(defs0, c),
            forall|k: int| 0 <= k < remaining@.len() ==> (#[trigger] remaining@[k].name).wf(),
            forall|k: int| 0 <= k < rules@.len() ==> (#[trigger] rules@[k].name).wf(),
            forall|i: int, j: int|
                0 <= i < j < rules@.len() ==> (#[trigger] rules@[i].name)@ != (
                #[trigger] rules@[j].name)@,
        decreases remaining@.len(),
    {
        if remaining.len() == 0 {
            break;
        }
        let def = remaining.remove(0);
        proof {
            assert(def == defs0[c]);
            assert(remaining@ =~= defs0.skip(c + 1));
            lemma_chain_name(defs0, trace, c, def.name@);
        }
        match find_rule_index(&rules, &def.name) {
            Some(ix) => {
                proof {
                    assert(def_fault(defs0, c) == !def.incremental);
                }
                if def.incremental {
                    let ghost before = rules@;
                    let old_rule = rules.remove(ix);
                    let merged = append_branches(old_rule.body, def.body);
                    rules.insert(ix, Rule { name: old_rule.name, body: merged });
                    proof {
                        assert(rules@ =~= before.update(
                            ix as int,
                            Rule { name: before[ix as int].name, body: rules@[ix as int].body },
                        ));
                        assert(step_rel(before, defs0[c], rules@));
                        trace = trace.push(rules@);
                        c = c + 1;
                        assert(forall|k: int|
                            0 <= k < c ==> step_rel(
                                #[trigger] trace[k],
                                defs0[k],
                                trace[k + 1],
                            ));
                    }
                } else {
                    proof {
                        assert(merge_fault_from(defs0, c) == c);
                    }
                    return Err(Error::DuplicateRule { name: def.name });
                }
            },
            None => {
                proof {
                    assert(def_fault(defs0, c) == def.incremental);
                }
                if def.incremental {
                    proof {
                        assert(merge_fault_from(defs0, c) == c);
                    }
                    return Err(Error::OrphanIncrementalRule { name: def.name });
                } else {
                    proof {
                        lemma_rule_index_from(rules@, def.name@, 0);
                    }
                    let ghost before = rules@;
                    rules.push(Rule { name: def.name, body: def.body });
                    proof {
                        assert(step_rel(before, defs0[c], rules@));
                        trace = trace.push(rules@);
                        c = c + 1;
                        assert(forall|k: int|
                            0 <= k < c ==> step_rel(
                                #[trigger] trace[k],
                                defs0[k],
                                trace[k + 1],
                            ));
                    }
                }
            },
        }
    }
    proof {
        assert(c == defs0.len());
        assert(merge_chain(defs0, trace));
    }
    // the designated root
    let ghost override_g = root_override;
    let root: RuleName = match root_override {
        Some(n) => n,
        None => {
            if rules.len() == 0 {
                proof {
                    if defs0.len() > 0 {
                        lemma_chain_name(defs0, trace, defs0.len() as int, defs0[0].name@);
                        lemma_index_match(rules@, defs0[0].name@);
                    }
                }
                return Err(Error::InvalidMetasyntax { location: 0 });
            }
            rules[0].name.clone()
        },
    };
    match find_rule_index(&rules, &root) {
        Some(_) => {},
        None => {
            proof {
                if override_g is Some {
                    let n = override_g.unwrap();
                    if exists|j: int| 0 <= j < defs0.len() && (#[trigger] defs0[j].name)@ == n@ {
                        lemma_chain_name(defs0, trace, defs0.len() as int, n@);
                    }
                } else {
                    lemma_index_present(rules@, root@, 0);
                }
            }
            return Err(Error::UnresolvedRuleRef { name: root });
        },
    }
    // reference resolution over the whole merged table
    let mut i: usize = 0;
    while i < rules.len()
        invariant
            0 <= i <= rules@.len(),
            forall|k: int| 0 <= k < i ==> expr_closed(#[trigger] rules@[k].body, rules@),
        decreases rules@.len() - i,
    {
        match unresolved_ref(&rules[i].body, &rules) {
            Some(n) => {
                return Err(Error::UnresolvedRuleRef { name: n });
            },
            None => {
                i += 1;
            },
        }
    }
    // left recursion that makes no progress
    let fuel = rules.len();
    let mut j: usize = 0;
    while j < rules.len()
        invariant
            0 <= j <= rules@.len(),
            left_recursive_from(rules@, 0) == left_recursive_from(rules@, j as int),
        decreases rules@.len() - j,
    {
        if reaches_without_progress(&rules, &rules[j].body, &rules[j].name, fuel) {
            proof {
                assert(left_recursive_from(rules@, j as int) == j);
            }
            return Err(Error::LeftRecursionWithoutProgress { name: rules[j].name.clone() });
        }
        j += 1;
    }
    assert(left_recursive_from(rules@, rules@.len() as int) == -1);
    let g = Grammar { rules, root };
    assert(g.wf()) by {
        assert(grammar_wf(g.spec_rules()));
        assert(has_rule(g.spec_rules(), g.spec_root()));
    }
    Ok(g)
}

} // verus!
