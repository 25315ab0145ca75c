use vstd::prelude::*;

use crate::expression::Expression;
use crate::expression::NumValues;
use crate::expression::Rule;
use crate::expression::RuleName;
use crate::expression::expr_closed;
use crate::expression::expr_height;
use crate::expression::exprs_closed;
use crate::expression::exprs_height;
use crate::expression::find_rule;
use crate::expression::grammar_wf;
use crate::expression::lemma_exprs_closed_elem;
use crate::expression::lemma_exprs_height_elem;
use crate::expression::lemma_rule_index_from;
use crate::expression::lower_byte;
use crate::expression::byte_to_lower;
use crate::expression::rule_index;

verus! {

// ---------------------------------------------------------------------------
// The meaning of an expression.
//
// `eval_spec` is the definitional semantics of the engine: a deterministic,
// fuel-bounded evaluation of an expression against an input at a byte
// position.  The executable evaluator is proved to return exactly this
// outcome.  The semantics fixes the two tie-breaks the notation leaves
// open: alternation takes the first branch that matches, and repetition is
// greedy.  A repetition whose inner expression matches without consuming
// input stops there and succeeds, since further empty iterations could
// never change the cursor.
// ---------------------------------------------------------------------------

/// A capture produced by a named-rule match, at the specification level.
pub struct SpecCapture {
    pub rule: Seq<char>,
    pub start: int,
    pub end: int,
    pub children: Seq<SpecCapture>,
}

/// The outcome of evaluating one expression at one position.
pub enum SpecOutcome {
    /// The expression matched, consuming input up to `end`.
    Match { end: int, caps: Seq<SpecCapture> },
    /// The expression did not match here.
    NoMatch,
    /// The recursion-depth ceiling was reached.
    DepthExceeded,
    /// A prose element was reached; prose is never matchable.
    ProseEncountered,
}

/// Prefixes the captures of a successful outcome with `acc`.
pub open spec fn combine_caps(acc: Seq<SpecCapture>, o: SpecOutcome) -> SpecOutcome {
    match o {
        SpecOutcome::Match { end, caps } => SpecOutcome::Match { end, caps: acc + caps },
        other => other,
    }
}

/// Case-insensitive fixed-length text match.
pub open spec fn literal_matches(input: Seq<u8>, pos: int, lit: Seq<u8>) -> bool {
    &&& pos + lit.len() <= input.len()
    &&& forall|i: int|
        0 <= i < lit.len() ==> lower_byte(input[pos + i]) == lower_byte(#[trigger] lit[i])
}

/// A fixed sequence of numeric terminal values, one input byte each.
pub open spec fn num_seq_matches(input: Seq<u8>, pos: int, vs: Seq<u32>) -> bool {
    &&& pos + vs.len() <= input.len()
    &&& forall|i: int| 0 <= i < vs.len() ==> input[pos + i] as u32 == #[trigger] vs[i]
}

pub open spec fn eval_spec(
    rules: Seq<Rule>,
    e: Expression,
    input: Seq<u8>,
    pos: int,
    depth: nat,
) -> SpecOutcome
    decreases depth, input.len() - pos, expr_height(e), 0int,
{
    if !(0 <= pos <= input.len()) {
        SpecOutcome::NoMatch
    } else {
        match e {
            Expression::Literal(lit) => if literal_matches(input, pos, lit@) {
                SpecOutcome::Match { end: pos + lit@.len(), caps: Seq::empty() }
            } else {
                SpecOutcome::NoMatch
            },
            Expression::NumericTerm(_, vals) => match vals {
                NumValues::Single(v) => if pos < input.len() && input[pos] as u32 == v {
                    SpecOutcome::Match { end: pos + 1, caps: Seq::empty() }
                } else {
                    SpecOutcome::NoMatch
                },
                NumValues::Range(lo, hi) => if pos < input.len() && lo <= input[pos] as u32
                    && input[pos] as u32 <= hi {
                    SpecOutcome::Match { end: pos + 1, caps: Seq::empty() }
                } else {
                    SpecOutcome::NoMatch
                },
                NumValues::Sequence(vs) => if num_seq_matches(input, pos, vs@) {
                    SpecOutcome::Match { end: pos + vs@.len(), caps: Seq::empty() }
                } else {
                    SpecOutcome::NoMatch
                },
            },
            Expression::RuleRef(n) => if depth == 0 {
                SpecOutcome::DepthExceeded
            } else {
                let idx = rule_index(rules, n@);
                if idx < 0 {
                    SpecOutcome::NoMatch
                } else {
                    match eval_spec(rules, rules[idx].body, input, pos, (depth - 1) as nat) {
                        SpecOutcome::Match { end, caps } => SpecOutcome::Match {
                            end,
                            caps: seq![
                                SpecCapture { rule: n@, start: pos, end, children: caps },
                            ],
                        },
                        other => other,
                    }
                }
            },
            Expression::Group(inner) => eval_spec(rules, *inner, input, pos, depth),
            Expression::Optional(inner) => match eval_spec(rules, *inner, input, pos, depth) {
                SpecOutcome::NoMatch => SpecOutcome::Match { end: pos, caps: Seq::empty() },
                other => other,
            },
            Expression::Repetition { min, max, inner } => eval_rep_spec(
                rules,
                *inner,
                input,
                pos,
                depth,
                0,
                min,
                max,
            ),
            Expression::Concatenation(es) => eval_concat_spec(rules, es@, input, pos, depth),
            Expression::Alternation(es) => eval_alt_spec(rules, es@, input, pos, depth),
            Expression::Prose(_) => SpecOutcome::ProseEncountered,
        }
    }
}

/// Remaining sub-expressions of a concatenation, from `pos`.
pub open spec fn eval_concat_spec(
    rules: Seq<Rule>,
    es: Seq<Expression>,
    input: Seq<u8>,
    pos: int,
    depth: nat,
) -> SpecOutcome
    decreases depth, input.len() - pos, exprs_height(es), 1int,
    via eval_concat_spec_decreases
{
    if !(0 <= pos <= input.len()) {
        SpecOutcome::NoMatch
    } else if es.len() == 0 {
        SpecOutcome::Match { end: pos, caps: Seq::empty() }
    } else {
        match eval_spec(rules, es[0], input, pos, depth) {
            SpecOutcome::Match { end, caps } => if pos <= end <= input.len() {
                combine_caps(caps, eval_concat_spec(rules, es.drop_first(), input, end, depth))
            } else {
                SpecOutcome::NoMatch
            },
            other => other,
        }
    }
}

#[via_fn]
proof fn eval_concat_spec_decreases(
    rules: Seq<Rule>,
    es: Seq<Expression>,
    input: Seq<u8>,
    pos: int,
    depth: nat,
) {
    if 0 <= pos <= input.len() && es.len() > 0 {
        lemma_exprs_height_elem(es, 0);
        crate::expression::lemma_expr_height_pos(es[0]);
    }
}

/// Branches of an alternation, tried in order from `pos`; first match wins.
pub open spec fn eval_alt_spec(
    rules: Seq<Rule>,
    es: Seq<Expression>,
    input: Seq<u8>,
    pos: int,
    depth: nat,
) -> SpecOutcome
    decreases depth, input.len() - pos, exprs_height(es), 1int,
    via eval_alt_spec_decreases
{
    if !(0 <= pos <= input.len()) {
        SpecOutcome::NoMatch
    } else if es.len() == 0 {
        SpecOutcome::NoMatch
    } else {
        match eval_spec(rules, es[0], input, pos, depth) {
            SpecOutcome::NoMatch => eval_alt_spec(rules, es.drop_first(), input, pos, depth),
            other => other,
        }
    }
}

#[via_fn]
proof fn eval_alt_spec_decreases(
    rules: Seq<Rule>,
    es: Seq<Expression>,
    input: Seq<u8>,
    pos: int,
    depth: nat,
) {
    if 0 <= pos <= input.len() && es.len() > 0 {
        lemma_exprs_height_elem(es, 0);
        crate::expression::lemma_expr_height_pos(es[0]);
    }
}

/// Greedy repetition from `pos`, with `count` matches already made.
pub open spec fn eval_rep_spec(
    rules: Seq<Rule>,
    inner: Expression,
    input: Seq<u8>,
    pos: int,
    depth: nat,
    count: nat,
    min: u32,
    max: Option<u32>,
) -> SpecOutcome
    decreases depth, input.len() - pos, expr_height(inner), 1int,
{
    if !(0 <= pos <= input.len()) {
        SpecOutcome::NoMatch
    } else if max matches Some(m) && count >= m {
        SpecOutcome::Match { end: pos, caps: Seq::empty() }
    } else {
        match eval_spec(rules, inner, input, pos, depth) {
            SpecOutcome::NoMatch => if count >= min {
                SpecOutcome::Match { end: pos, caps: Seq::empty() }
            } else {
                SpecOutcome::NoMatch
            },
            SpecOutcome::Match { end, caps } => if end == pos {
                // an empty inner match: stop, the repetition is satisfied
                SpecOutcome::Match { end: pos, caps }
            } else if pos < end <= input.len() {
                combine_caps(
                    caps,
                    eval_rep_spec(rules, inner, input, end, depth, count + 1, min, max),
                )
            } else {
                SpecOutcome::NoMatch
            },
            other => other,
        }
    }
}

/// The meaning of matching the rule called `name` at `pos`: the rule's
/// body is evaluated and, on success, wrapped in one capture node.
pub open spec fn eval_rule_spec(
    rules: Seq<Rule>,
    name: Seq<char>,
    input: Seq<u8>,
    pos: int,
    depth: nat,
) -> SpecOutcome {
    if !(0 <= pos <= input.len()) {
        SpecOutcome::NoMatch
    } else if depth == 0 {
        SpecOutcome::DepthExceeded
    } else {
        let idx = rule_index(rules, name);
        if idx < 0 {
            SpecOutcome::NoMatch
        } else {
            match eval_spec(rules, rules[idx].body, input, pos, (depth - 1) as nat) {
                SpecOutcome::Match { end, caps } => SpecOutcome::Match {
                    end,
                    caps: seq![SpecCapture { rule: name, start: pos, end, children: caps }],
                },
                other => other,
            }
        }
    }
}

/// Evaluating a rule reference means evaluating the named rule.
pub proof fn lemma_eval_ruleref(
    rules: Seq<Rule>,
    n: RuleName,
    input: Seq<u8>,
    pos: int,
    depth: nat,
)
    ensures
        eval_spec(rules, Expression::RuleRef(n), input, pos, depth) == eval_rule_spec(
            rules,
            n@,
            input,
            pos,
            depth,
        ),
{
}

// ---------------------------------------------------------------------------
// Executable captures and outcomes
// ---------------------------------------------------------------------------

/// A node of the parse-result tree: the named rule that matched, the byte
/// span it consumed, and the captures of named rules inside it, in input
/// order.
pub struct Capture {
    pub rule: RuleName,
    pub start: usize,
    pub end: usize,
    pub children: Vec<Capture>,
}

pub open spec fn cap_view(c: Capture) -> SpecCapture
    decreases c,
{
    SpecCapture {
        rule: c.rule@,
        start: c.start as int,
        end: c.end as int,
        children: caps_view(c.children@),
    }
}

pub open spec fn caps_view(cs: Seq<Capture>) -> Seq<SpecCapture>
    decreases cs,
{
    if cs.len() == 0 {
        Seq::empty()
    } else {
        caps_view(cs.drop_last()).push(cap_view(cs.last()))
    }
}

pub proof fn lemma_caps_view_concat(a: Seq<Capture>, b: Seq<Capture>)
    ensures
        caps_view(a + b) == caps_view(a) + caps_view(b),
    decreases b.len(),
{
    if b.len() == 0 {
        assert(a + b =~= a);
        assert(caps_view(a) + caps_view(b) =~= caps_view(a));
    } else {
        lemma_caps_view_concat(a, b.drop_last());
        assert((a + b).drop_last() =~= a + b.drop_last());
        assert((a + b).last() == b.last());
        assert(caps_view(a) + caps_view(b) =~= (caps_view(a) + caps_view(b.drop_last())).push(
            cap_view(b.last()),
        ));
    }
}

pub proof fn lemma_caps_view_single(c: Capture)
    ensures
        caps_view(seq![c]) == seq![cap_view(c)],
{
    let s = seq![c];
    assert(s.len() == 1);
    assert(s.drop_last() =~= Seq::<Capture>::empty());
    assert(s.last() == c);
    assert(caps_view(s) == caps_view(s.drop_last()).push(cap_view(s.last())));
    assert(caps_view(Seq::<Capture>::empty()) == Seq::<SpecCapture>::empty());
    assert(caps_view(s) =~= seq![cap_view(c)]);
}

/// A hard failure of the evaluator, always fatal to the enclosing parse.
#[derive(Clone, Copy, PartialEq, Eq, Structural, Debug)]
pub enum EvalAbort {
    RecursionLimitExceeded,
    UnsupportedProseRule,
}

/// The result of the executable evaluator: a match with its final cursor
/// and captures, no match, or a fatal abort.
pub type EvalResult = Result<Option<(usize, Vec<Capture>)>, EvalAbort>;

pub open spec fn outcome_of(r: EvalResult) -> SpecOutcome {
    match r {
        Ok(opt) => match opt {
            Some(m) => SpecOutcome::Match { end: m.0 as int, caps: caps_view(m.1@) },
            None => SpecOutcome::NoMatch,
        },
        Err(a) => match a {
            EvalAbort::RecursionLimitExceeded => SpecOutcome::DepthExceeded,
            EvalAbort::UnsupportedProseRule => SpecOutcome::ProseEncountered,
        },
    }
}

// ---------------------------------------------------------------------------
// The executable evaluator
// ---------------------------------------------------------------------------

/// Evaluates `e` against `input` at byte position `pos`, with at most
/// `depth` nested rule expansions left.  Returns exactly the outcome that
/// `eval_spec` defines.
#[verifier::loop_isolation(false)]
pub fn eval(
    rules: &Vec<Rule>,
    e: &Expression,
    input: &Vec<u8>,
    pos: usize,
    depth: usize,
) -> (r: EvalResult)
    requires
        pos <= input@.len(),
        grammar_wf(rules@),
        expr_closed(*e, rules@),
    ensures
        outcome_of(r) == eval_spec(rules@, *e, input@, pos as int, depth as nat),
        r matches Ok(Some(m)) ==> pos <= m.0 && m.0 <= input@.len(),
    decreases depth, input@.len() - pos, expr_height(*e),
{
    let ghost target = eval_spec(rules@, *e, input@, pos as int, depth as nat);
    match e {
        Expression::Literal(lit) => {
            if input.len() - pos < lit.len() {
                assert(!literal_matches(input@, pos as int, lit@));
                return Ok(None);
            }
            let mut i: usize = 0;
            while i < lit.len()
                invariant
                    0 <= i <= lit@.len(),
                    pos + lit@.len() <= input@.len(),
                    input@.len() <= usize::MAX,
                    forall|k: int|
                        0 <= k < i ==> lower_byte(input@[pos + k]) == lower_byte(
                            #[trigger] lit@[k],
                        ),
                decreases lit@.len() - i,
            {
                if byte_to_lower(input[pos + i]) != byte_to_lower(lit[i]) {
                    assert(!literal_matches(input@, pos as int, lit@));
                    return Ok(None);
                }
                i += 1;
            }
            assert(literal_matches(input@, pos as int, lit@));
            Ok(Some((pos + lit.len(), Vec::new())))
        },
        Expression::NumericTerm(_, vals) => match vals {
            NumValues::Single(v) => {
                if pos < input.len() && input[pos] as u32 == *v {
                    Ok(Some((pos + 1, Vec::new())))
                } else {
                    Ok(None)
                }
            },
            NumValues::Range(lo, hi) => {
                if pos < input.len() && *lo <= input[pos] as u32 && input[pos] as u32 <= *hi {
                    Ok(Some((pos + 1, Vec::new())))
                } else {
                    Ok(None)
                }
            },
            NumValues::Sequence(vs) => {
                if input.len() - pos < vs.len() {
                    assert(!num_seq_matches(input@, pos as int, vs@));
                    return Ok(None);
                }
                let mut i: usize = 0;
                while i < vs.len()
                    invariant
                        0 <= i <= vs@.len(),
                        pos + vs@.len() <= input@.len(),
                        input@.len() <= usize::MAX,
                        forall|k: int| 0 <= k < i ==> input@[pos + k] as u32 == #[trigger] vs@[k],
                    decreases vs@.len() - i,
                {
                    if input[pos + i] as u32 != vs[i] {
                        assert(!num_seq_matches(input@, pos as int, vs@));
                        return Ok(None);
                    }
                    i += 1;
                }
                assert(num_seq_matches(input@, pos as int, vs@));
                Ok(Some((pos + vs.len(), Vec::new())))
            },
        },
        Expression::RuleRef(n) => {
            if depth == 0 {
                return Err(EvalAbort::RecursionLimitExceeded);
            }
            proof {
                lemma_rule_index_from(rules@, n@, 0);
            }
            match find_rule(rules, n) {
                None => Ok(None),
                Some(rule) => {
                    assert(expr_closed(rule.body, rules@));
                    match eval(rules, &rule.body, input, pos, depth - 1) {
                        Err(a) => Err(a),
                        Ok(None) => Ok(None),
                        Ok(Some((end, caps))) => {
                            let cap = Capture {
                                rule: n.clone(),
                                start: pos,
                                end,
                                children: caps,
                            };
                            proof {
                                lemma_caps_view_single(cap);
                            }
                            let mut one: Vec<Capture> = Vec::new();
                            one.push(cap);
                            assert(one@ =~= seq![cap]);
                            Ok(Some((end, one)))
                        },
                    }
                },
            }
        },
        Expression::Group(inner) => eval(rules, &*inner, input, pos, depth),
        Expression::Optional(inner) => {
            match eval(rules, &*inner, input, pos, depth) {
                Err(a) => Err(a),
                Ok(None) => Ok(Some((pos, Vec::new()))),
                Ok(Some(m)) => Ok(Some(m)),
            }
        },
        Expression::Repetition { min, max, inner } => {
            let mut cur: usize = pos;
            let mut count: usize = 0;
            let mut acc: Vec<Capture> = Vec::new();
            loop
                invariant
                    pos <= cur <= input@.len(),
                    count <= cur,
                    grammar_wf(rules@),
                    expr_closed(**inner, rules@),
                    combine_caps(
                        caps_view(acc@),
                        eval_rep_spec(
                            rules@,
                            **inner,
                            input@,
                            cur as int,
                            depth as nat,
                            count as nat,
                            *min,
                            *max,
                        ),
                    ) == target,
                    target == eval_spec(rules@, *e, input@, pos as int, depth as nat),
                    expr_height(**inner) < expr_height(*e),
                decreases input@.len() - cur,
            {
                if let Some(m) = max {
                    if count >= *m as usize {
                        assert(count as nat >= *m as nat);
                        proof {
                            let o = eval_rep_spec(
                                rules@,
                                **inner,
                                input@,
                                cur as int,
                                depth as nat,
                                count as nat,
                                *min,
                                *max,
                            );
                            assert(o == SpecOutcome::Match {
                                end: cur as int,
                                caps: Seq::<SpecCapture>::empty(),
                            });
                            assert(caps_view(acc@) + Seq::<SpecCapture>::empty() =~= caps_view(
                                acc@,
                            ));
                        }
                        return Ok(Some((cur, acc)));
                    }
                }
                match eval(rules, &*inner, input, cur, depth) {
                    Err(a) => {
                        return Err(a);
                    },
                    Ok(None) => {
                        if count >= *min as usize {
                            proof {
                                assert(caps_view(acc@) + Seq::<SpecCapture>::empty() =~= caps_view(
                                    acc@,
                                ));
                            }
                            return Ok(Some((cur, acc)));
                        } else {
                            return Ok(None);
                        }
                    },
                    Ok(Some((end, mut caps))) => {
                        let ghost before = acc@;
                        let ghost capsv = caps@;
                        if end == cur {
                            acc.append(&mut caps);
                            proof {
                                lemma_caps_view_concat(before, capsv);
                            }
                            return Ok(Some((cur, acc)));
                        } else {
                            acc.append(&mut caps);
                            proof {
                                lemma_caps_view_concat(before, capsv);
                                let a = caps_view(before);
                                let b = caps_view(capsv);
                                let x = eval_rep_spec(
                                    rules@,
                                    **inner,
                                    input@,
                                    end as int,
                                    depth as nat,
                                    count as nat + 1,
                                    *min,
                                    *max,
                                );
                                assert(eval_rep_spec(
                                    rules@,
                                    **inner,
                                    input@,
                                    cur as int,
                                    depth as nat,
                                    count as nat,
                                    *min,
                                    *max,
                                ) == combine_caps(b, x));
                                match x {
                                    SpecOutcome::Match { end: e2, caps: c2 } => {
                                        assert((a + b) + c2 =~= a + (b + c2));
                                    },
                                    _ => {},
                                }
                                assert(combine_caps(caps_view(acc@), x) == target);
                            }
                            count += 1;
                            cur = end;
                        }
                    },
                }
            }
        },
        Expression::Concatenation(es) => {
            let mut idx: usize = 0;
            let mut cur: usize = pos;
            let mut acc: Vec<Capture> = Vec::new();
            assert(es@.skip(0) =~= es@);
            loop
                invariant
                    0 <= idx <= es@.len(),
                    pos <= cur <= input@.len(),
                    grammar_wf(rules@),
                    exprs_closed(es@, rules@),
                    combine_caps(
                        caps_view(acc@),
                        eval_concat_spec(rules@, es@.skip(idx as int), input@, cur as int,
                        depth as nat),
                    ) == target,
                    target == eval_spec(rules@, *e, input@, pos as int, depth as nat),
                    *e == Expression::Concatenation(*es),
                decreases es@.len() - idx,
            {
                if idx == es.len() {
                    assert(es@.skip(idx as int).len() == 0);
                    proof {
                        assert(caps_view(acc@) + Seq::<SpecCapture>::empty() =~= caps_view(acc@));
                    }
                    return Ok(Some((cur, acc)));
                }
                proof {
                    lemma_exprs_closed_elem(es@, rules@, idx as int);
                    lemma_exprs_height_elem(es@, idx as int);
                    assert(es@.skip(idx as int)[0] == es@[idx as int]);
                    assert(es@.skip(idx as int).drop_first() =~= es@.skip(idx as int + 1));
                }
                match eval(rules, &es[idx], input, cur, depth) {
                    Err(a) => {
                        return Err(a);
                    },
                    Ok(None) => {
                        return Ok(None);
                    },
                    Ok(Some((end, mut caps))) => {
                        let ghost before = acc@;
                        let ghost capsv = caps@;
                        acc.append(&mut caps);
                        proof {
                            lemma_caps_view_concat(before, capsv);
                            let a = caps_view(before);
                            let b = caps_view(capsv);
                            let x = eval_concat_spec(
                                rules@,
                                es@.skip(idx as int + 1),
                                input@,
                                end as int,
                                depth as nat,
                            );
                            assert(eval_concat_spec(
                                rules@,
                                es@.skip(idx as int),
                                input@,
                                cur as int,
                                depth as nat,
                            ) == combine_caps(b, x));
                            match x {
                                SpecOutcome::Match { end: e2, caps: c2 } => {
                                    assert((a + b) + c2 =~= a + (b + c2));
                                },
                                _ => {},
                            }
                            assert(combine_caps(caps_view(acc@), x) == target);
                        }
                        cur = end;
                        idx += 1;
                    },
                }
            }
        },
        Expression::Alternation(es) => {
            let mut idx: usize = 0;
            assert(es@.skip(0) =~= es@);
            loop
                invariant
                    0 <= idx <= es@.len(),
                    pos <= input@.len(),
                    grammar_wf(rules@),
                    exprs_closed(es@, rules@),
                    eval_alt_spec(rules@, es@.skip(idx as int), input@, pos as int, depth as nat)
                        == target,
                    target == eval_spec(rules@, *e, input@, pos as int, depth as nat),
                    *e == Expression::Alternation(*es),
                decreases es@.len() - idx,
            {
                if idx == es.len() {
                    assert(es@.skip(idx as int).len() == 0);
                    return Ok(None);
                }
                proof {
                    lemma_exprs_closed_elem(es@, rules@, idx as int);
                    lemma_exprs_height_elem(es@, idx as int);
                    assert(es@.skip(idx as int)[0] == es@[idx as int]);
                    assert(es@.skip(idx as int).drop_first() =~= es@.skip(idx as int + 1));
                }
                match eval(rules, &es[idx], input, pos, depth) {
                    Err(a) => {
                        return Err(a);
                    },
                    Ok(Some(m)) => {
                        return Ok(Some(m));
                    },
                    Ok(None) => {
                        idx += 1;
                    },
                }
            }
        },
        Expression::Prose(_) => Err(EvalAbort::UnsupportedProseRule),
    }
}

} // verus!
