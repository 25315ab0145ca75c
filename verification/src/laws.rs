use vstd::prelude::*;

use crate::engine::SpecOutcome;
use crate::engine::eval_alt_spec;
use crate::engine::eval_rep_spec;
use crate::engine::eval_spec;
use crate::engine::literal_matches;
use crate::expression::Expression;
use crate::expression::Rule;
use crate::expression::lower_byte;
use crate::expression::lower_bytes;

verus! {

// ---------------------------------------------------------------------------
// Laws of the evaluation semantics.  Each is stated over `eval_spec`, the
// semantics that the executable evaluator provably returns.
// ---------------------------------------------------------------------------

/// First match wins: when the first branch of an alternation matches, the
/// alternation's outcome is that branch's outcome, whatever any later
/// branch would have done — even one that would consume more input.
pub proof fn lemma_alternation_first_match_wins(
    rules: Seq<Rule>,
    branches: Vec<Expression>,
    input: Seq<u8>,
    pos: int,
    depth: nat,
)
    requires
        0 <= pos <= input.len(),
        branches@.len() > 0,
        eval_spec(rules, branches@[0], input, pos, depth) is Match,
    ensures
        eval_spec(rules, Expression::Alternation(branches), input, pos, depth) == eval_spec(
            rules,
            branches@[0],
            input,
            pos,
            depth,
        ),
{
    assert(eval_spec(rules, Expression::Alternation(branches), input, pos, depth) == eval_alt_spec(
        rules,
        branches@,
        input,
        pos,
        depth,
    ));
    assert(eval_alt_spec(rules, branches@, input, pos, depth) == eval_spec(
        rules,
        branches@[0],
        input,
        pos,
        depth,
    ));
}

/// Literal matching is case-insensitive: two literal texts whose
/// lower-cased bytes agree match exactly the same input spans.
pub proof fn lemma_literal_case_insensitive(
    input: Seq<u8>,
    pos: int,
    lit1: Seq<u8>,
    lit2: Seq<u8>,
)
    requires
        lower_bytes(lit1) == lower_bytes(lit2),
    ensures
        literal_matches(input, pos, lit1) == literal_matches(input, pos, lit2),
{
    assert(lit1.len() == lower_bytes(lit1).len());
    assert(lit2.len() == lower_bytes(lit2).len());
    assert forall|i: int| 0 <= i < lit1.len() implies lower_byte(#[trigger] lit1[i])
        == lower_byte(lit2[i]) by {
        assert(lower_bytes(lit1)[i] == lower_byte(lit1[i]));
        assert(lower_bytes(lit2)[i] == lower_byte(lit2[i]));
    }
    if literal_matches(input, pos, lit1) {
        assert forall|i: int| 0 <= i < lit2.len() implies lower_byte(input[pos + i]) == lower_byte(
            #[trigger] lit2[i],
        ) by {
            assert(lower_byte(input[pos + i]) == lower_byte(lit1[i]));
        }
    }
    if literal_matches(input, pos, lit2) {
        assert forall|i: int| 0 <= i < lit1.len() implies lower_byte(input[pos + i]) == lower_byte(
            #[trigger] lit1[i],
        ) by {
            assert(lower_byte(input[pos + i]) == lower_byte(lit2[i]));
        }
    }
}

/// A repetition whose inner expression does not match at the cursor makes
/// zero iterations: it succeeds, consuming nothing, exactly when its
/// minimum is zero.
pub proof fn lemma_repetition_zero_iterations(
    rules: Seq<Rule>,
    inner: Expression,
    input: Seq<u8>,
    pos: int,
    depth: nat,
    min: u32,
    max: Option<u32>,
)
    requires
        0 <= pos <= input.len(),
        eval_spec(rules, inner, input, pos, depth) is NoMatch,
        max matches Some(m) ==> m > 0,
    ensures
        eval_rep_spec(rules, inner, input, pos, depth, 0, min, max) == (if min == 0 {
            SpecOutcome::Match { end: pos, caps: Seq::empty() }
        } else {
            SpecOutcome::NoMatch
        }),
{
}

/// A repetition stops at its upper bound: once `max` iterations were made,
/// it succeeds without trying the inner expression again.
pub proof fn lemma_repetition_stops_at_max(
    rules: Seq<Rule>,
    inner: Expression,
    input: Seq<u8>,
    pos: int,
    depth: nat,
    count: nat,
    min: u32,
    m: u32,
)
    requires
        0 <= pos <= input.len(),
        count >= m,
    ensures
        eval_rep_spec(rules, inner, input, pos, depth, count, min, Some(m)) == (
        SpecOutcome::Match { end: pos, caps: Seq::empty() }),
{
}

/// Extending a rule appends alternation branches: against the combined
/// branch list, evaluation returns what the original branches give, and
/// falls through to the added branches only when no original branch
/// matches.
pub proof fn lemma_extension_appends(
    rules: Seq<Rule>,
    bs1: Seq<Expression>,
    bs2: Seq<Expression>,
    input: Seq<u8>,
    pos: int,
    depth: nat,
)
    requires
        0 <= pos <= input.len(),
    ensures
        eval_alt_spec(rules, bs1 + bs2, input, pos, depth) == (if eval_alt_spec(
            rules,
            bs1,
            input,
            pos,
            depth,
        ) is NoMatch {
            eval_alt_spec(rules, bs2, input, pos, depth)
        } else {
            eval_alt_spec(rules, bs1, input, pos, depth)
        }),
    decreases bs1.len(),
{
    if bs1.len() == 0 {
        assert(bs1 + bs2 =~= bs2);
    } else {
        assert((bs1 + bs2).len() > 0);
        assert((bs1 + bs2)[0] == bs1[0]);
        assert((bs1 + bs2).drop_first() =~= bs1.drop_first() + bs2);
        lemma_extension_appends(rules, bs1.drop_first(), bs2, input, pos, depth);
    }
}

} // verus!
