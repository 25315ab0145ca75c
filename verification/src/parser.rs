use vstd::prelude::*;

use crate::expression::Expression;
use crate::expression::NumBase;
use crate::expression::NumValues;
use crate::expression::RuleName;
use crate::expression::byte_is_alpha;
use crate::expression::byte_is_digit;
use crate::expression::byte_is_name_tail;
use crate::expression::is_alpha_byte;
use crate::expression::is_digit_byte;
use crate::expression::is_name_tail_byte;
use crate::expression::is_rule_name_bytes;
use crate::expression::SpecExpr;
use crate::expression::SpecNumValues;
use crate::expression::expr_view;
use crate::expression::exprs_view;
use crate::expression::num_values_view;
use crate::expression::lower_bytes;
use crate::expression::chars_as_bytes;

verus! {

// ---------------------------------------------------------------------------
// Recognition of the grammar notation itself (RFC 5234 section 4).
//
// The functions here recognise, left to right, the constructs of the
// notation and compile each element directly into an `Expression`.  All of
// them are total: a soft failure (the construct does not start here) is
// `Ok(None)`, and a malformed construct that can no longer be anything
// else (a missing closing delimiter, an overflowing repeat count) is a
// located `InvalidMetasyntax` error.
// ---------------------------------------------------------------------------

/// The specification-level image of a recognised rule definition.
pub struct SpecRuleDef {
    /// The canonical (lower-cased) name bytes.
    pub name: Seq<u8>,
    /// Whether the rule was defined with `=/`.
    pub incremental: bool,
    /// The image of the compiled body.
    pub body: SpecExpr,
}

/// Errors raised while recognising or compiling a grammar definition.
#[derive(Debug)]
pub enum Error {
    /// The notation could not be recognised at byte offset `location`.
    InvalidMetasyntax { location: usize },
    /// A rule name was defined twice with `=`.
    DuplicateRule { name: RuleName },
    /// A rule was extended with `=/` without a prior `=` definition.
    OrphanIncrementalRule { name: RuleName },
    /// A referenced rule is defined nowhere in the document.
    UnresolvedRuleRef { name: RuleName },
    /// A cycle of rule references can complete without consuming input,
    /// which would never terminate when evaluated.
    LeftRecursionWithoutProgress { name: RuleName },
}

pub open spec fn is_wsp_byte(b: u8) -> bool {
    b == 0x20 || b == 0x09
}

/// Characters allowed inside a quoted literal: printable ASCII except `"`.
pub open spec fn is_char_val_byte(b: u8) -> bool {
    (0x20 <= b && b <= 0x21) || (0x23 <= b && b <= 0x7e)
}

/// Characters allowed inside a prose element: printable ASCII except `>`.
pub open spec fn is_prose_byte(b: u8) -> bool {
    (0x20 <= b && b <= 0x3d) || (0x3f <= b && b <= 0x7e)
}

/// Bytes that can start an element: a rule name, a group, an option, a
/// quoted literal, a numeric terminal or a prose description.
pub open spec fn is_element_start(b: u8) -> bool {
    is_alpha_byte(b) || b == 0x28 || b == 0x5b || b == 0x22 || b == 0x25 || b == 0x3c
}

/// Bytes that can start a repetition: a repeat prefix or an element.
pub open spec fn is_repetition_start(b: u8) -> bool {
    is_element_start(b) || is_digit_byte(b) || b == 0x2a
}

// ---------------------------------------------------------------------------
// The recogniser's specification.
//
// Every recognising function below is proved to return exactly what these
// specification functions say: the position a construct ends at, the
// value or expression image it compiles to (`Found`), that the construct
// does not start here (`Absent`), or that the text is malformed at a
// location (`Malformed`).  They are the notation-side analogue of what
// `eval_spec` is for evaluation.
// ---------------------------------------------------------------------------

/// Outcome of recognising one construct at one position.
pub enum Recognized<T> {
    /// The construct ends at the position and compiles to the value.
    Found(int, T),
    /// The construct does not start at this position.
    Absent,
    /// The text is malformed, at the location.
    Malformed(int),
}

/// The image of an executable error under the recogniser's specification.
pub open spec fn err_view<T>(e: Error) -> Recognized<T> {
    match e {
        Error::InvalidMetasyntax { location } => Recognized::Malformed(location as int),
        _ => Recognized::Malformed(-1),
    }
}

pub open spec fn opt_end_view(r: Option<usize>) -> Option<int> {
    match r {
        Some(j) => Some(j as int),
        None => None,
    }
}

pub open spec fn spec_line_ending(s: Seq<u8>, i: int) -> Option<int> {
    if 0 <= i < s.len() && s[i] == 0x0a {
        Some(i + 1)
    } else if 0 <= i < s.len() && s[i] == 0x0d && i + 1 < s.len() && s[i + 1] == 0x0a {
        Some(i + 2)
    } else {
        None
    }
}

/// End of the run of comment bytes (whitespace and printable ASCII).
pub open spec fn comment_body_end(s: Seq<u8>, i: int) -> int
    decreases s.len() - i,
{
    if 0 <= i < s.len() && (is_wsp_byte(s[i]) || (0x21 <= s[i] && s[i] <= 0x7e)) {
        comment_body_end(s, i + 1)
    } else {
        i
    }
}

pub open spec fn spec_comment(s: Seq<u8>, i: int) -> Option<int> {
    if 0 <= i < s.len() && s[i] == 0x3b {
        spec_line_ending(s, comment_body_end(s, i + 1))
    } else {
        None
    }
}

pub open spec fn spec_c_nl(s: Seq<u8>, i: int) -> Option<int> {
    match spec_comment(s, i) {
        Some(j) => Some(j),
        None => spec_line_ending(s, i),
    }
}

pub open spec fn spec_c_wsp(s: Seq<u8>, i: int) -> Option<int> {
    if 0 <= i < s.len() && is_wsp_byte(s[i]) {
        Some(i + 1)
    } else {
        match spec_c_nl(s, i) {
            Some(j) => if 0 <= j < s.len() && is_wsp_byte(s[j]) {
                Some(j + 1)
            } else {
                None
            },
            None => None,
        }
    }
}

pub proof fn lemma_comment_body_end_bounds(s: Seq<u8>, i: int)
    requires
        0 <= i <= s.len(),
    ensures
        i <= comment_body_end(s, i) <= s.len(),
    decreases s.len() - i,
{
    if 0 <= i < s.len() && (is_wsp_byte(s[i]) || (0x21 <= s[i] && s[i] <= 0x7e)) {
        lemma_comment_body_end_bounds(s, i + 1);
    }
}

pub proof fn lemma_spec_c_wsp_bounds(s: Seq<u8>, i: int)
    requires
        0 <= i <= s.len(),
    ensures
        spec_c_wsp(s, i) matches Some(j) ==> i < j <= s.len(),
        spec_c_nl(s, i) matches Some(j) ==> i < j <= s.len(),
{
    lemma_comment_body_end_bounds(s, if i < s.len() {
        i + 1
    } else {
        i
    });
}

/// End of the maximal run of whitespace units (`*c-wsp`).
pub open spec fn spec_star_c_wsp(s: Seq<u8>, i: int) -> int
    decreases s.len() - i,
{
    match spec_c_wsp(s, i) {
        Some(j) => if i < j <= s.len() {
            spec_star_c_wsp(s, j)
        } else {
            i
        },
        None => i,
    }
}

pub proof fn lemma_spec_star_c_wsp_bounds(s: Seq<u8>, i: int)
    requires
        0 <= i <= s.len(),
    ensures
        i <= spec_star_c_wsp(s, i) <= s.len(),
    decreases s.len() - i,
{
    match spec_c_wsp(s, i) {
        Some(j) => {
            if i < j <= s.len() {
                lemma_spec_star_c_wsp_bounds(s, j);
            }
        },
        None => {},
    }
}

/// End of the run of rule-name tail bytes.
pub open spec fn name_tail_end(s: Seq<u8>, i: int) -> int
    decreases s.len() - i,
{
    if 0 <= i < s.len() && is_name_tail_byte(s[i]) {
        name_tail_end(s, i + 1)
    } else {
        i
    }
}

pub open spec fn spec_rule_name(s: Seq<u8>, i: int) -> Option<int> {
    if 0 <= i < s.len() && is_alpha_byte(s[i]) {
        Some(name_tail_end(s, i + 1))
    } else {
        None
    }
}

/// The rule name at `i`: its end and its canonical (lower-cased) bytes.
pub open spec fn spec_parse_rule_name(s: Seq<u8>, i: int) -> Option<(int, Seq<u8>)> {
    match spec_rule_name(s, i) {
        Some(j) => Some((j, lower_bytes(s.subrange(i, j)))),
        None => None,
    }
}

/// The `defined-as` operator at `i`: its end and whether it is `=/`.
pub open spec fn spec_defined_as(s: Seq<u8>, i: int) -> Option<(int, bool)> {
    let j = spec_star_c_wsp(s, i);
    if 0 <= j < s.len() && s[j] == 0x3d {
        if j + 1 < s.len() && s[j + 1] == 0x2f {
            Some((spec_star_c_wsp(s, j + 2), true))
        } else {
            Some((spec_star_c_wsp(s, j + 1), false))
        }
    } else {
        None
    }
}

/// A decimal digit run with its value; an overflowing count is malformed.
pub open spec fn spec_dec_digits(s: Seq<u8>, i: int) -> Recognized<u32> {
    spec_base_digits(s, i, 10)
}

/// The `repeat` prefix at `i`: its end and the bounds it denotes.
pub open spec fn spec_repeat(s: Seq<u8>, i: int) -> Recognized<(u32, Option<u32>)> {
    match spec_dec_digits(s, i) {
        Recognized::Malformed(l) => Recognized::Malformed(l),
        first => {
            let after_min = match first {
                Recognized::Found(j, _) => j,
                _ => i,
            };
            let min_given = match first {
                Recognized::Found(_, v) => Some(v),
                _ => None::<u32>,
            };
            if 0 <= after_min < s.len() && s[after_min] == 0x2a {
                match spec_dec_digits(s, after_min + 1) {
                    Recognized::Malformed(l) => Recognized::Malformed(l),
                    Recognized::Found(k, maxv) => Recognized::Found(
                        k,
                        (
                            match min_given {
                                Some(v) => v,
                                None => 0,
                            },
                            Some(maxv),
                        ),
                    ),
                    Recognized::Absent => Recognized::Found(
                        after_min + 1,
                        (
                            match min_given {
                                Some(v) => v,
                                None => 0,
                            },
                            None::<u32>,
                        ),
                    ),
                }
            } else {
                match min_given {
                    Some(v) => Recognized::Found(after_min, (v, Some(v))),
                    None => Recognized::Absent,
                }
            }
        },
    }
}

pub proof fn lemma_spec_base_digits_bounds(s: Seq<u8>, i: int, base: u32)
    requires
        0 <= i <= s.len(),
    ensures
        spec_base_digits(s, i, base) matches Recognized::Found(j, v) ==> i < j <= s.len(),
{
    lemma_base_run_end_bounds(s, i, base);
    if 0 <= i < s.len() && is_base_digit(s[i], base) {
        lemma_base_run_end_bounds(s, i + 1, base);
    }
}

pub proof fn lemma_spec_repeat_bounds(s: Seq<u8>, i: int)
    requires
        0 <= i <= s.len(),
    ensures
        spec_dec_digits(s, i) matches Recognized::Found(j, v) ==> i < j <= s.len(),
        spec_repeat(s, i) matches Recognized::Found(j, v) ==> i < j <= s.len(),
{
    lemma_spec_base_digits_bounds(s, i, 10);
    match spec_dec_digits(s, i) {
        Recognized::Found(j, _) => {
            if 0 <= j < s.len() && s[j] == 0x2a {
                lemma_spec_base_digits_bounds(s, j + 1, 10);
            }
        },
        _ => {
            if 0 <= i < s.len() && s[i] == 0x2a {
                lemma_spec_base_digits_bounds(s, i + 1, 10);
            }
        },
    }
}

/// End of the run of quoted-literal bytes.
pub open spec fn char_run_end(s: Seq<u8>, i: int) -> int
    decreases s.len() - i,
{
    if 0 <= i < s.len() && is_char_val_byte(s[i]) {
        char_run_end(s, i + 1)
    } else {
        i
    }
}

/// A quoted literal: its end and its content bytes.
pub open spec fn spec_char_val(s: Seq<u8>, i: int) -> Recognized<Seq<u8>> {
    if !(0 <= i < s.len() && s[i] == 0x22) {
        Recognized::Absent
    } else {
        let j = char_run_end(s, i + 1);
        if 0 <= j < s.len() && s[j] == 0x22 {
            Recognized::Found(j + 1, s.subrange(i + 1, j))
        } else {
            Recognized::Malformed(i)
        }
    }
}

/// End of the run of prose bytes.
pub open spec fn prose_run_end(s: Seq<u8>, i: int) -> int
    decreases s.len() - i,
{
    if 0 <= i < s.len() && is_prose_byte(s[i]) {
        prose_run_end(s, i + 1)
    } else {
        i
    }
}

/// A prose description: its end and its content bytes.
pub open spec fn spec_prose_val(s: Seq<u8>, i: int) -> Recognized<Seq<u8>> {
    if !(0 <= i < s.len() && s[i] == 0x3c) {
        Recognized::Absent
    } else {
        let j = prose_run_end(s, i + 1);
        if 0 <= j < s.len() && s[j] == 0x3e {
            Recognized::Found(j + 1, s.subrange(i + 1, j))
        } else {
            Recognized::Malformed(i)
        }
    }
}

/// The value of one byte as a digit, or 99 when it is no digit.
pub open spec fn base_digit_val(b: u8) -> int {
    if 0x30 <= b && b <= 0x39 {
        b - 0x30
    } else if 0x41 <= b && b <= 0x46 {
        b - 0x41 + 10
    } else if 0x61 <= b && b <= 0x66 {
        b - 0x61 + 10
    } else {
        99
    }
}

pub open spec fn is_base_digit(b: u8, base: u32) -> bool {
    base_digit_val(b) < base
}

/// End of the run of digits in the given base.
pub open spec fn base_run_end(s: Seq<u8>, i: int, base: u32) -> int
    decreases s.len() - i,
{
    if 0 <= i < s.len() && is_base_digit(s[i], base) {
        base_run_end(s, i + 1, base)
    } else {
        i
    }
}

pub proof fn lemma_base_run_end_bounds(s: Seq<u8>, i: int, base: u32)
    requires
        0 <= i <= s.len(),
    ensures
        i <= base_run_end(s, i, base) <= s.len(),
    decreases s.len() - i,
{
    if 0 <= i < s.len() && is_base_digit(s[i], base) {
        lemma_base_run_end_bounds(s, i + 1, base);
    }
}

/// The value of the digits in `[i, j)`, in the given base.
pub open spec fn base_value(s: Seq<u8>, i: int, j: int, base: u32) -> int
    decreases j - i,
{
    if j <= i {
        0
    } else {
        base_value(s, i, j - 1, base) * base + base_digit_val(s[j - 1])
    }
}

/// A digit run in the given base with its value; an overflowing value is
/// malformed at the run's start.
pub open spec fn spec_base_digits(s: Seq<u8>, i: int, base: u32) -> Recognized<u32> {
    let j = base_run_end(s, i, base);
    if j == i {
        Recognized::Absent
    } else if base_value(s, i, j, base) <= 0xffff_ffff {
        Recognized::Found(j, base_value(s, i, j, base) as u32)
    } else {
        Recognized::Malformed(i)
    }
}

/// Digit values never go below zero, so a run's value never does either.
pub proof fn lemma_base_value_nonneg(s: Seq<u8>, i: int, j: int, base: u32)
    requires
        base >= 1,
    ensures
        base_value(s, i, j, base) >= 0,
    decreases j - i,
{
    if j > i {
        lemma_base_value_nonneg(s, i, j - 1, base);
        let v = base_value(s, i, j - 1, base);
        assert(v * base >= 0) by (nonlinear_arith)
            requires
                v >= 0,
                base >= 1,
        ;
    }
}

/// Reading more digits never shrinks the value.
pub proof fn lemma_base_value_monotone(s: Seq<u8>, i: int, j: int, k: int, base: u32)
    requires
        base >= 1,
        i <= j <= k,
    ensures
        base_value(s, i, j, base) <= base_value(s, i, k, base),
    decreases k - j,
{
    if j < k {
        lemma_base_value_monotone(s, i, j, k - 1, base);
        lemma_base_value_nonneg(s, i, k - 1, base);
        let v = base_value(s, i, k - 1, base);
        assert(v * base >= v) by (nonlinear_arith)
            requires
                v >= 0,
                base >= 1,
        ;
    }
}

/// The tail of a numeric terminal after its first value: nothing, one
/// `-`-joined upper bound, or a `.`-joined sequence.
pub open spec fn spec_num_tail(s: Seq<u8>, i: int, base: u32, first: u32) -> Recognized<
    SpecNumValues,
> {
    if 0 <= i < s.len() && s[i] == 0x2d {
        match spec_base_digits(s, i + 1, base) {
            Recognized::Found(j, hi) => Recognized::Found(j, SpecNumValues::Range(first, hi)),
            Recognized::Absent => Recognized::Malformed(i),
            Recognized::Malformed(l) => Recognized::Malformed(l),
        }
    } else if 0 <= i < s.len() && s[i] == 0x2e {
        spec_num_seq(s, i, base, seq![first])
    } else {
        Recognized::Found(i, SpecNumValues::Single(first))
    }
}

/// The `.`-joined continuation of a numeric sequence.
pub open spec fn spec_num_seq(s: Seq<u8>, cur: int, base: u32, acc: Seq<u32>) -> Recognized<
    SpecNumValues,
>
    decreases s.len() - cur,
{
    if 0 <= cur < s.len() && s[cur] == 0x2e {
        match spec_base_digits(s, cur + 1, base) {
            Recognized::Found(j, v) => if cur < j <= s.len() {
                spec_num_seq(s, j, base, acc.push(v))
            } else {
                Recognized::Malformed(cur)
            },
            Recognized::Absent => Recognized::Malformed(cur),
            Recognized::Malformed(l) => Recognized::Malformed(l),
        }
    } else {
        Recognized::Found(cur, SpecNumValues::Sequence(acc))
    }
}

/// A numeric terminal at its `%`: base marker, digits, optional tail.
pub open spec fn spec_num_val(s: Seq<u8>, i: int) -> Recognized<(NumBase, SpecNumValues)> {
    if !(0 <= i < s.len() && s[i] == 0x25) {
        Recognized::Absent
    } else if i + 1 >= s.len() {
        Recognized::Malformed(i)
    } else {
        let marker = s[i + 1];
        if marker == 0x62 || marker == 0x42 {
            spec_num_val_digits(s, i, 2, NumBase::Binary)
        } else if marker == 0x64 || marker == 0x44 {
            spec_num_val_digits(s, i, 10, NumBase::Decimal)
        } else if marker == 0x78 || marker == 0x58 {
            spec_num_val_digits(s, i, 16, NumBase::Hexadecimal)
        } else {
            Recognized::Malformed(i)
        }
    }
}

/// The digits and tail of a numeric terminal whose `%` is at `i`.
pub open spec fn spec_num_val_digits(s: Seq<u8>, i: int, base: u32, num_base: NumBase)
    -> Recognized<(NumBase, SpecNumValues)> {
    match spec_base_digits(s, i + 2, base) {
        Recognized::Absent => Recognized::Malformed(i),
        Recognized::Malformed(l) => Recognized::Malformed(l),
        Recognized::Found(j, first) => match spec_num_tail(s, j, base, first) {
            Recognized::Found(k, vals) => Recognized::Found(k, (num_base, vals)),
            Recognized::Absent => Recognized::Malformed(i),
            Recognized::Malformed(l) => Recognized::Malformed(l),
        },
    }
}

/// A numeric terminal at its base marker (without the `%`).
pub open spec fn spec_marked_val(s: Seq<u8>, i: int, lo: u8, up: u8, base: u32) -> Recognized<
    SpecNumValues,
> {
    if !(0 <= i < s.len() && (s[i] == lo || s[i] == up)) {
        Recognized::Absent
    } else {
        match spec_base_digits(s, i + 1, base) {
            Recognized::Absent => Recognized::Malformed(i),
            Recognized::Malformed(l) => Recognized::Malformed(l),
            Recognized::Found(j, first) => match spec_num_tail(s, j, base, first) {
                Recognized::Found(k, vals) => Recognized::Found(k, vals),
                Recognized::Absent => Recognized::Malformed(i),
                Recognized::Malformed(l) => Recognized::Malformed(l),
            },
        }
    }
}

fn byte_is_wsp(b: u8) -> (r: bool)
    ensures
        r == is_wsp_byte(b),
{
    b == 0x20 || b == 0x09
}

/// A bare line break: LF, or CRLF (the notation's own line ending; bare LF
/// is accepted as a permissive extension).
pub fn line_ending(input: &Vec<u8>, i: usize) -> (r: Option<usize>)
    requires
        i <= input@.len(),
    ensures
        r matches Some(j) ==> i < j <= input@.len(),
        opt_end_view(r) == spec_line_ending(input@, i as int),
{
    if i < input.len() && input[i] == 0x0a {
        Some(i + 1)
    } else if i < input.len() && input[i] == 0x0d && i + 1 < input.len() && input[i + 1] == 0x0a {
        Some(i + 2)
    } else {
        None
    }
}

/// A `;` comment running to the end of the line, line break included.
#[verifier::loop_isolation(false)]
pub fn comment(input: &Vec<u8>, i: usize) -> (r: Option<usize>)
    requires
        i <= input@.len(),
    ensures
        r matches Some(j) ==> i < j <= input@.len(),
        opt_end_view(r) == spec_comment(input@, i as int),
{
    if i < input.len() && input[i] == 0x3b {
        let mut j: usize = i + 1;
        while j < input.len() && (byte_is_wsp(input[j]) || (0x21 <= input[j] && input[j] <= 0x7e))
            invariant
                i < j <= input@.len(),
                comment_body_end(input@, i as int + 1) == comment_body_end(input@, j as int),
            decreases input@.len() - j,
        {
            j += 1;
        }
        line_ending(input, j)
    } else {
        None
    }
}

/// A comment or a bare line break.
pub fn c_nl(input: &Vec<u8>, i: usize) -> (r: Option<usize>)
    requires
        i <= input@.len(),
    ensures
        r matches Some(j) ==> i < j <= input@.len(),
        opt_end_view(r) == spec_c_nl(input@, i as int),
{
    match comment(input, i) {
        Some(j) => Some(j),
        None => line_ending(input, i),
    }
}

/// One unit of whitespace: a space or tab, or a line break followed by a
/// space or tab (a continuation line folded into the current rule).
pub fn c_wsp(input: &Vec<u8>, i: usize) -> (r: Option<usize>)
    requires
        i <= input@.len(),
    ensures
        r matches Some(j) ==> i < j <= input@.len(),
        opt_end_view(r) == spec_c_wsp(input@, i as int),
{
    if i < input.len() && byte_is_wsp(input[i]) {
        Some(i + 1)
    } else {
        match c_nl(input, i) {
            Some(j) => {
                if j < input.len() && byte_is_wsp(input[j]) {
                    Some(j + 1)
                } else {
                    None
                }
            },
            None => None,
        }
    }
}

/// Consumes as many whitespace units as possible (`*c-wsp`).
#[verifier::loop_isolation(false)]
pub fn star_c_wsp(input: &Vec<u8>, i: usize) -> (r: usize)
    requires
        i <= input@.len(),
    ensures
        i <= r <= input@.len(),
        r as int == spec_star_c_wsp(input@, i as int),
{
    let mut cur: usize = i;
    loop
        invariant
            i <= cur <= input@.len(),
            spec_star_c_wsp(input@, i as int) == spec_star_c_wsp(input@, cur as int),
        decreases input@.len() - cur,
    {
        match c_wsp(input, cur) {
            Some(j) => {
                cur = j;
            },
            None => {
                return cur;
            },
        }
    }
}

/// A rule name: an alphabetic byte, then letters, digits and hyphens,
/// taken as far as possible.  Returns the end of the name; the name's
/// bytes are `input[i .. j]`.
#[verifier::loop_isolation(false)]
pub fn rule_name(input: &Vec<u8>, i: usize) -> (r: Option<usize>)
    requires
        i <= input@.len(),
    ensures
        match r {
            Some(j) => {
                &&& i < j <= input@.len()
                &&& is_rule_name_bytes(input@.subrange(i as int, j as int))
                &&& j == input@.len() || !is_name_tail_byte(input@[j as int])
            },
            None => !(i < input@.len() && is_alpha_byte(input@[i as int])),
        },
        opt_end_view(r) == spec_rule_name(input@, i as int),
{
    if i < input.len() && byte_is_alpha(input[i]) {
        let mut j: usize = i + 1;
        while j < input.len() && byte_is_name_tail(input[j])
            invariant
                i < j <= input@.len(),
                is_alpha_byte(input@[i as int]),
                forall|k: int| i < k < j ==> is_name_tail_byte(#[trigger] input@[k]),
                name_tail_end(input@, i as int + 1) == name_tail_end(input@, j as int),
            decreases input@.len() - j,
        {
            j += 1;
        }
        assert(is_rule_name_bytes(input@.subrange(i as int, j as int)));
        Some(j)
    } else {
        None
    }
}

/// Copies the byte span `[from, to)` out of the input.
pub fn copy_span(input: &Vec<u8>, from: usize, to: usize) -> (r: Vec<u8>)
    requires
        from <= to <= input@.len(),
    ensures
        r@ == input@.subrange(from as int, to as int),
{
    let mut out: Vec<u8> = Vec::new();
    let mut k: usize = from;
    while k < to
        invariant
            from <= k <= to <= input@.len(),
            out@.len() == k - from,
            forall|q: int| 0 <= q < out@.len() ==> out@[q] == input@[from + q],
        decreases to - k,
    {
        out.push(input[k]);
        k += 1;
    }
    assert(out@ =~= input@.subrange(from as int, to as int));
    out
}

/// Parses the rule name starting at `i` into a canonical `RuleName`.
pub fn parse_rule_name(input: &Vec<u8>, i: usize) -> (r: Option<(usize, RuleName)>)
    requires
        i <= input@.len(),
    ensures
        match r {
            Some(p) => {
                &&& i < p.0 <= input@.len()
                &&& p.1.wf()
                &&& chars_as_bytes(p.1@) == lower_bytes(
                    input@.subrange(i as int, p.0 as int),
                )
                &&& is_rule_name_bytes(input@.subrange(i as int, p.0 as int))
                &&& p.0 == input@.len() || !is_name_tail_byte(input@[p.0 as int])
            },
            None => !(i < input@.len() && is_alpha_byte(input@[i as int])),
        },
        (match r {
            Some(p) => spec_parse_rule_name(input@, i as int) == Some(
                (p.0 as int, chars_as_bytes(p.1@)),
            ),
            None => spec_parse_rule_name(input@, i as int) is None,
        }),
{
    match rule_name(input, i) {
        None => None,
        Some(j) => {
            let bytes = copy_span(input, i, j);
            match RuleName::from_bytes(&bytes) {
                Some(name) => Some((j, name)),
                None => None,
            }
        },
    }
}

/// The `defined-as` operator with its surrounding whitespace: `=` for a
/// plain definition, `=/` for an incremental alternative.  Returns the end
/// position and whether the definition is incremental.
pub fn defined_as(input: &Vec<u8>, i: usize) -> (r: Option<(usize, bool)>)
    requires
        i <= input@.len(),
    ensures
        r matches Some(p) ==> i <= p.0 <= input@.len(),
        (match r {
            Some(p) => Some((p.0 as int, p.1)),
            None => None::<(int, bool)>,
        }) == spec_defined_as(input@, i as int),
{
    let j = star_c_wsp(input, i);
    if j < input.len() && input[j] == 0x3d {
        if j + 1 < input.len() && input[j + 1] == 0x2f {
            let k = star_c_wsp(input, j + 2);
            Some((k, true))
        } else {
            let k = star_c_wsp(input, j + 1);
            Some((k, false))
        }
    } else {
        None
    }
}

/// Decimal digit run for a repeat count.  `Ok(None)` when no digit starts
/// here; an `InvalidMetasyntax` error when the value does not fit.
#[verifier::loop_isolation(false)]
pub fn dec_digits(input: &Vec<u8>, i: usize) -> (r: Result<Option<(usize, u32)>, Error>)
    requires
        i <= input@.len(),
    ensures
        r matches Ok(Some(p)) ==> i < p.0 <= input@.len(),
        r matches Ok(None) ==> !(i < input@.len() && is_digit_byte(input@[i as int])),
        (match r {
            Ok(Some(p)) => Recognized::Found(p.0 as int, p.1),
            Ok(None) => Recognized::Absent,
            Err(e) => err_view(e),
        }) == spec_dec_digits(input@, i as int),
{
    if !(i < input.len() && byte_is_digit(input[i])) {
        return Ok(None);
    }
    let mut j: usize = i;
    let mut value: u64 = 0;
    while j < input.len() && byte_is_digit(input[j])
        invariant
            i <= j <= input@.len(),
            value <= 0xffff_ffff,
            base_run_end(input@, i as int, 10) == base_run_end(input@, j as int, 10),
            value as int == base_value(input@, i as int, j as int, 10),
        decreases input@.len() - j,
    {
        value = value * 10 + ((input[j] - 0x30) as u64);
        if value > 0xffff_ffff {
            proof {
                lemma_base_run_end_bounds(input@, j as int + 1, 10);
                lemma_base_value_monotone(
                    input@,
                    i as int,
                    j as int + 1,
                    base_run_end(input@, i as int, 10),
                    10,
                );
            }
            return Err(Error::InvalidMetasyntax { location: i });
        }
        j += 1;
    }
    assert(i < j);
    Ok(Some((j, value as u32)))
}

/// The optional `repeat` prefix of a repetition: an exact count `n`, or a
/// range `min*max` with either bound optional.  Returns the end position
/// and the bounds; `max == None` means unbounded.
pub fn repeat(input: &Vec<u8>, i: usize) -> (r: Result<Option<(usize, u32, Option<u32>)>, Error>)
    requires
        i <= input@.len(),
    ensures
        r matches Ok(Some(p)) ==> i < p.0 <= input@.len(),
        r matches Ok(None) ==> !(i < input@.len() && (is_digit_byte(input@[i as int]) || input@[i as int] == 0x2a)),
        (match r {
            Ok(Some(p)) => Recognized::Found(p.0 as int, (p.1, p.2)),
            Ok(None) => Recognized::Absent,
            Err(e) => err_view(e),
        }) == spec_repeat(input@, i as int),
{
    let first = match dec_digits(input, i) {
        Err(e) => {
            return Err(e);
        },
        Ok(v) => v,
    };
    let (after_min, min_given) = match first {
        Some((j, v)) => (j, Some(v)),
        None => (i, None),
    };
    if after_min < input.len() && input[after_min] == 0x2a {
        let second = match dec_digits(input, after_min + 1) {
            Err(e) => {
                return Err(e);
            },
            Ok(v) => v,
        };
        let minv = match min_given {
            Some(v) => v,
            None => 0,
        };
        match second {
            Some((k, maxv)) => Ok(Some((k, minv, Some(maxv)))),
            None => Ok(Some((after_min + 1, minv, None))),
        }
    } else {
        match min_given {
            Some(v) => Ok(Some((after_min, v, Some(v)))),
            None => Ok(None),
        }
    }
}

/// A quoted literal: `"` then printable ASCII without `"`, then `"`.
/// Matching is case-insensitive at evaluation time.
#[verifier::loop_isolation(false)]
pub fn char_val(input: &Vec<u8>, i: usize) -> (r: Result<Option<(usize, Vec<u8>)>, Error>)
    requires
        i <= input@.len(),
    ensures
        match r {
            Ok(Some(p)) => {
                &&& i < p.0 <= input@.len()
                &&& p.1@ == input@.subrange(i as int + 1, p.0 as int - 1)
                &&& forall|k: int| 0 <= k < p.1@.len() ==> is_char_val_byte(#[trigger] p.1@[k])
            },
            Ok(None) => !(i < input@.len() && input@[i as int] == 0x22),
            Err(_) => true,
        },
        (match r {
            Ok(Some(p)) => Recognized::Found(p.0 as int, p.1@),
            Ok(None) => Recognized::Absent,
            Err(e) => err_view(e),
        }) == spec_char_val(input@, i as int),
{
    if !(i < input.len() && input[i] == 0x22) {
        return Ok(None);
    }
    let mut j: usize = i + 1;
    while j < input.len() && (0x20 <= input[j] && input[j] <= 0x7e && input[j] != 0x22)
        invariant
            i < j <= input@.len(),
            forall|k: int| i + 1 <= k < j ==> is_char_val_byte(#[trigger] input@[k]),
            char_run_end(input@, i as int + 1) == char_run_end(input@, j as int),
        decreases input@.len() - j,
    {
        j += 1;
    }
    if j < input.len() && input[j] == 0x22 {
        let content = copy_span(input, i + 1, j);
        Ok(Some((j + 1, content)))
    } else {
        Err(Error::InvalidMetasyntax { location: i })
    }
}

/// A prose description: `<` then printable ASCII without `>`, then `>`.
#[verifier::loop_isolation(false)]
pub fn prose_val(input: &Vec<u8>, i: usize) -> (r: Result<Option<(usize, Vec<u8>)>, Error>)
    requires
        i <= input@.len(),
    ensures
        match r {
            Ok(Some(p)) => {
                &&& i < p.0 <= input@.len()
                &&& p.1@ == input@.subrange(i as int + 1, p.0 as int - 1)
                &&& forall|k: int| 0 <= k < p.1@.len() ==> is_prose_byte(#[trigger] p.1@[k])
            },
            Ok(None) => !(i < input@.len() && input@[i as int] == 0x3c),
            Err(_) => true,
        },
        (match r {
            Ok(Some(p)) => Recognized::Found(p.0 as int, p.1@),
            Ok(None) => Recognized::Absent,
            Err(e) => err_view(e),
        }) == spec_prose_val(input@, i as int),
{
    if !(i < input.len() && input[i] == 0x3c) {
        return Ok(None);
    }
    let mut j: usize = i + 1;
    while j < input.len() && ((0x20 <= input[j] && input[j] <= 0x3d) || (0x3f <= input[j]
        && input[j] <= 0x7e))
        invariant
            i < j <= input@.len(),
            forall|k: int| i + 1 <= k < j ==> is_prose_byte(#[trigger] input@[k]),
            prose_run_end(input@, i as int + 1) == prose_run_end(input@, j as int),
        decreases input@.len() - j,
    {
        j += 1;
    }
    if j < input.len() && input[j] == 0x3e {
        let content = copy_span(input, i + 1, j);
        Ok(Some((j + 1, content)))
    } else {
        Err(Error::InvalidMetasyntax { location: i })
    }
}

/// Digit run in the given base (2, 10 or 16), with its numeric value.
#[verifier::loop_isolation(false)]
fn base_digits(input: &Vec<u8>, i: usize, base: u32) -> (r: Result<Option<(usize, u32)>, Error>)
    requires
        i <= input@.len(),
        base == 2 || base == 10 || base == 16,
    ensures
        r matches Ok(Some(p)) ==> i < p.0 <= input@.len(),
        (match r {
            Ok(Some(p)) => Recognized::Found(p.0 as int, p.1),
            Ok(None) => Recognized::Absent,
            Err(e) => err_view(e),
        }) == spec_base_digits(input@, i as int, base),
{
    let mut j: usize = i;
    let mut value: u64 = 0;
    loop
        invariant
            i <= j <= input@.len(),
            value <= 0xffff_ffff,
            base == 2 || base == 10 || base == 16,
            base_run_end(input@, i as int, base) == base_run_end(input@, j as int, base),
            value as int == base_value(input@, i as int, j as int, base),
        decreases input@.len() - j,
    {
        if j >= input.len() {
            break;
        }
        let b = input[j];
        let d: u32 = if 0x30 <= b && b <= 0x39 {
            (b - 0x30) as u32
        } else if 0x41 <= b && b <= 0x46 {
            (b - 0x41) as u32 + 10
        } else if 0x61 <= b && b <= 0x66 {
            (b - 0x61) as u32 + 10
        } else {
            break;
        };
        if d >= base {
            break;
        }
        proof {
            assert(value * (base as u64) <= 0xffff_ffffu64 * 16) by (nonlinear_arith)
                requires
                    value <= 0xffff_ffff,
                    (base as u64) <= 16,
            ;
        }
        value = value * (base as u64) + (d as u64);
        if value > 0xffff_ffff {
            proof {
                lemma_base_run_end_bounds(input@, j as int + 1, base);
                lemma_base_value_monotone(
                    input@,
                    i as int,
                    j as int + 1,
                    base_run_end(input@, i as int, base),
                    base,
                );
            }
            return Err(Error::InvalidMetasyntax { location: i });
        }
        j += 1;
    }
    if j == i {
        Ok(None)
    } else {
        Ok(Some((j, value as u32)))
    }
}

/// The tail of a numeric terminal after its first value: nothing, a
/// `.`-joined sequence of further values, or a `-`-joined upper bound.
#[verifier::loop_isolation(false)]
fn num_val_tail(input: &Vec<u8>, i: usize, base: u32, first: u32) -> (r: Result<
    (usize, NumValues),
    Error,
>)
    requires
        i <= input@.len(),
        base == 2 || base == 10 || base == 16,
    ensures
        r matches Ok(p) ==> i <= p.0 <= input@.len(),
        (match r {
            Ok(p) => Recognized::Found(p.0 as int, num_values_view(p.1)),
            Err(e) => err_view(e),
        }) == spec_num_tail(input@, i as int, base, first),
{
    if i < input.len() && input[i] == 0x2d {
        // an inclusive range: exactly one upper bound
        match base_digits(input, i + 1, base) {
            Err(e) => Err(e),
            Ok(None) => Err(Error::InvalidMetasyntax { location: i }),
            Ok(Some((j, hi))) => Ok((j, NumValues::Range(first, hi))),
        }
    } else if i < input.len() && input[i] == 0x2e {
        // a concatenated sequence of values
        let mut vals: Vec<u32> = Vec::new();
        vals.push(first);
        assert(vals@ =~= seq![first]);
        let mut cur: usize = i;
        while cur < input.len() && input[cur] == 0x2e
            invariant
                i <= cur <= input@.len(),
                base == 2 || base == 10 || base == 16,
                spec_num_seq(input@, i as int, base, seq![first]) == spec_num_seq(
                    input@,
                    cur as int,
                    base,
                    vals@,
                ),
            decreases input@.len() - cur,
        {
            match base_digits(input, cur + 1, base) {
                Err(e) => {
                    return Err(e);
                },
                Ok(None) => {
                    return Err(Error::InvalidMetasyntax { location: cur });
                },
                Ok(Some((j, v))) => {
                    vals.push(v);
                    cur = j;
                },
            }
        }
        Ok((cur, NumValues::Sequence(vals)))
    } else {
        Ok((i, NumValues::Single(first)))
    }
}

/// A numeric terminal: `%` then `b`, `d` or `x`, then one or more digits
/// in that base, optionally continued by `.` values or one `-` bound.
pub fn num_val(input: &Vec<u8>, i: usize) -> (r: Result<
    Option<(usize, NumBase, NumValues)>,
    Error,
>)
    requires
        i <= input@.len(),
    ensures
        r matches Ok(Some(p)) ==> i < p.0 <= input@.len(),
        r matches Ok(None) ==> !(i < input@.len() && input@[i as int] == 0x25),
        (match r {
            Ok(Some(p)) => Recognized::Found(p.0 as int, (p.1, num_values_view(p.2))),
            Ok(None) => Recognized::Absent,
            Err(e) => err_view(e),
        }) == spec_num_val(input@, i as int),
{
    if !(i < input.len() && input[i] == 0x25) {
        return Ok(None);
    }
    if i + 1 >= input.len() {
        return Err(Error::InvalidMetasyntax { location: i });
    }
    let marker = input[i + 1];
    let (base, num_base) = if marker == 0x62 || marker == 0x42 {
        (2u32, NumBase::Binary)
    } else if marker == 0x64 || marker == 0x44 {
        (10u32, NumBase::Decimal)
    } else if marker == 0x78 || marker == 0x58 {
        (16u32, NumBase::Hexadecimal)
    } else {
        return Err(Error::InvalidMetasyntax { location: i });
    };
    match base_digits(input, i + 2, base) {
        Err(e) => Err(e),
        Ok(None) => Err(Error::InvalidMetasyntax { location: i }),
        Ok(Some((j, first))) => match num_val_tail(input, j, base, first) {
            Err(e) => Err(e),
            Ok((k, vals)) => Ok(Some((k, num_base, vals))),
        },
    }
}

/// A binary numeric terminal, at its `b` marker.
pub fn bin_val(input: &Vec<u8>, i: usize) -> (r: Result<Option<(usize, NumValues)>, Error>)
    requires
        i <= input@.len(),
    ensures
        r matches Ok(Some(p)) ==> i < p.0 <= input@.len(),
        r matches Ok(None) ==> !(i < input@.len() && (input@[i as int] == 0x62 || input@[i as int] == 0x42)),
        (match r {
            Ok(Some(p)) => Recognized::Found(p.0 as int, num_values_view(p.1)),
            Ok(None) => Recognized::Absent,
            Err(e) => err_view(e),
        }) == spec_marked_val(input@, i as int, 0x62, 0x42, 2),
{
    if !(i < input.len() && (input[i] == 0x62 || input[i] == 0x42)) {
        return Ok(None);
    }
    match base_digits(input, i + 1, 2) {
        Err(e) => Err(e),
        Ok(None) => Err(Error::InvalidMetasyntax { location: i }),
        Ok(Some((j, first))) => match num_val_tail(input, j, 2, first) {
            Err(e) => Err(e),
            Ok((k, vals)) => Ok(Some((k, vals))),
        },
    }
}

/// A decimal numeric terminal, at its `d` marker.
pub fn dec_val(input: &Vec<u8>, i: usize) -> (r: Result<Option<(usize, NumValues)>, Error>)
    requires
        i <= input@.len(),
    ensures
        r matches Ok(Some(p)) ==> i < p.0 <= input@.len(),
        r matches Ok(None) ==> !(i < input@.len() && (input@[i as int] == 0x64 || input@[i as int] == 0x44)),
        (match r {
            Ok(Some(p)) => Recognized::Found(p.0 as int, num_values_view(p.1)),
            Ok(None) => Recognized::Absent,
            Err(e) => err_view(e),
        }) == spec_marked_val(input@, i as int, 0x64, 0x44, 10),
{
    if !(i < input.len() && (input[i] == 0x64 || input[i] == 0x44)) {
        return Ok(None);
    }
    match base_digits(input, i + 1, 10) {
        Err(e) => Err(e),
        Ok(None) => Err(Error::InvalidMetasyntax { location: i }),
        Ok(Some((j, first))) => match num_val_tail(input, j, 10, first) {
            Err(e) => Err(e),
            Ok((k, vals)) => Ok(Some((k, vals))),
        },
    }
}

/// A hexadecimal numeric terminal, at its `x` marker.
pub fn hex_val(input: &Vec<u8>, i: usize) -> (r: Result<Option<(usize, NumValues)>, Error>)
    requires
        i <= input@.len(),
    ensures
        r matches Ok(Some(p)) ==> i < p.0 <= input@.len(),
        r matches Ok(None) ==> !(i < input@.len() && (input@[i as int] == 0x78 || input@[i as int] == 0x58)),
        (match r {
            Ok(Some(p)) => Recognized::Found(p.0 as int, num_values_view(p.1)),
            Ok(None) => Recognized::Absent,
            Err(e) => err_view(e),
        }) == spec_marked_val(input@, i as int, 0x78, 0x58, 16),
{
    if !(i < input.len() && (input[i] == 0x78 || input[i] == 0x58)) {
        return Ok(None);
    }
    match base_digits(input, i + 1, 16) {
        Err(e) => Err(e),
        Ok(None) => Err(Error::InvalidMetasyntax { location: i }),
        Ok(Some((j, first))) => match num_val_tail(input, j, 16, first) {
            Err(e) => Err(e),
            Ok((k, vals)) => Ok(Some((k, vals))),
        },
    }
}

/// One element at `i`, dispatched on its first byte.
pub open spec fn spec_element(s: Seq<u8>, i: int) -> Recognized<SpecExpr>
    decreases s.len() - i, 1int,
{
    if !(0 <= i < s.len()) {
        Recognized::Absent
    } else if is_alpha_byte(s[i]) {
        match spec_parse_rule_name(s, i) {
            Some((j, name)) => Recognized::Found(j, SpecExpr::RuleRef(name)),
            None => Recognized::Absent,
        }
    } else if s[i] == 0x28 {
        spec_group(s, i)
    } else if s[i] == 0x5b {
        spec_option(s, i)
    } else if s[i] == 0x22 {
        match spec_char_val(s, i) {
            Recognized::Found(j, text) => Recognized::Found(j, SpecExpr::Literal(text)),
            Recognized::Absent => Recognized::Absent,
            Recognized::Malformed(l) => Recognized::Malformed(l),
        }
    } else if s[i] == 0x25 {
        match spec_num_val(s, i) {
            Recognized::Found(j, p) => Recognized::Found(j, SpecExpr::NumericTerm(p.0, p.1)),
            Recognized::Absent => Recognized::Absent,
            Recognized::Malformed(l) => Recognized::Malformed(l),
        }
    } else if s[i] == 0x3c {
        match spec_prose_val(s, i) {
            Recognized::Found(j, text) => Recognized::Found(j, SpecExpr::Prose(text)),
            Recognized::Absent => Recognized::Absent,
            Recognized::Malformed(l) => Recognized::Malformed(l),
        }
    } else {
        Recognized::Absent
    }
}

/// A parenthesised group at `i`.
pub open spec fn spec_group(s: Seq<u8>, i: int) -> Recognized<SpecExpr>
    decreases s.len() - i, 0int,
    via spec_group_decreases
{
    if !(0 <= i < s.len() && s[i] == 0x28) {
        Recognized::Absent
    } else {
        let j = spec_star_c_wsp(s, i + 1);
        if !(i < j <= s.len()) {
            Recognized::Malformed(i)
        } else {
            match spec_alternation(s, j) {
                Recognized::Absent => Recognized::Malformed(j),
                Recognized::Malformed(l) => Recognized::Malformed(l),
                Recognized::Found(k, expr) => {
                    let m = spec_star_c_wsp(s, k);
                    if 0 <= m < s.len() && s[m] == 0x29 {
                        Recognized::Found(m + 1, SpecExpr::Group(Box::new(expr)))
                    } else {
                        Recognized::Malformed(m)
                    }
                },
            }
        }
    }
}

#[via_fn]
proof fn spec_group_decreases(s: Seq<u8>, i: int) {
    if 0 <= i < s.len() && s[i] == 0x28 {
        lemma_spec_star_c_wsp_bounds(s, i + 1);
    }
}

/// An optional group at `i`.
pub open spec fn spec_option(s: Seq<u8>, i: int) -> Recognized<SpecExpr>
    decreases s.len() - i, 0int,
    via spec_option_decreases
{
    if !(0 <= i < s.len() && s[i] == 0x5b) {
        Recognized::Absent
    } else {
        let j = spec_star_c_wsp(s, i + 1);
        if !(i < j <= s.len()) {
            Recognized::Malformed(i)
        } else {
            match spec_alternation(s, j) {
                Recognized::Absent => Recognized::Malformed(j),
                Recognized::Malformed(l) => Recognized::Malformed(l),
                Recognized::Found(k, expr) => {
                    let m = spec_star_c_wsp(s, k);
                    if 0 <= m < s.len() && s[m] == 0x5d {
                        Recognized::Found(m + 1, SpecExpr::Optional(Box::new(expr)))
                    } else {
                        Recognized::Malformed(m)
                    }
                },
            }
        }
    }
}

#[via_fn]
proof fn spec_option_decreases(s: Seq<u8>, i: int) {
    if 0 <= i < s.len() && s[i] == 0x5b {
        lemma_spec_star_c_wsp_bounds(s, i + 1);
    }
}

/// A repetition at `i`: an optional repeat prefix, then an element.
pub open spec fn spec_repetition(s: Seq<u8>, i: int) -> Recognized<SpecExpr>
    decreases s.len() - i, 2int,
    via spec_repetition_decreases
{
    if !(0 <= i <= s.len()) {
        Recognized::Absent
    } else {
        match spec_repeat(s, i) {
            Recognized::Malformed(l) => Recognized::Malformed(l),
            Recognized::Found(j, bounds) => if i < j <= s.len() {
                match spec_element(s, j) {
                    Recognized::Absent => Recognized::Malformed(j),
                    Recognized::Malformed(l) => Recognized::Malformed(l),
                    Recognized::Found(k, inner) => Recognized::Found(
                        k,
                        SpecExpr::Repetition {
                            min: bounds.0,
                            max: bounds.1,
                            inner: Box::new(inner),
                        },
                    ),
                }
            } else {
                Recognized::Malformed(i)
            },
            Recognized::Absent => spec_element(s, i),
        }
    }
}

#[via_fn]
proof fn spec_repetition_decreases(s: Seq<u8>, i: int) {
    if 0 <= i <= s.len() {
        lemma_spec_repeat_bounds(s, i);
    }
}

/// The repetitions after the first one of a concatenation, each preceded
/// by at least one whitespace unit; stops before whitespace that no
/// further repetition follows.
pub open spec fn spec_concat_tail(s: Seq<u8>, cur: int) -> Recognized<Seq<SpecExpr>>
    decreases s.len() - cur, 0int,
{
    if !(0 <= cur <= s.len()) {
        Recognized::Absent
    } else {
        let k = spec_star_c_wsp(s, cur);
        if k == cur || !(cur < k <= s.len()) {
            Recognized::Found(cur, Seq::empty())
        } else {
            match spec_repetition(s, k) {
                Recognized::Malformed(l) => Recognized::Malformed(l),
                Recognized::Absent => Recognized::Found(cur, Seq::empty()),
                Recognized::Found(m, expr) => if cur < m <= s.len() {
                    match spec_concat_tail(s, m) {
                        Recognized::Found(end, rest) => Recognized::Found(
                            end,
                            seq![expr] + rest,
                        ),
                        other => other,
                    }
                } else {
                    Recognized::Malformed(cur)
                },
            }
        }
    }
}

/// A concatenation at `i`: whitespace-separated repetitions; a single
/// repetition stays bare.
pub open spec fn spec_concatenation(s: Seq<u8>, i: int) -> Recognized<SpecExpr>
    decreases s.len() - i, 3int,
{
    if !(0 <= i <= s.len()) {
        Recognized::Absent
    } else {
        match spec_repetition(s, i) {
            Recognized::Absent => Recognized::Absent,
            Recognized::Malformed(l) => Recognized::Malformed(l),
            Recognized::Found(j, first) => if i < j <= s.len() {
                match spec_concat_tail(s, j) {
                    Recognized::Found(end, rest) => if rest.len() == 0 {
                        Recognized::Found(end, first)
                    } else {
                        Recognized::Found(end, SpecExpr::Concatenation(seq![first] + rest))
                    },
                    Recognized::Absent => Recognized::Absent,
                    Recognized::Malformed(l) => Recognized::Malformed(l),
                }
            } else {
                Recognized::Malformed(i)
            },
        }
    }
}

/// The branches after the first one of an alternation, each introduced by
/// `/`; a `/` that no branch follows is malformed.
pub open spec fn spec_alt_tail(s: Seq<u8>, cur: int) -> Recognized<Seq<SpecExpr>>
    decreases s.len() - cur, 4int,
    via spec_alt_tail_decreases
{
    if !(0 <= cur <= s.len()) {
        Recognized::Absent
    } else {
        let k = spec_star_c_wsp(s, cur);
        if 0 <= k < s.len() && s[k] == 0x2f {
            let m = spec_star_c_wsp(s, k + 1);
            if !(cur < m <= s.len()) {
                Recognized::Malformed(cur)
            } else {
                match spec_concatenation(s, m) {
                    Recognized::Absent => Recognized::Malformed(m),
                    Recognized::Malformed(l) => Recognized::Malformed(l),
                    Recognized::Found(n, expr) => if cur < n <= s.len() {
                        match spec_alt_tail(s, n) {
                            Recognized::Found(end, rest) => Recognized::Found(
                                end,
                                seq![expr] + rest,
                            ),
                            other => other,
                        }
                    } else {
                        Recognized::Malformed(cur)
                    },
                }
            }
        } else {
            Recognized::Found(cur, Seq::empty())
        }
    }
}

#[via_fn]
proof fn spec_alt_tail_decreases(s: Seq<u8>, cur: int) {
    if 0 <= cur <= s.len() {
        lemma_spec_star_c_wsp_bounds(s, cur);
        let k = spec_star_c_wsp(s, cur);
        if 0 <= k < s.len() {
            lemma_spec_star_c_wsp_bounds(s, k + 1);
        }
    }
}

/// An alternation at `i`: `/`-separated concatenations; a single branch
/// stays bare.
pub open spec fn spec_alternation(s: Seq<u8>, i: int) -> Recognized<SpecExpr>
    decreases s.len() - i, 5int,
{
    if !(0 <= i <= s.len()) {
        Recognized::Absent
    } else {
        match spec_concatenation(s, i) {
            Recognized::Absent => Recognized::Absent,
            Recognized::Malformed(l) => Recognized::Malformed(l),
            Recognized::Found(j, first) => if i < j <= s.len() {
                match spec_alt_tail(s, j) {
                    Recognized::Found(end, rest) => if rest.len() == 0 {
                        Recognized::Found(end, first)
                    } else {
                        Recognized::Found(end, SpecExpr::Alternation(seq![first] + rest))
                    },
                    Recognized::Absent => Recognized::Absent,
                    Recognized::Malformed(l) => Recognized::Malformed(l),
                }
            } else {
                Recognized::Malformed(i)
            },
        }
    }
}

/// A rule body: an alternation with its trailing whitespace.
pub open spec fn spec_elements(s: Seq<u8>, i: int) -> Recognized<SpecExpr> {
    match spec_alternation(s, i) {
        Recognized::Found(j, expr) => Recognized::Found(spec_star_c_wsp(s, j), expr),
        other => other,
    }
}

/// One rule: name, defined-as operator, elements, line end.
pub open spec fn spec_rule(s: Seq<u8>, i: int) -> Recognized<SpecRuleDef> {
    match spec_parse_rule_name(s, i) {
        None => Recognized::Absent,
        Some((j, name)) => match spec_defined_as(s, j) {
            None => Recognized::Malformed(j),
            Some((k, incremental)) => match spec_elements(s, k) {
                Recognized::Absent => Recognized::Malformed(k),
                Recognized::Malformed(l) => Recognized::Malformed(l),
                Recognized::Found(m, body) => match spec_c_nl(s, m) {
                    None => Recognized::Malformed(m),
                    Some(end) => Recognized::Found(
                        end,
                        SpecRuleDef { name, incremental, body },
                    ),
                },
            },
        },
    }
}

/// The whole document from `i` on: rules and blank or comment lines, in
/// order; `Err` carries the location of the first malformed construct.
pub open spec fn spec_rule_list(s: Seq<u8>, i: int) -> Result<Seq<SpecRuleDef>, int>
    decreases s.len() - i,
{
    if !(0 <= i <= s.len()) {
        Err(-1)
    } else if i == s.len() {
        Ok(Seq::empty())
    } else {
        match spec_rule(s, i) {
            Recognized::Malformed(l) => Err(l),
            Recognized::Found(j, def) => if i < j <= s.len() {
                match spec_rule_list(s, j) {
                    Ok(rest) => Ok(seq![def] + rest),
                    Err(l) => Err(l),
                }
            } else {
                Err(-1)
            },
            Recognized::Absent => {
                let k = spec_star_c_wsp(s, i);
                match spec_c_nl(s, k) {
                    Some(j) => if i < j <= s.len() {
                        match spec_rule_list(s, j) {
                            Ok(rest) => Ok(rest),
                            Err(l) => Err(l),
                        }
                    } else {
                        Err(-1)
                    },
                    None => Err(k),
                }
            },
        }
    }
}

/// The specification-level image of a recognised definition list.
pub open spec fn defs_view(defs: Seq<RuleDef>) -> Seq<SpecRuleDef> {
    defs.map_values(
        |d: RuleDef|
            SpecRuleDef {
                name: chars_as_bytes(d.name@),
                incremental: d.incremental,
                body: expr_view(d.body),
            },
    )
}

// ---------------------------------------------------------------------------
// The recursive descent over `alternation`, `concatenation`, `repetition`
// and `element`.  The measure is the remaining input paired with the
// construct's place in the grammar: `group` and `option` consume their
// opening bracket before re-entering `alternation`, so the remaining
// input shrinks around every cycle.
// ---------------------------------------------------------------------------

/// One element: a rule name, a group, an option, a quoted literal, a
/// numeric terminal or a prose description.
pub fn element(input: &Vec<u8>, i: usize) -> (r: Result<Option<(usize, Expression)>, Error>)
    requires
        i <= input@.len(),
    ensures
        r matches Ok(Some(p)) ==> i < p.0 <= input@.len(),
        r matches Ok(None) ==> !(i < input@.len() && is_element_start(input@[i as int])),
        (match r {
            Ok(Some(p)) => Recognized::Found(p.0 as int, expr_view(p.1)),
            Ok(None) => Recognized::Absent,
            Err(e) => err_view(e),
        }) == spec_element(input@, i as int),
    decreases input@.len() - i, 1int,
{
    if i >= input.len() {
        return Ok(None);
    }
    let b = input[i];
    if byte_is_alpha(b) {
        match parse_rule_name(input, i) {
            Some((j, name)) => Ok(Some((j, Expression::RuleRef(name)))),
            None => Ok(None),
        }
    } else if b == 0x28 {
        group(input, i)
    } else if b == 0x5b {
        option(input, i)
    } else if b == 0x22 {
        match char_val(input, i) {
            Err(e) => Err(e),
            Ok(None) => Ok(None),
            Ok(Some((j, text))) => Ok(Some((j, Expression::Literal(text)))),
        }
    } else if b == 0x25 {
        match num_val(input, i) {
            Err(e) => Err(e),
            Ok(None) => Ok(None),
            Ok(Some((j, base, vals))) => Ok(Some((j, Expression::NumericTerm(base, vals)))),
        }
    } else if b == 0x3c {
        match prose_val(input, i) {
            Err(e) => Err(e),
            Ok(None) => Ok(None),
            Ok(Some((j, text))) => Ok(Some((j, Expression::Prose(text)))),
        }
    } else {
        Ok(None)
    }
}

/// A parenthesised group: `(` *c-wsp alternation *c-wsp `)`.
pub fn group(input: &Vec<u8>, i: usize) -> (r: Result<Option<(usize, Expression)>, Error>)
    requires
        i <= input@.len(),
    ensures
        r matches Ok(Some(p)) ==> i < p.0 <= input@.len(),
        r matches Ok(None) ==> !(i < input@.len() && input@[i as int] == 0x28),
        (match r {
            Ok(Some(p)) => Recognized::Found(p.0 as int, expr_view(p.1)),
            Ok(None) => Recognized::Absent,
            Err(e) => err_view(e),
        }) == spec_group(input@, i as int),
    decreases input@.len() - i, 0int,
{
    if !(i < input.len() && input[i] == 0x28) {
        return Ok(None);
    }
    let j = star_c_wsp(input, i + 1);
    match alternation(input, j) {
        Err(e) => Err(e),
        Ok(None) => Err(Error::InvalidMetasyntax { location: j }),
        Ok(Some((k, expr))) => {
            let m = star_c_wsp(input, k);
            if m < input.len() && input[m] == 0x29 {
                Ok(Some((m + 1, Expression::Group(Box::new(expr)))))
            } else {
                Err(Error::InvalidMetasyntax { location: m })
            }
        },
    }
}

/// An optional group: `[` *c-wsp alternation *c-wsp `]`.
pub fn option(input: &Vec<u8>, i: usize) -> (r: Result<Option<(usize, Expression)>, Error>)
    requires
        i <= input@.len(),
    ensures
        r matches Ok(Some(p)) ==> i < p.0 <= input@.len(),
        r matches Ok(None) ==> !(i < input@.len() && input@[i as int] == 0x5b),
        (match r {
            Ok(Some(p)) => Recognized::Found(p.0 as int, expr_view(p.1)),
            Ok(None) => Recognized::Absent,
            Err(e) => err_view(e),
        }) == spec_option(input@, i as int),
    decreases input@.len() - i, 0int,
{
    if !(i < input.len() && input[i] == 0x5b) {
        return Ok(None);
    }
    let j = star_c_wsp(input, i + 1);
    match alternation(input, j) {
        Err(e) => Err(e),
        Ok(None) => Err(Error::InvalidMetasyntax { location: j }),
        Ok(Some((k, expr))) => {
            let m = star_c_wsp(input, k);
            if m < input.len() && input[m] == 0x5d {
                Ok(Some((m + 1, Expression::Optional(Box::new(expr)))))
            } else {
                Err(Error::InvalidMetasyntax { location: m })
            }
        },
    }
}

/// A repetition: an optional `repeat` prefix followed by an element.  An
/// element without a prefix is returned bare.
pub fn repetition(input: &Vec<u8>, i: usize) -> (r: Result<Option<(usize, Expression)>, Error>)
    requires
        i <= input@.len(),
    ensures
        r matches Ok(Some(p)) ==> i < p.0 <= input@.len(),
        r matches Ok(None) ==> !(i < input@.len() && is_repetition_start(input@[i as int])),
        (match r {
            Ok(Some(p)) => Recognized::Found(p.0 as int, expr_view(p.1)),
            Ok(None) => Recognized::Absent,
            Err(e) => err_view(e),
        }) == spec_repetition(input@, i as int),
    decreases input@.len() - i, 2int,
{
    match repeat(input, i) {
        Err(e) => Err(e),
        Ok(Some((j, min, max))) => match element(input, j) {
            Err(e) => Err(e),
            Ok(None) => Err(Error::InvalidMetasyntax { location: j }),
            Ok(Some((k, inner))) => Ok(
                Some((k, Expression::Repetition { min, max, inner: Box::new(inner) })),
            ),
        },
        Ok(None) => element(input, i),
    }
}

/// The repetitions after the first one of a concatenation, each preceded
/// by at least one whitespace unit.
fn concat_tail(input: &Vec<u8>, cur: usize) -> (r: Result<(usize, Vec<Expression>), Error>)
    requires
        cur <= input@.len(),
    ensures
        r matches Ok(p) ==> cur <= p.0 <= input@.len(),
        (match r {
            Ok(p) => Recognized::Found(p.0 as int, exprs_view(p.1@)),
            Err(e) => err_view(e),
        }) == spec_concat_tail(input@, cur as int),
    decreases input@.len() - cur, 0int,
{
    let k = star_c_wsp(input, cur);
    if k == cur {
        let out: Vec<Expression> = Vec::new();
        assert(exprs_view(out@) =~= Seq::<SpecExpr>::empty());
        return Ok((cur, out));
    }
    match repetition(input, k) {
        Err(e) => Err(e),
        Ok(None) => {
            let out: Vec<Expression> = Vec::new();
            assert(exprs_view(out@) =~= Seq::<SpecExpr>::empty());
            Ok((cur, out))
        },
        Ok(Some((m, expr))) => match concat_tail(input, m) {
            Err(e) => Err(e),
            Ok((end, rest)) => {
                let ghost restv = rest@;
                let ghost exprg = expr;
                let mut out: Vec<Expression> = Vec::new();
                out.push(expr);
                let mut tail_items = rest;
                out.append(&mut tail_items);
                proof {
                    assert(out@ =~= seq![exprg] + restv);
                    crate::expression::lemma_exprs_view_concat(seq![exprg], restv);
                    crate::expression::lemma_exprs_view_single(exprg);
                }
                Ok((end, out))
            },
        },
    }
}

/// A concatenation: repetitions separated by whitespace.  A single
/// repetition is returned bare.
pub fn concatenation(input: &Vec<u8>, i: usize) -> (r: Result<Option<(usize, Expression)>, Error>)
    requires
        i <= input@.len(),
    ensures
        r matches Ok(Some(p)) ==> i < p.0 <= input@.len(),
        r matches Ok(None) ==> !(i < input@.len() && is_repetition_start(input@[i as int])),
        (match r {
            Ok(Some(p)) => Recognized::Found(p.0 as int, expr_view(p.1)),
            Ok(None) => Recognized::Absent,
            Err(e) => err_view(e),
        }) == spec_concatenation(input@, i as int),
    decreases input@.len() - i, 3int,
{
    match repetition(input, i) {
        Err(e) => Err(e),
        Ok(None) => Ok(None),
        Ok(Some((j, first))) => match concat_tail(input, j) {
            Err(e) => Err(e),
            Ok((end, rest)) => {
                if rest.len() == 0 {
                    assert(exprs_view(rest@).len() == 0);
                    Ok(Some((end, first)))
                } else {
                    let ghost restv = rest@;
                    let ghost firstg = first;
                    let mut items: Vec<Expression> = Vec::new();
                    items.push(first);
                    let mut tail_items = rest;
                    items.append(&mut tail_items);
                    proof {
                        assert(items@ =~= seq![firstg] + restv);
                        crate::expression::lemma_exprs_view_concat(seq![firstg], restv);
                        crate::expression::lemma_exprs_view_single(firstg);
                        assert(exprs_view(restv).len() > 0) by {
                            crate::expression::lemma_exprs_view_len(restv);
                        }
                    }
                    Ok(Some((end, Expression::Concatenation(items))))
                }
            },
        },
    }
}

/// The branches after the first one of an alternation, each introduced by
/// `/`.
fn alt_tail(input: &Vec<u8>, cur: usize) -> (r: Result<(usize, Vec<Expression>), Error>)
    requires
        cur <= input@.len(),
    ensures
        r matches Ok(p) ==> cur <= p.0 <= input@.len(),
        (match r {
            Ok(p) => Recognized::Found(p.0 as int, exprs_view(p.1@)),
            Err(e) => err_view(e),
        }) == spec_alt_tail(input@, cur as int),
    decreases input@.len() - cur, 0int,
{
    let k = star_c_wsp(input, cur);
    if k < input.len() && input[k] == 0x2f {
        let m = star_c_wsp(input, k + 1);
        match concatenation(input, m) {
            Err(e) => Err(e),
            Ok(None) => Err(Error::InvalidMetasyntax { location: m }),
            Ok(Some((n, expr))) => match alt_tail(input, n) {
                Err(e) => Err(e),
                Ok((end, rest)) => {
                    let ghost restv = rest@;
                    let ghost exprg = expr;
                    let mut out: Vec<Expression> = Vec::new();
                    out.push(expr);
                    let mut tail_items = rest;
                    out.append(&mut tail_items);
                    proof {
                        assert(out@ =~= seq![exprg] + restv);
                        crate::expression::lemma_exprs_view_concat(seq![exprg], restv);
                        crate::expression::lemma_exprs_view_single(exprg);
                    }
                    Ok((end, out))
                },
            },
        }
    } else {
        let out: Vec<Expression> = Vec::new();
        assert(exprs_view(out@) =~= Seq::<SpecExpr>::empty());
        Ok((cur, out))
    }
}

/// An alternation: concatenations separated by `/`.  A single branch is
/// returned bare.
pub fn alternation(input: &Vec<u8>, i: usize) -> (r: Result<Option<(usize, Expression)>, Error>)
    requires
        i <= input@.len(),
    ensures
        r matches Ok(Some(p)) ==> i < p.0 <= input@.len(),
        r matches Ok(None) ==> !(i < input@.len() && is_repetition_start(input@[i as int])),
        (match r {
            Ok(Some(p)) => Recognized::Found(p.0 as int, expr_view(p.1)),
            Ok(None) => Recognized::Absent,
            Err(e) => err_view(e),
        }) == spec_alternation(input@, i as int),
    decreases input@.len() - i, 4int,
{
    match concatenation(input, i) {
        Err(e) => Err(e),
        Ok(None) => Ok(None),
        Ok(Some((j, first))) => match alt_tail(input, j) {
            Err(e) => Err(e),
            Ok((end, rest)) => {
                if rest.len() == 0 {
                    assert(exprs_view(rest@).len() == 0);
                    Ok(Some((end, first)))
                } else {
                    let ghost restv = rest@;
                    let ghost firstg = first;
                    let mut branches: Vec<Expression> = Vec::new();
                    branches.push(first);
                    let mut tail_items = rest;
                    branches.append(&mut tail_items);
                    proof {
                        assert(branches@ =~= seq![firstg] + restv);
                        crate::expression::lemma_exprs_view_concat(seq![firstg], restv);
                        crate::expression::lemma_exprs_view_single(firstg);
                        assert(exprs_view(restv).len() > 0) by {
                            crate::expression::lemma_exprs_view_len(restv);
                        }
                    }
                    Ok(Some((end, Expression::Alternation(branches))))
                }
            },
        },
    }
}

/// The body of a rule: an alternation with its trailing whitespace.
pub fn elements(input: &Vec<u8>, i: usize) -> (r: Result<Option<(usize, Expression)>, Error>)
    requires
        i <= input@.len(),
    ensures
        r matches Ok(Some(p)) ==> i < p.0 <= input@.len(),
        r matches Ok(None) ==> !(i < input@.len() && is_repetition_start(input@[i as int])),
        (match r {
            Ok(Some(p)) => Recognized::Found(p.0 as int, expr_view(p.1)),
            Ok(None) => Recognized::Absent,
            Err(e) => err_view(e),
        }) == spec_elements(input@, i as int),
{
    match alternation(input, i) {
        Err(e) => Err(e),
        Ok(None) => Ok(None),
        Ok(Some((j, expr))) => Ok(Some((star_c_wsp(input, j), expr))),
    }
}

/// One recognised rule definition, before merging.
pub struct RuleDef {
    pub name: RuleName,
    pub incremental: bool,
    pub body: Expression,
}

/// One rule: name, defined-as operator, elements, line end.  `Ok(None)`
/// when no rule name starts here.
pub fn rule(input: &Vec<u8>, i: usize) -> (r: Result<Option<(usize, RuleDef)>, Error>)
    requires
        i <= input@.len(),
    ensures
        r matches Ok(Some(p)) ==> i < p.0 <= input@.len() && p.1.name.wf(),
        r matches Ok(None) ==> !(i < input@.len() && is_alpha_byte(input@[i as int])),
        (match r {
            Ok(Some(p)) => Recognized::Found(
                p.0 as int,
                SpecRuleDef {
                    name: chars_as_bytes(p.1.name@),
                    incremental: p.1.incremental,
                    body: expr_view(p.1.body),
                },
            ),
            Ok(None) => Recognized::Absent,
            Err(e) => err_view(e),
        }) == spec_rule(input@, i as int),
{
    match parse_rule_name(input, i) {
        None => Ok(None),
        Some((j, name)) => match defined_as(input, j) {
            None => Err(Error::InvalidMetasyntax { location: j }),
            Some((k, incremental)) => match elements(input, k) {
                Err(e) => Err(e),
                Ok(None) => Err(Error::InvalidMetasyntax { location: k }),
                Ok(Some((m, body))) => match c_nl(input, m) {
                    None => Err(Error::InvalidMetasyntax { location: m }),
                    Some(end) => Ok(Some((end, RuleDef { name, incremental, body }))),
                },
            },
        },
    }
}

/// The image of a recognised document under the recogniser's
/// specification.
pub open spec fn rule_list_view(r: Result<Vec<RuleDef>, Error>) -> Result<Seq<SpecRuleDef>, int> {
    match r {
        Ok(defs) => Ok(defs_view(defs@)),
        Err(e) => match e {
            Error::InvalidMetasyntax { location } => Err(location as int),
            _ => Err(-1),
        },
    }
}

/// The document from position `i` on.
fn rule_list_from(input: &Vec<u8>, i: usize) -> (r: Result<Vec<RuleDef>, Error>)
    requires
        i <= input@.len(),
    ensures
        r matches Ok(defs) ==> forall|k: int|
            0 <= k < defs@.len() ==> (#[trigger] defs@[k].name).wf(),
        rule_list_view(r) == spec_rule_list(input@, i as int),
    decreases input@.len() - i,
{
    if i == input.len() {
        let out: Vec<RuleDef> = Vec::new();
        assert(defs_view(out@) =~= Seq::<SpecRuleDef>::empty());
        return Ok(out);
    }
    match rule(input, i) {
        Err(e) => Err(e),
        Ok(Some((j, def))) => match rule_list_from(input, j) {
            Err(e) => Err(e),
            Ok(rest) => {
                let ghost restv = rest@;
                let ghost defg = def;
                let mut out: Vec<RuleDef> = Vec::new();
                out.push(def);
                let mut tail_defs = rest;
                out.append(&mut tail_defs);
                proof {
                    assert(out@ =~= seq![defg] + restv);
                    assert(defs_view(out@) =~= seq![
                        SpecRuleDef {
                            name: chars_as_bytes(defg.name@),
                            incremental: defg.incremental,
                            body: expr_view(defg.body),
                        },
                    ] + defs_view(restv));
                }
                Ok(out)
            },
        },
        Ok(None) => {
            let k = star_c_wsp(input, i);
            match c_nl(input, k) {
                Some(j) => rule_list_from(input, j),
                None => Err(Error::InvalidMetasyntax { location: k }),
            }
        },
    }
}

/// The whole document: rules and blank or comment lines, in order.
pub fn rule_list(input: &Vec<u8>) -> (r: Result<Vec<RuleDef>, Error>)
    ensures
        r matches Ok(defs) ==> forall|k: int|
            0 <= k < defs@.len() ==> (#[trigger] defs@[k].name).wf(),
        rule_list_view(r) == spec_rule_list(input@, 0),
{
    rule_list_from(input, 0)
}

} // verus!
