use vstd::prelude::*;

verus! {

// ---------------------------------------------------------------------------
// Byte classes of RFC 5234's core rules.
//
// The engine works over the raw bytes of the grammar and of the parsed
// input; all terminals of the notation are 7-bit, so byte positions and
// character positions coincide on every text the notation itself can match.
// ---------------------------------------------------------------------------

pub open spec fn is_alpha_byte(b: u8) -> bool {
    (0x41 <= b && b <= 0x5a) || (0x61 <= b && b <= 0x7a)
}

pub open spec fn is_digit_byte(b: u8) -> bool {
    0x30 <= b && b <= 0x39
}

pub open spec fn is_name_tail_byte(b: u8) -> bool {
    is_alpha_byte(b) || is_digit_byte(b) || b == 0x2d
}

/// A valid rule name: an alphabetic byte, then letters, digits and hyphens.
pub open spec fn is_rule_name_bytes(s: Seq<u8>) -> bool {
    &&& s.len() > 0
    &&& is_alpha_byte(s[0])
    &&& forall|i: int| 1 <= i < s.len() ==> is_name_tail_byte(#[trigger] s[i])
}

/// ASCII lower-casing of one byte.
pub open spec fn lower_byte(b: u8) -> u8 {
    if 0x41 <= b && b <= 0x5a {
        (b + 0x20) as u8
    } else {
        b
    }
}

pub open spec fn lower_bytes(s: Seq<u8>) -> Seq<u8> {
    s.map_values(|b: u8| lower_byte(b))
}

pub open spec fn chars_as_bytes(s: Seq<char>) -> Seq<u8> {
    s.map_values(|c: char| c as u8)
}

pub open spec fn ascii_chars(s: Seq<char>) -> bool {
    forall|i: int| #![trigger s[i]] 0 <= i < s.len() ==> (s[i] as int) < 0x80
}

/// A canonical rule name at the character level: a valid name, ASCII,
/// already lower-cased.
pub open spec fn is_canonical_name_chars(s: Seq<char>) -> bool {
    &&& ascii_chars(s)
    &&& is_rule_name_bytes(chars_as_bytes(s))
    &&& lower_bytes(chars_as_bytes(s)) == chars_as_bytes(s)
}

pub fn byte_is_alpha(b: u8) -> (r: bool)
    ensures
        r == is_alpha_byte(b),
{
    (0x41 <= b && b <= 0x5a) || (0x61 <= b && b <= 0x7a)
}

pub fn byte_is_digit(b: u8) -> (r: bool)
    ensures
        r == is_digit_byte(b),
{
    0x30 <= b && b <= 0x39
}

pub fn byte_is_name_tail(b: u8) -> (r: bool)
    ensures
        r == is_name_tail_byte(b),
{
    byte_is_alpha(b) || byte_is_digit(b) || b == 0x2d
}

pub fn byte_to_lower(b: u8) -> (r: u8)
    ensures
        r == lower_byte(b),
{
    if 0x41 <= b && b <= 0x5a {
        b + 0x20
    } else {
        b
    }
}

/// Relies on `String::from_utf8`: a buffer of ASCII bytes decodes to the
/// string whose characters are exactly those bytes.
#[verifier::external_body]
pub fn ascii_string(bytes: &Vec<u8>) -> (r: String)
    requires
        forall|i: int| 0 <= i < bytes@.len() ==> bytes@[i] < 0x80,
    ensures
        r@.len() == bytes@.len(),
        chars_as_bytes(r@) == bytes@,
        ascii_chars(r@),
{
    String::from_utf8(bytes.clone()).unwrap_or_default()
}

// ---------------------------------------------------------------------------
// Rule names
// ---------------------------------------------------------------------------

/// The name of a grammar rule. RFC 5234 compares rule names
/// case-insensitively, so the name is canonicalised to lower case when it
/// is constructed, and plain equality is case-insensitive equality.
#[derive(Debug)]
pub struct RuleName {
    inner: String,
}

impl View for RuleName {
    type V = Seq<char>;

    closed spec fn view(&self) -> Seq<char> {
        self.inner@
    }
}

impl Clone for RuleName {
    fn clone(&self) -> (r: Self)
        ensures
            r@ == self@,
            r.wf() == self.wf(),
    {
        RuleName { inner: self.inner.clone() }
    }
}

impl RuleName {
    pub open spec fn wf(&self) -> bool {
        is_canonical_name_chars(self@)
    }

    pub fn as_str(&self) -> (r: &str)
        ensures
            r@ == self@,
    {
        self.inner.as_str()
    }

    pub fn to_text(&self) -> (r: String)
        ensures
            r@ == self@,
    {
        self.inner.clone()
    }

    pub fn same_name(&self, other: &RuleName) -> (r: bool)
        ensures
            r == (self@ == other@),
    {
        self.inner.eq(&other.inner)
    }

    /// Builds a canonical rule name from raw name bytes, lower-casing them;
    /// fails exactly when the bytes do not form a valid rule name.
    pub fn from_bytes(bytes: &Vec<u8>) -> (r: Option<RuleName>)
        ensures
            match r {
                Some(n) => {
                    &&& is_rule_name_bytes(bytes@)
                    &&& n.wf()
                    &&& chars_as_bytes(n@) == lower_bytes(bytes@)
                },
                None => !is_rule_name_bytes(bytes@),
            },
    {
        if bytes.len() == 0 {
            return None;
        }
        if !byte_is_alpha(bytes[0]) {
            return None;
        }
        let mut i: usize = 1;
        while i < bytes.len()
            invariant
                1 <= i <= bytes@.len(),
                bytes@.len() > 0,
                is_alpha_byte(bytes@[0]),
                forall|k: int| 1 <= k < i ==> is_name_tail_byte(#[trigger] bytes@[k]),
            decreases bytes@.len() - i,
        {
            if !byte_is_name_tail(bytes[i]) {
                return None;
            }
            i += 1;
        }
        let mut lowered: Vec<u8> = Vec::new();
        let mut j: usize = 0;
        while j < bytes.len()
            invariant
                0 <= j <= bytes@.len(),
                lowered@.len() == j,
                is_rule_name_bytes(bytes@),
                forall|k: int| 0 <= k < j ==> lowered@[k] == lower_byte(#[trigger] bytes@[k]),
            decreases bytes@.len() - j,
        {
            let b = byte_to_lower(bytes[j]);
            lowered.push(b);
            j += 1;
        }
        assert(lowered@ =~= lower_bytes(bytes@));
        assert(forall|k: int|
            0 <= k < lowered@.len() ==> #[trigger] lowered@[k] < 0x80) by {
            assert(forall|k: int| 0 <= k < bytes@.len() ==> {
                &&& (1 <= k ==> is_name_tail_byte(#[trigger] bytes@[k]))
                &&& (k == 0 ==> is_alpha_byte(bytes@[k]))
            });
        }
        let name = ascii_string(&lowered);
        proof {
            assert(chars_as_bytes(name@) =~= lower_bytes(bytes@));
            lemma_lower_bytes_canonical(bytes@);
        }
        Some(RuleName { inner: name })
    }
}

/// Lower-casing a valid rule name gives a valid rule name whose bytes are
/// a fixed point of lower-casing.
pub proof fn lemma_lower_bytes_canonical(s: Seq<u8>)
    requires
        is_rule_name_bytes(s),
    ensures
        is_rule_name_bytes(lower_bytes(s)),
        lower_bytes(lower_bytes(s)) == lower_bytes(s),
        forall|i: int| 0 <= i < s.len() ==> #[trigger] lower_bytes(s)[i] < 0x80,
{
    assert forall|i: int| 1 <= i < s.len() implies is_name_tail_byte(
        #[trigger] lower_bytes(s)[i],
    ) by {
        assert(is_name_tail_byte(s[i]));
    }
    assert(is_alpha_byte(lower_bytes(s)[0]));
    assert(lower_bytes(lower_bytes(s)) =~= lower_bytes(s));
    assert forall|i: int| 0 <= i < s.len() implies #[trigger] lower_bytes(s)[i] < 0x80 by {
        if i == 0 {
            assert(is_alpha_byte(s[0]));
        } else {
            assert(is_name_tail_byte(s[i]));
        }
    }
}

// ---------------------------------------------------------------------------
// Expressions
// ---------------------------------------------------------------------------

/// The base a numeric terminal was written in. The base only records how
/// the terminal was spelled; matching uses the numeric values alone.
#[derive(Clone, Copy, PartialEq, Eq, Structural)]
pub enum NumBase {
    Binary,
    Decimal,
    Hexadecimal,
}

/// The values of a numeric terminal: one codepoint, an inclusive range, or
/// a fixed sequence of codepoints joined by `.`.
pub enum NumValues {
    Single(u32),
    Range(u32, u32),
    Sequence(Vec<u32>),
}

/// A compiled grammar expression.
pub enum Expression {
    /// Case-insensitive fixed text.
    Literal(Vec<u8>),
    /// Numeric terminal: one byte value, an inclusive range, or a sequence.
    NumericTerm(NumBase, NumValues),
    /// Reference to a named rule; the only construct that produces captures.
    RuleRef(RuleName),
    /// Transparent parenthesised group.
    Group(Box<Expression>),
    /// `[ ... ]`, equivalent to a repetition of zero or one.
    Optional(Box<Expression>),
    /// `min*max inner`; `max == None` means unbounded.
    Repetition { min: u32, max: Option<u32>, inner: Box<Expression> },
    /// Sub-expressions matched one after the other.
    Concatenation(Vec<Expression>),
    /// Ordered alternatives; the first branch that matches wins.
    Alternation(Vec<Expression>),
    /// `< ... >` prose description; never matchable.
    Prose(Vec<u8>),
}

// ---------------------------------------------------------------------------
// The specification-level image of an expression.
//
// The recogniser's specification (`spec_rule_list` and its helpers) pins
// the expression a span compiles to.  A specification function cannot
// allocate the vectors the executable tree carries, so the pinned tree is
// this image, with sequences for children and canonical name bytes for
// rule references; `expr_view` maps the executable tree onto it.
// ---------------------------------------------------------------------------

pub enum SpecNumValues {
    Single(u32),
    Range(u32, u32),
    Sequence(Seq<u32>),
}

pub enum SpecExpr {
    Literal(Seq<u8>),
    NumericTerm(NumBase, SpecNumValues),
    RuleRef(Seq<u8>),
    Group(Box<SpecExpr>),
    Optional(Box<SpecExpr>),
    Repetition { min: u32, max: Option<u32>, inner: Box<SpecExpr> },
    Concatenation(Seq<SpecExpr>),
    Alternation(Seq<SpecExpr>),
    Prose(Seq<u8>),
}

pub open spec fn num_values_view(v: NumValues) -> SpecNumValues {
    match v {
        NumValues::Single(n) => SpecNumValues::Single(n),
        NumValues::Range(lo, hi) => SpecNumValues::Range(lo, hi),
        NumValues::Sequence(vs) => SpecNumValues::Sequence(vs@),
    }
}

pub open spec fn expr_view(e: Expression) -> SpecExpr
    decreases e,
{
    match e {
        Expression::Literal(t) => SpecExpr::Literal(t@),
        Expression::NumericTerm(base, vals) => SpecExpr::NumericTerm(base, num_values_view(vals)),
        Expression::RuleRef(n) => SpecExpr::RuleRef(chars_as_bytes(n@)),
        Expression::Group(inner) => SpecExpr::Group(Box::new(expr_view(*inner))),
        Expression::Optional(inner) => SpecExpr::Optional(Box::new(expr_view(*inner))),
        Expression::Repetition { min, max, inner } => SpecExpr::Repetition {
            min,
            max,
            inner: Box::new(expr_view(*inner)),
        },
        Expression::Concatenation(es) => SpecExpr::Concatenation(exprs_view(es@)),
        Expression::Alternation(es) => SpecExpr::Alternation(exprs_view(es@)),
        Expression::Prose(t) => SpecExpr::Prose(t@),
    }
}

pub open spec fn exprs_view(es: Seq<Expression>) -> Seq<SpecExpr>
    decreases es,
{
    if es.len() == 0 {
        Seq::empty()
    } else {
        exprs_view(es.drop_last()).push(expr_view(es.last()))
    }
}

pub proof fn lemma_exprs_view_len(es: Seq<Expression>)
    ensures
        exprs_view(es).len() == es.len(),
        forall|k: int| 0 <= k < es.len() ==> exprs_view(es)[k] == expr_view(#[trigger] es[k]),
    decreases es.len(),
{
    if es.len() > 0 {
        lemma_exprs_view_len(es.drop_last());
        assert forall|k: int| 0 <= k < es.len() implies exprs_view(es)[k] == expr_view(
            #[trigger] es[k],
        ) by {
            if k < es.len() - 1 {
                assert(es.drop_last()[k] == es[k]);
                assert(exprs_view(es)[k] == exprs_view(es.drop_last())[k]);
            } else {
                assert(es[k] == es.last());
            }
        }
    }
}

pub proof fn lemma_exprs_view_single(e: Expression)
    ensures
        exprs_view(seq![e]) == seq![expr_view(e)],
{
    let s = seq![e];
    assert(s.len() == 1);
    assert(s.drop_last() =~= Seq::<Expression>::empty());
    assert(s.last() == e);
    assert(exprs_view(s) == exprs_view(s.drop_last()).push(expr_view(s.last())));
    assert(exprs_view(Seq::<Expression>::empty()) == Seq::<SpecExpr>::empty());
    assert(exprs_view(s) =~= seq![expr_view(e)]);
}

pub proof fn lemma_exprs_view_concat(a: Seq<Expression>, b: Seq<Expression>)
    ensures
        exprs_view(a + b) == exprs_view(a) + exprs_view(b),
    decreases b.len(),
{
    if b.len() == 0 {
        assert(a + b =~= a);
        assert(exprs_view(a) + exprs_view(b) =~= exprs_view(a));
    } else {
        lemma_exprs_view_concat(a, b.drop_last());
        assert((a + b).drop_last() =~= a + b.drop_last());
        assert((a + b).last() == b.last());
        assert(exprs_view(a) + exprs_view(b) =~= (exprs_view(a) + exprs_view(b.drop_last())).push(
            expr_view(b.last()),
        ));
    }
}

/// Structural height of an expression, the termination measure of the
/// evaluator.
pub open spec fn expr_height(e: Expression) -> nat
    decreases e,
{
    match e {
        Expression::Literal(_) => 1,
        Expression::NumericTerm(_, _) => 1,
        Expression::RuleRef(_) => 1,
        Expression::Prose(_) => 1,
        Expression::Group(inner) => expr_height(*inner) + 1,
        Expression::Optional(inner) => expr_height(*inner) + 1,
        Expression::Repetition { inner, .. } => expr_height(*inner) + 1,
        Expression::Concatenation(es) => exprs_height(es@) + 1,
        Expression::Alternation(es) => exprs_height(es@) + 1,
    }
}

pub open spec fn exprs_height(es: Seq<Expression>) -> nat
    decreases es,
{
    if es.len() == 0 {
        0
    } else {
        expr_height(es[0]) + exprs_height(es.drop_first())
    }
}

pub proof fn lemma_expr_height_pos(e: Expression)
    ensures
        expr_height(e) >= 1,
{
}

pub proof fn lemma_exprs_height_first(es: Seq<Expression>)
    requires
        es.len() > 0,
    ensures
        exprs_height(es) == expr_height(es[0]) + exprs_height(es.drop_first()),
        expr_height(es[0]) <= exprs_height(es),
{
}

pub proof fn lemma_exprs_height_elem(es: Seq<Expression>, i: int)
    requires
        0 <= i < es.len(),
    ensures
        expr_height(es[i]) <= exprs_height(es),
    decreases i,
{
    if i == 0 {
    } else {
        lemma_exprs_height_elem(es.drop_first(), i - 1);
        assert(es.drop_first()[i - 1] == es[i]);
    }
}

// ---------------------------------------------------------------------------
// Rules and grammars
// ---------------------------------------------------------------------------

/// A named rule with its compiled body.
pub struct Rule {
    pub name: RuleName,
    pub body: Expression,
}

/// Index of the first rule with the given (canonical) name, or -1.
pub open spec fn rule_index_from(rules: Seq<Rule>, name: Seq<char>, i: int) -> int
    decreases rules.len() - i,
{
    if i < 0 || i >= rules.len() {
        -1
    } else if rules[i].name@ == name {
        i
    } else {
        rule_index_from(rules, name, i + 1)
    }
}

pub open spec fn rule_index(rules: Seq<Rule>, name: Seq<char>) -> int {
    rule_index_from(rules, name, 0)
}

pub open spec fn has_rule(rules: Seq<Rule>, name: Seq<char>) -> bool {
    rule_index(rules, name) >= 0
}

pub proof fn lemma_rule_index_from(rules: Seq<Rule>, name: Seq<char>, i: int)
    requires
        0 <= i <= rules.len(),
    ensures
        ({
            let r = rule_index_from(rules, name, i);
            &&& r == -1 || r >= 0
            &&& r == -1 ==> forall|k: int| i <= k < rules.len() ==> (#[trigger] rules[k].name)@
                != name
            &&& r >= 0 ==> i <= r < rules.len() && rules[r].name@ == name && forall|k: int|
                i <= k < r ==> (#[trigger] rules[k].name)@ != name
        }),
    decreases rules.len() - i,
{
    if i < rules.len() && rules[i].name@ != name {
        lemma_rule_index_from(rules, name, i + 1);
    }
}

/// Every rule reference inside `e` resolves in `rules`.
pub open spec fn expr_closed(e: Expression, rules: Seq<Rule>) -> bool
    decreases e,
{
    match e {
        Expression::Literal(_) => true,
        Expression::NumericTerm(_, _) => true,
        Expression::Prose(_) => true,
        Expression::RuleRef(n) => has_rule(rules, n@),
        Expression::Group(inner) => expr_closed(*inner, rules),
        Expression::Optional(inner) => expr_closed(*inner, rules),
        Expression::Repetition { inner, .. } => expr_closed(*inner, rules),
        Expression::Concatenation(es) => exprs_closed(es@, rules),
        Expression::Alternation(es) => exprs_closed(es@, rules),
    }
}

pub open spec fn exprs_closed(es: Seq<Expression>, rules: Seq<Rule>) -> bool
    decreases es,
{
    if es.len() == 0 {
        true
    } else {
        expr_closed(es[0], rules) && exprs_closed(es.drop_first(), rules)
    }
}

pub proof fn lemma_exprs_closed_elem(es: Seq<Expression>, rules: Seq<Rule>, i: int)
    requires
        exprs_closed(es, rules),
        0 <= i < es.len(),
    ensures
        expr_closed(es[i], rules),
    decreases i,
{
    if i == 0 {
    } else {
        lemma_exprs_closed_elem(es.drop_first(), rules, i - 1);
        assert(es.drop_first()[i - 1] == es[i]);
    }
}

/// Well-formed rule table: canonical unique names, all references resolved.
pub open spec fn grammar_wf(rules: Seq<Rule>) -> bool {
    &&& forall|i: int| 0 <= i < rules.len() ==> (#[trigger] rules[i].name).wf()
    &&& forall|i: int, j: int|
        0 <= i < j < rules.len() ==> (#[trigger] rules[i].name)@ != (#[trigger] rules[j].name)@
    &&& forall|i: int| 0 <= i < rules.len() ==> expr_closed(#[trigger] rules[i].body, rules)
}

/// An immutable compiled rule table with a designated root rule.
pub struct Grammar {
    pub rules: Vec<Rule>,
    pub root: RuleName,
}

impl Grammar {
    pub open spec fn spec_rules(&self) -> Seq<Rule> {
        self.rules@
    }

    pub open spec fn spec_root(&self) -> Seq<char> {
        self.root@
    }

    pub open spec fn wf(&self) -> bool {
        &&& grammar_wf(self.spec_rules())
        &&& has_rule(self.spec_rules(), self.spec_root())
    }

    /// Name of the root rule, the entry point of `parse`.
    pub fn root_name(&self) -> (r: &RuleName)
        ensures
            r@ == self.spec_root(),
    {
        &self.root
    }

    pub fn rule_count(&self) -> (r: usize)
        ensures
            r == self.spec_rules().len(),
    {
        self.rules.len()
    }
}

/// Linear search for a rule by canonical name.
pub fn find_rule<'a>(rules: &'a Vec<Rule>, name: &RuleName) -> (r: Option<&'a Rule>)
    ensures
        match r {
            Some(rule) => {
                &&& rule_index(rules@, name@) >= 0
                &&& *rule == rules@[rule_index(rules@, name@)]
            },
            None => rule_index(rules@, name@) == -1,
        },
{
    let mut i: usize = 0;
    while i < rules.len()
        invariant
            0 <= i <= rules@.len(),
            rule_index_from(rules@, name@, 0) == rule_index_from(rules@, name@, i as int),
        decreases rules@.len() - i,
    {
        if rules[i].name.same_name(name) {
            return Some(&rules[i]);
        }
        i += 1;
    }
    None
}

} // verus!
