use vstd::prelude::*;

use vstd::string::StrSliceExecFns;
use vstd::string::StringExecFns;
use vstd::string::StringSliceAdditionalSpecFns;

use crate::engine::Capture;
use crate::engine::EvalAbort;
use crate::engine::SpecOutcome;
use crate::engine::eval;
use crate::engine::eval_rule_spec;
use crate::engine::lemma_eval_ruleref;
use crate::expression::Expression;
use crate::expression::Grammar;
use crate::expression::Rule;
use crate::expression::RuleName;
use crate::expression::chars_as_bytes;
use crate::expression::expr_closed;
use crate::expression::is_rule_name_bytes;
use crate::expression::lower_bytes;
use crate::expression::grammar_wf;
use crate::expression::has_rule;
use crate::expression::expr_view;
use crate::expression::rule_index;
use crate::grammar::build_grammar;
use crate::grammar::left_recursive_from;
use crate::grammar::merge_chain;
use crate::grammar::merge_fault_from;
use crate::parser::Recognized;
use crate::parser::RuleDef;
use crate::parser::SpecRuleDef;
use crate::parser::defs_view;
use crate::parser::elements;
use crate::parser::rule_list;
use crate::parser::spec_elements;
use crate::parser::spec_rule_list;

verus! {

/// The default ceiling on nested rule expansions during one parse.
pub const DEFAULT_RECURSION_LIMIT: usize = 128;

/// Kinds of failure of grammar construction and of parsing.
#[derive(Debug)]
pub enum ErrorKind {
    /// The grammar definition itself could not be built.
    Construction(crate::parser::Error),
    /// The root rule did not match the input.
    NoMatch,
    /// The root rule matched, but `remainder` bytes of input were left
    /// over; a partial match is not a success.
    TrailingInput { remainder: usize },
    /// The recursion-depth ceiling was exceeded while parsing.
    RecursionLimitExceeded,
    /// A capture was produced for a rule the binder does not know.
    UnboundCapture,
    /// A prose element was reached; prose is never matchable.
    UnsupportedProseRule,
    /// An error that the caller asked to wrap verbatim.
    Unexpected(&'static str),
}

/// An error returned by grammar construction or by `parse`.
#[derive(Debug)]
pub struct Error {
    kind: ErrorKind,
}

impl Error {
    pub closed spec fn spec_kind(&self) -> ErrorKind {
        self.kind
    }

    /// Wraps a caller-supplied message.
    pub fn unexpected(message: &'static str) -> (r: Self)
        ensures
            r.spec_kind() == ErrorKind::Unexpected(message),
    {
        Error { kind: ErrorKind::Unexpected(message) }
    }

    pub fn kind(&self) -> (r: &ErrorKind)
        ensures
            *r == self.spec_kind(),
    {
        &self.kind
    }

    pub fn into_kind(self) -> (r: ErrorKind)
        ensures
            r == self.spec_kind(),
    {
        self.kind
    }

    /// The error rendered as text; a wrapped message renders as
    /// `unexpected error: ` followed by the message.
    pub fn message(&self) -> (r: String)
        ensures
            match self.spec_kind() {
                ErrorKind::Construction(_) => r@ == "the grammar definition is invalid"@,
                ErrorKind::NoMatch => r@ == "the root rule did not match"@,
                ErrorKind::TrailingInput { .. } => r@ == "input was left over after the match"@,
                ErrorKind::RecursionLimitExceeded => r@ == "the recursion limit was exceeded"@,
                ErrorKind::UnboundCapture => r@ == "a capture has no binder"@,
                ErrorKind::UnsupportedProseRule => r@ == "a prose element cannot be matched"@,
                ErrorKind::Unexpected(m) => r@ == "unexpected error: "@ + m@,
            },
    {
        match &self.kind {
            ErrorKind::Construction(_) => String::from_str("the grammar definition is invalid"),
            ErrorKind::NoMatch => String::from_str("the root rule did not match"),
            ErrorKind::TrailingInput { .. } => String::from_str(
                "input was left over after the match",
            ),
            ErrorKind::RecursionLimitExceeded => String::from_str(
                "the recursion limit was exceeded",
            ),
            ErrorKind::UnboundCapture => String::from_str("a capture has no binder"),
            ErrorKind::UnsupportedProseRule => String::from_str(
                "a prose element cannot be matched",
            ),
            ErrorKind::Unexpected(m) => {
                let mut out = String::from_str("unexpected error: ");
                out.append(m);
                out
            },
        }
    }
}

/// Consumes the captures of a successful parse to build the output value.
///
/// `on_capture` is called once for every capture node, parents before
/// children and siblings in input order, with the matched rule's
/// (lower-cased) name and the byte span it consumed.  Returning `false`
/// reports that the rule has no binder; `parse` then fails with
/// `UnboundCapture`.  Unbound captures are detected lazily, at the first
/// parse whose capture tree reaches one.
pub trait Binder: Sized {
    fn init() -> Self;

    fn on_capture(&mut self, input: &str, rule: &str, start: usize, end: usize) -> bool;
}

/// A ready-made binder that records every capture as a
/// `(rule name, span start, span end)` triple, in pre-order.
#[derive(Debug)]
pub struct Captures {
    pub events: Vec<(String, usize, usize)>,
}

impl Binder for Captures {
    fn init() -> Self {
        Captures { events: Vec::new() }
    }

    fn on_capture(&mut self, input: &str, rule: &str, start: usize, end: usize) -> bool {
        let _ = input;
        self.events.push((String::from_str(rule), start, end));
        true
    }
}

/// Applies the binder to `cap` and all its descendants, parents first.
fn bind_capture_tree<T: Binder>(target: &mut T, input: &str, cap: &Capture) -> (ok: bool)
    decreases *cap,
{
    let bound = target.on_capture(input, cap.rule.as_str(), cap.start, cap.end);
    if !bound {
        return false;
    }
    let mut i: usize = 0;
    while i < cap.children.len()
        invariant
            0 <= i <= cap.children@.len(),
        decreases cap.children@.len() - i,
    {
        if !bind_capture_tree(target, input, &cap.children[i]) {
            return false;
        }
        i += 1;
    }
    true
}

/// What building a grammar from `defs` (with an optional root override)
/// leaves in `r`: on success, a well-formed table merged from the
/// definitions in declaration order, the designated root and no
/// progress-free recursion; on failure, the construction error tied to
/// its condition, as `build_grammar` states it.
pub open spec fn built_outcome<T: Binder>(
    defs: Seq<RuleDef>,
    root_override: Option<RuleName>,
    r: Result<Abnf<T>, Error>,
) -> bool {
    match r {
        Ok(a) => {
            &&& merge_fault_from(defs, 0) == -1
            &&& exists|tables: Seq<Seq<Rule>>|
                #[trigger] merge_chain(defs, tables) && tables.last() == a.spec_rules()
            &&& (match root_override {
                Some(n) => a.spec_root() == n@,
                None => a.spec_rules().len() > 0 && a.spec_root() == a.spec_rules()[0].name@,
            })
            &&& left_recursive_from(a.spec_rules(), 0) == -1
        },
        Err(e) => match e.spec_kind() {
            ErrorKind::Construction(pe) => match pe {
                crate::parser::Error::DuplicateRule { name } => {
                    let f = merge_fault_from(defs, 0);
                    &&& 0 <= f < defs.len()
                    &&& !defs[f].incremental
                    &&& name == defs[f].name
                },
                crate::parser::Error::OrphanIncrementalRule { name } => {
                    let f = merge_fault_from(defs, 0);
                    &&& 0 <= f < defs.len()
                    &&& defs[f].incremental
                    &&& name == defs[f].name
                },
                crate::parser::Error::InvalidMetasyntax { location } => {
                    &&& location == 0
                    &&& root_override is None
                    &&& defs.len() == 0
                },
                crate::parser::Error::UnresolvedRuleRef { name } => exists|
                    tables: Seq<Seq<Rule>>,
                | {
                    &&& #[trigger] merge_chain(defs, tables)
                    &&& rule_index(tables.last(), name@) == -1
                },
                crate::parser::Error::LeftRecursionWithoutProgress { name } => exists|
                    tables: Seq<Seq<Rule>>,
                | {
                    &&& #[trigger] merge_chain(defs, tables)
                    &&& left_recursive_from(tables.last(), 0) >= 0
                    &&& name@ == tables.last()[left_recursive_from(tables.last(), 0)].name@
                },
            },
            _ => false,
        },
    }
}

/// A compiled grammar bound to an output type: an immutable rule table, a
/// designated root rule and a recursion ceiling.  One instance serves any
/// number of `parse` calls.
pub struct Abnf<T> {
    grammar: Grammar,
    limit: usize,
    marker: core::marker::PhantomData<T>,
}

impl<T: Binder> Abnf<T> {
    pub closed spec fn spec_rules(&self) -> Seq<Rule> {
        self.grammar.spec_rules()
    }

    pub closed spec fn spec_root(&self) -> Seq<char> {
        self.grammar.spec_root()
    }

    pub closed spec fn spec_limit(&self) -> nat {
        self.limit as nat
    }

    pub open spec fn wf(&self) -> bool {
        &&& grammar_wf(self.spec_rules())
        &&& has_rule(self.spec_rules(), self.spec_root())
    }

    /// Compiles a whole grammar document: the text is recognised as a
    /// rule list (exactly `spec_rule_list` of its bytes), the recognised
    /// definitions are merged into a rule table, and the first declared
    /// rule becomes the root.
    pub fn from_metasyntax(metasyntax: &str) -> (r: Result<Abnf<T>, Error>)
        ensures
            r matches Ok(a) ==> a.wf() && a.spec_limit() == DEFAULT_RECURSION_LIMIT,
            (match spec_rule_list(metasyntax.spec_bytes(), 0) {
                Err(l) => l >= 0 ==> (r matches Err(e) && e.spec_kind() matches
                    ErrorKind::Construction(pe) && pe matches
                    crate::parser::Error::InvalidMetasyntax { location } && location as int == l),
                Ok(mdefs) => if mdefs.len() == 0 {
                    r matches Err(e) && e.spec_kind() matches ErrorKind::Unexpected(_)
                } else {
                    exists|defs: Seq<RuleDef>| {
                        &&& #[trigger] defs_view(defs) == mdefs
                        &&& forall|k: int| 0 <= k < defs.len() ==> (#[trigger] defs[k].name).wf()
                        &&& built_outcome(defs, None::<RuleName>, r)
                    }
                },
            }),
    {
        let bytes = metasyntax.as_bytes_vec();
        match rule_list(&bytes) {
            Err(e) => Err(Error { kind: ErrorKind::Construction(e) }),
            Ok(defs) => {
                if defs.len() == 0 {
                    return Err(Error::unexpected("the grammar defines no rules"));
                }
                match build_grammar(defs, None) {
                    Err(e) => Err(Error { kind: ErrorKind::Construction(e) }),
                    Ok(g) => Ok(
                        Abnf {
                            grammar: g,
                            limit: DEFAULT_RECURSION_LIMIT,
                            marker: core::marker::PhantomData,
                        },
                    ),
                }
            },
        }
    }

    /// Starts an incremental grammar definition: no rules, no root
    /// override, the default recursion ceiling, and no pending error.
    pub fn builder() -> (r: Builder)
        ensures
            r.wf(),
            r.spec_defs() == Seq::<RuleDef>::empty(),
            r.spec_root() is None,
            r.spec_builder_limit() == DEFAULT_RECURSION_LIMIT,
            r.spec_pending() is None,
    {
        Builder {
            defs: Vec::new(),
            root: None,
            limit: DEFAULT_RECURSION_LIMIT,
            pending: None,
        }
    }

    /// Matches the root rule against the whole input.  Success requires
    /// the root rule to consume every byte: leftover input is a
    /// `TrailingInput` error, not a partial success.  On a full match the
    /// captures are handed to the binder; the result is then `Ok` unless
    /// a capture had no binder.
    pub fn parse(&self, input: &str) -> (r: Result<T, Error>)
        requires
            self.wf(),
        ensures
            ({
                let bs = input.spec_bytes();
                let o = eval_rule_spec(self.spec_rules(), self.spec_root(), bs, 0,
                self.spec_limit());
                match o {
                    SpecOutcome::Match { end, caps } => {
                        &&& (end == bs.len() ==> r is Ok || (r matches Err(e) && e.spec_kind()
                            == ErrorKind::UnboundCapture))
                        &&& (end < bs.len() ==> (r matches Err(e) && e.spec_kind() == (
                        ErrorKind::TrailingInput { remainder: (bs.len() - end) as usize })))
                    },
                    SpecOutcome::NoMatch => r matches Err(e) && e.spec_kind()
                        == ErrorKind::NoMatch,
                    SpecOutcome::DepthExceeded => r matches Err(e) && e.spec_kind()
                        == ErrorKind::RecursionLimitExceeded,
                    SpecOutcome::ProseEncountered => r matches Err(e) && e.spec_kind()
                        == ErrorKind::UnsupportedProseRule,
                }
            }),
    {
        let bytes = input.as_bytes_vec();
        let root = self.grammar.root.clone();
        let root_ref = Expression::RuleRef(root);
        proof {
            assert(expr_closed(root_ref, self.grammar.spec_rules()));
            lemma_eval_ruleref(
                self.grammar.spec_rules(),
                root_ref->RuleRef_0,
                bytes@,
                0,
                self.limit as nat,
            );
        }
        match eval(&self.grammar.rules, &root_ref, &bytes, 0, self.limit) {
            Err(EvalAbort::RecursionLimitExceeded) => Err(
                Error { kind: ErrorKind::RecursionLimitExceeded },
            ),
            Err(EvalAbort::UnsupportedProseRule) => Err(
                Error { kind: ErrorKind::UnsupportedProseRule },
            ),
            Ok(None) => Err(Error { kind: ErrorKind::NoMatch }),
            Ok(Some((end, caps))) => {
                if end < bytes.len() {
                    Err(Error { kind: ErrorKind::TrailingInput { remainder: bytes.len() - end } })
                } else {
                    let mut out = T::init();
                    let mut i: usize = 0;
                    let mut all_bound = true;
                    while i < caps.len()
                        invariant
                            0 <= i <= caps@.len(),
                        decreases caps@.len() - i,
                    {
                        if !bind_capture_tree(&mut out, input, &caps[i]) {
                            all_bound = false;
                            i = caps.len();
                        } else {
                            i += 1;
                        }
                    }
                    if all_bound {
                        Ok(out)
                    } else {
                        Err(Error { kind: ErrorKind::UnboundCapture })
                    }
                }
            },
        }
    }
}

/// What adding a rule leaves in the builder: with a valid name and an
/// expression text that is one complete alternation, the compiled
/// definition is appended; otherwise the definitions are unchanged and a
/// pending error is recorded (keeping an earlier one).
pub open spec fn rule_added(
    old_b: Builder,
    r: Builder,
    nb: Seq<u8>,
    tb: Seq<u8>,
    incremental: bool,
) -> bool {
    if is_rule_name_bytes(nb) && (match spec_elements(tb, 0) {
        Recognized::Found(end, body) => end == tb.len(),
        _ => false,
    }) {
        &&& r.spec_defs().len() == old_b.spec_defs().len() + 1
        &&& forall|i: int|
            0 <= i < old_b.spec_defs().len() ==> r.spec_defs()[i] == old_b.spec_defs()[i]
        &&& chars_as_bytes(r.spec_defs().last().name@) == lower_bytes(nb)
        &&& r.spec_defs().last().incremental == incremental
        &&& (match spec_elements(tb, 0) {
            Recognized::Found(end, body) => expr_view(r.spec_defs().last().body) == body,
            _ => false,
        })
        &&& r.spec_pending() == old_b.spec_pending()
    } else {
        &&& r.spec_defs() == old_b.spec_defs()
        &&& (old_b.spec_pending() is Some ==> r.spec_pending() == old_b.spec_pending())
        &&& (old_b.spec_pending() is None ==> r.spec_pending() is Some)
    }
}

/// An incremental grammar definition: named rules whose bodies are given
/// as expression text (at the `elements` level of the notation, without
/// the rule-header wrapper), an optional root override, and a recursion
/// ceiling.
pub struct Builder {
    defs: Vec<RuleDef>,
    root: Option<RuleName>,
    limit: usize,
    pending: Option<Error>,
}

impl Builder {
    pub open spec fn wf(&self) -> bool {
        &&& forall|k: int| 0 <= k < self.spec_defs().len() ==> (
        #[trigger] self.spec_defs()[k].name).wf()
        &&& self.spec_root() matches Some(n) ==> n.wf()
    }

    pub closed spec fn spec_defs(&self) -> Seq<RuleDef> {
        self.defs@
    }

    pub closed spec fn spec_root(&self) -> Option<RuleName> {
        self.root
    }

    pub closed spec fn spec_builder_limit(&self) -> nat {
        self.limit as nat
    }

    pub closed spec fn spec_pending(&self) -> Option<Error> {
        self.pending
    }

    /// Adds the rule `name`, defined by `expression_text`.  The text must
    /// be a complete alternation; errors are reported by `build`.
    pub fn rule(self, name: &str, expression_text: &str) -> (r: Builder)
        requires
            self.wf(),
        ensures
            r.wf(),
            r.spec_root() == self.spec_root(),
            r.spec_builder_limit() == self.spec_builder_limit(),
            rule_added(self, r, name.spec_bytes(), expression_text.spec_bytes(), false),
    {
        self.add_rule(name, expression_text, false)
    }

    /// Adds alternation branches to the already-added rule `name`, as an
    /// incremental (`=/`) definition does.
    pub fn extend_rule(self, name: &str, expression_text: &str) -> (r: Builder)
        requires
            self.wf(),
        ensures
            r.wf(),
            r.spec_root() == self.spec_root(),
            r.spec_builder_limit() == self.spec_builder_limit(),
            rule_added(self, r, name.spec_bytes(), expression_text.spec_bytes(), true),
    {
        self.add_rule(name, expression_text, true)
    }

    fn add_rule(self, name: &str, expression_text: &str, incremental: bool) -> (r: Builder)
        requires
            self.wf(),
        ensures
            r.wf(),
            r.spec_root() == self.spec_root(),
            r.spec_builder_limit() == self.spec_builder_limit(),
            rule_added(self, r, name.spec_bytes(), expression_text.spec_bytes(), incremental),
    {
        let mut this = self;
        let name_bytes = name.as_bytes_vec();
        let parsed_name = match RuleName::from_bytes(&name_bytes) {
            Some(n) => n,
            None => {
                if this.pending.is_none() {
                    this.pending = Some(
                        Error {
                            kind: ErrorKind::Construction(
                                crate::parser::Error::InvalidMetasyntax { location: 0 },
                            ),
                        },
                    );
                }
                return this;
            },
        };
        let text_bytes = expression_text.as_bytes_vec();
        match elements(&text_bytes, 0) {
            Ok(Some((end, body))) => {
                if end == text_bytes.len() {
                    this.defs.push(RuleDef { name: parsed_name, incremental, body });
                    return this;
                }
                if this.pending.is_none() {
                    this.pending = Some(
                        Error {
                            kind: ErrorKind::Construction(
                                crate::parser::Error::InvalidMetasyntax { location: end },
                            ),
                        },
                    );
                }
                this
            },
            Ok(None) => {
                if this.pending.is_none() {
                    this.pending = Some(
                        Error {
                            kind: ErrorKind::Construction(
                                crate::parser::Error::InvalidMetasyntax { location: 0 },
                            ),
                        },
                    );
                }
                this
            },
            Err(e) => {
                if this.pending.is_none() {
                    this.pending = Some(Error { kind: ErrorKind::Construction(e) });
                }
                this
            },
        }
    }

    /// Overrides the root rule; without this, the first added rule is the
    /// root.  A malformed name is recorded as a pending error, reported by
    /// `build`.
    pub fn root(self, name: &str) -> (r: Builder)
        requires
            self.wf(),
        ensures
            r.wf(),
            r.spec_defs() == self.spec_defs(),
            r.spec_builder_limit() == self.spec_builder_limit(),
            is_rule_name_bytes(name.spec_bytes()) ==> {
                &&& r.spec_root() matches Some(n) && chars_as_bytes(n@) == lower_bytes(
                    name.spec_bytes(),
                )
                &&& r.spec_pending() == self.spec_pending()
            },
            !is_rule_name_bytes(name.spec_bytes()) ==> {
                &&& r.spec_root() == self.spec_root()
                &&& self.spec_pending() is Some ==> r.spec_pending() == self.spec_pending()
                &&& self.spec_pending() is None ==> r.spec_pending() is Some
            },
    {
        let mut this = self;
        let name_bytes = name.as_bytes_vec();
        match RuleName::from_bytes(&name_bytes) {
            Some(n) => {
                this.root = Some(n);
            },
            None => {
                if this.pending.is_none() {
                    this.pending = Some(
                        Error {
                            kind: ErrorKind::Construction(
                                crate::parser::Error::InvalidMetasyntax { location: 0 },
                            ),
                        },
                    );
                }
            },
        }
        this
    }

    /// Sets the ceiling on nested rule expansions during one parse.
    pub fn recursion_limit(self, limit: usize) -> (r: Builder)
        requires
            self.wf(),
        ensures
            r.wf(),
            r.spec_defs() == self.spec_defs(),
            r.spec_root() == self.spec_root(),
            r.spec_pending() == self.spec_pending(),
            r.spec_builder_limit() == limit as nat,
    {
        let mut this = self;
        this.limit = limit;
        this
    }

    /// Merges and validates the added rules into a grammar instance: the
    /// first pending error wins, an empty definition list is rejected,
    /// and otherwise the outcome is the build of the added definitions
    /// with this builder's root override and recursion ceiling.
    pub fn build<T: Binder>(self) -> (r: Result<Abnf<T>, Error>)
        requires
            self.wf(),
        ensures
            r matches Ok(a) ==> a.wf() && a.spec_limit() == self.spec_builder_limit(),
            (match self.spec_pending() {
                Some(e) => r matches Err(e2) && e2.spec_kind() == e.spec_kind(),
                None => if self.spec_defs().len() == 0 {
                    r matches Err(e) && e.spec_kind() matches ErrorKind::Unexpected(_)
                } else {
                    built_outcome(self.spec_defs(), self.spec_root(), r)
                },
            }),
    {
        match self.pending {
            Some(e) => Err(e),
            None => {
                if self.defs.len() == 0 {
                    return Err(Error::unexpected("the grammar defines no rules"));
                }
                match build_grammar(self.defs, self.root) {
                    Err(e) => Err(Error { kind: ErrorKind::Construction(e) }),
                    Ok(g) => Ok(
                        Abnf { grammar: g, limit: self.limit, marker: core::marker::PhantomData },
                    ),
                }
            },
        }
    }
}

} // verus!
