use abnf_engine::abnf::{Abnf, Binder, Captures, ErrorKind};

fn instance(grammar: &str) -> Abnf<Captures> {
    Abnf::<Captures>::from_metasyntax(grammar).expect("grammar should compile")
}

fn compile_err(grammar: &str) -> abnf_engine::abnf::Error {
    match Abnf::<Captures>::from_metasyntax(grammar) {
        Err(e) => e,
        Ok(_) => panic!("the grammar should be rejected"),
    }
}

/// The notation's own grammar, with the core rules it relies on.  The two
/// branches of `repeat` are ordered with the ranged form first: with
/// first-match-wins alternation, trying the bare digit run first would
/// swallow the lower bound of a ranged repeat and never reconsider.
const NOTATION_GRAMMAR: &str = "; the grammar of the notation itself\r\nrulelist       =  1*( rule / (*c-wsp c-nl) )\r\nrule           =  rulename defined-as elements c-nl\r\nrulename       =  ALPHA *(ALPHA / DIGIT / \"-\")\r\ndefined-as     =  *c-wsp (\"=\" / \"=/\") *c-wsp\r\nelements       =  alternation *c-wsp\r\nc-wsp          =  WSP / (c-nl WSP)\r\nc-nl           =  comment / CRLF\r\ncomment        =  \";\" *(WSP / VCHAR) CRLF\r\nalternation    =  concatenation *(*c-wsp \"/\" *c-wsp concatenation)\r\nconcatenation  =  repetition *(1*c-wsp repetition)\r\nrepetition     =  [repeat] element\r\nrepeat         =  (*DIGIT \"*\" *DIGIT) / 1*DIGIT\r\nelement        =  rulename / group / option / char-val / num-val / prose-val\r\ngroup          =  \"(\" *c-wsp alternation *c-wsp \")\"\r\noption         =  \"[\" *c-wsp alternation *c-wsp \"]\"\r\nchar-val       =  DQUOTE *(%x20-21 / %x23-7E) DQUOTE\r\nnum-val        =  \"%\" (bin-val / dec-val / hex-val)\r\nbin-val        =  \"b\" 1*BIT [ 1*(\".\" 1*BIT) / (\"-\" 1*BIT) ]\r\ndec-val        =  \"d\" 1*DIGIT [ 1*(\".\" 1*DIGIT) / (\"-\" 1*DIGIT) ]\r\nhex-val        =  \"x\" 1*HEXDIG [ 1*(\".\" 1*HEXDIG) / (\"-\" 1*HEXDIG) ]\r\nprose-val      =  \"<\" *(%x20-3D / %x3F-7E) \">\"\r\nALPHA          =  %x41-5A / %x61-7A\r\nBIT            =  \"0\" / \"1\"\r\nCR             =  %x0D\r\nCRLF           =  CR LF\r\nDIGIT          =  %x30-39\r\nDQUOTE         =  %x22\r\nHEXDIG         =  DIGIT / \"A\" / \"B\" / \"C\" / \"D\" / \"E\" / \"F\"\r\nHTAB           =  %x09\r\nLF             =  %x0A\r\nSP             =  %x20\r\nVCHAR          =  %x21-7E\r\nWSP            =  SP / HTAB\r\n";

#[test]
fn grammar_round_trip() {
    // the grammar of the notation, compiled, parses its own source text
    let engine = instance(NOTATION_GRAMMAR);
    let parsed = engine.parse(NOTATION_GRAMMAR).expect("the grammar parses itself");
    assert_eq!(parsed.events[0].0, "rulelist");
}

#[test]
fn trailing_input_is_an_error() {
    let engine = instance("digit = %x30-39\n");
    let err = engine.parse("5x").unwrap_err();
    assert!(matches!(err.kind(), ErrorKind::TrailingInput { remainder: 1 }));
    assert!(engine.parse("5").is_ok());
}

#[test]
fn bounded_repetition_is_greedy_up_to_max() {
    let engine = instance("word = 1*3(\"a\")\n");
    let err = engine.parse("").unwrap_err();
    assert!(matches!(err.kind(), ErrorKind::NoMatch));
    assert!(engine.parse("a").is_ok());
    assert!(engine.parse("aaa").is_ok());
    let err = engine.parse("aaaa").unwrap_err();
    // three repetitions consumed, one byte left over
    assert!(matches!(err.kind(), ErrorKind::TrailingInput { remainder: 1 }));
}

#[test]
fn first_matching_branch_wins() {
    let engine = instance("r = \"ab\" / \"a\"\n");
    assert!(engine.parse("ab").is_ok());
    assert!(engine.parse("a").is_ok());

    // with the branches the other way round the shorter one wins and the
    // second byte is left over: the engine keeps the first match, it does
    // not look for the longest
    let engine = instance("r = \"a\" / \"ab\"\n");
    let err = engine.parse("ab").unwrap_err();
    assert!(matches!(err.kind(), ErrorKind::TrailingInput { remainder: 1 }));
}

#[test]
fn literals_match_case_insensitively() {
    let engine = instance("kw = \"Begin\"\n");
    assert!(engine.parse("begin").is_ok());
    assert!(engine.parse("BEGIN").is_ok());
    assert!(engine.parse("Begin").is_ok());
    assert!(engine.parse("bEgIn").is_ok());
}

#[test]
fn incremental_rule_appends_branches() {
    let engine = instance("letter = \"a\" / \"b\"\nletter =/ \"c\"\n");
    assert!(engine.parse("c").is_ok());
    assert!(engine.parse("a").is_ok());
    assert!(engine.parse("b").is_ok());
    assert!(engine.parse("d").is_err());
}

#[test]
fn incremental_rule_via_builder() {
    let engine = Abnf::<Captures>::builder()
        .rule("letter", "\"a\" / \"b\"")
        .extend_rule("letter", "\"c\"")
        .build::<Captures>()
        .expect("grammar should build");
    assert!(engine.parse("c").is_ok());
}

#[test]
fn list_of_items_yields_item_captures() {
    let engine = instance("list = item *(\",\" item)\nitem = 1*DIGIT\nDIGIT = %x30-39\n");
    let captures = engine.parse("1,2,3").expect("list should match");
    let items: Vec<_> = captures.events.iter().filter(|e| e.0 == "item").collect();
    assert_eq!(items.len(), 3);
    assert_eq!(items[0].1, 0);
    assert_eq!(items[0].2, 1);
    assert_eq!(items[2].1, 4);
    assert_eq!(items[2].2, 5);
}

#[test]
fn rule_names_are_case_insensitive() {
    let engine = instance("KW = \"x\"\nuses = kw kw\n");
    // names are canonicalised to lower case, and the first declared rule
    // is the root
    let captures = engine.parse("x").unwrap();
    assert_eq!(captures.events[0].0, "kw");
}

#[test]
fn root_override_designates_the_root() {
    let engine = Abnf::<Captures>::builder()
        .rule("a", "\"a\"")
        .rule("b", "\"b\"")
        .root("b")
        .build::<Captures>()
        .unwrap();
    assert!(engine.parse("b").is_ok());
    assert!(engine.parse("a").is_err());
}

#[test]
fn duplicate_rule_is_rejected() {
    let err = compile_err("a = \"x\"\na = \"y\"\n");
    assert!(matches!(
        err.kind(),
        ErrorKind::Construction(abnf_engine::parser::Error::DuplicateRule { .. })
    ));
}

#[test]
fn orphan_incremental_rule_is_rejected() {
    let err = compile_err("a =/ \"x\"\n");
    assert!(matches!(
        err.kind(),
        ErrorKind::Construction(abnf_engine::parser::Error::OrphanIncrementalRule { .. })
    ));
}

#[test]
fn unresolved_reference_is_rejected() {
    let err = compile_err("a = b\n");
    assert!(matches!(
        err.kind(),
        ErrorKind::Construction(abnf_engine::parser::Error::UnresolvedRuleRef { .. })
    ));
}

#[test]
fn left_recursion_without_progress_is_rejected() {
    let err = compile_err("a = a \"x\"\n");
    assert!(matches!(
        err.kind(),
        ErrorKind::Construction(abnf_engine::parser::Error::LeftRecursionWithoutProgress { .. })
    ));

    // mutual cycle through an empty-matching prefix
    let err =
        compile_err("a = *\"x\" b\nb = a\n");
    assert!(matches!(
        err.kind(),
        ErrorKind::Construction(abnf_engine::parser::Error::LeftRecursionWithoutProgress { .. })
    ));

    // a cycle that always consumes input is permitted
    assert!(Abnf::<Captures>::from_metasyntax("a = \"(\" a \")\" / \"x\"\n").is_ok());
}

#[test]
fn malformed_notation_is_located() {
    let err = compile_err("a = \"x\n");
    match err.kind() {
        ErrorKind::Construction(abnf_engine::parser::Error::InvalidMetasyntax { location }) => {
            assert_eq!(*location, 4);
        },
        _ => panic!("unexpected error kind"),
    }
}

#[test]
fn recursion_limit_is_enforced() {
    let engine = Abnf::<Captures>::builder()
        .rule("a", "\"(\" a \")\" / \"x\"")
        .recursion_limit(3)
        .build::<Captures>()
        .unwrap();
    assert!(engine.parse("((x))").is_ok());
    let err = engine.parse("((((((x))))))").unwrap_err();
    assert!(matches!(err.kind(), ErrorKind::RecursionLimitExceeded));
}

#[test]
fn prose_is_never_matchable() {
    let engine = instance("p = <free text description>\n");
    let err = engine.parse("anything").unwrap_err();
    assert!(matches!(err.kind(), ErrorKind::UnsupportedProseRule));
}

#[test]
fn empty_grammar_is_rejected() {
    let err = compile_err("; only a comment\n");
    assert!(matches!(err.kind(), ErrorKind::Unexpected(_)));
}

#[test]
fn unexpected_error_carries_its_message() {
    let err = abnf_engine::abnf::Error::unexpected("plumbing failure");
    assert!(matches!(err.kind(), ErrorKind::Unexpected(m) if *m == "plumbing failure"));
}

#[derive(Debug)]
struct NoBinders;

impl Binder for NoBinders {
    fn init() -> Self {
        NoBinders
    }

    fn on_capture(&mut self, _input: &str, _rule: &str, _start: usize, _end: usize) -> bool {
        false
    }
}

#[test]
fn unbound_capture_is_reported() {
    let engine = Abnf::<NoBinders>::from_metasyntax("a = \"x\"\n").unwrap();
    let err = engine.parse("x").unwrap_err();
    assert!(matches!(err.kind(), ErrorKind::UnboundCapture));
}

#[test]
fn numeric_terminals_match_single_range_and_sequence() {
    // single value
    let engine = instance("nul = %d65\n");
    assert!(engine.parse("A").is_ok());
    assert!(engine.parse("B").is_err());

    // binary, decimal and hex spellings
    let engine = instance("b = %b1000001\n");
    assert!(engine.parse("A").is_ok());
    let engine = instance("h = %x41\n");
    assert!(engine.parse("A").is_ok());

    // concatenated sequence
    let engine = instance("crlf = %d13.10\n");
    assert!(engine.parse("\r\n").is_ok());
    assert!(engine.parse("\r").is_err());

    // inclusive range bounds
    let engine = instance("digit = %x30-39\n");
    assert!(engine.parse("0").is_ok());
    assert!(engine.parse("9").is_ok());
    assert!(engine.parse(":").is_err());
}

#[test]
fn option_matches_zero_or_one() {
    let engine = instance("opt = \"a\" [\"b\"] \"c\"\n");
    assert!(engine.parse("abc").is_ok());
    assert!(engine.parse("ac").is_ok());
    assert!(engine.parse("abbc").is_err());
}

#[test]
fn capture_spans_cover_the_match() {
    let engine = instance("pair = one two\none = \"a\"\ntwo = \"bb\"\n");
    let captures = engine.parse("abb").unwrap();
    assert_eq!(captures.events[0], ("pair".to_string(), 0, 3));
    assert_eq!(captures.events[1], ("one".to_string(), 0, 1));
    assert_eq!(captures.events[2], ("two".to_string(), 1, 3));
}

#[test]
fn errors_render_as_text() {
    let err = abnf_engine::abnf::Error::unexpected("plumbing failure");
    assert_eq!(err.message(), "unexpected error: plumbing failure");

    let engine = instance("digit = %x30-39\n");
    let err = engine.parse("x").unwrap_err();
    assert_eq!(err.message(), "the root rule did not match");
    let err = engine.parse("55").unwrap_err();
    assert_eq!(err.message(), "input was left over after the match");

    let err = compile_err("a = \"x\n");
    assert_eq!(err.message(), "the grammar definition is invalid");
}

#[test]
fn builder_records_malformed_definitions() {
    // an unterminated literal in the rule text
    let err = match Abnf::<Captures>::builder().rule("a", "\"x").build::<Captures>() {
        Err(e) => e,
        Ok(_) => panic!("the malformed rule text should be rejected"),
    };
    assert!(matches!(
        err.kind(),
        ErrorKind::Construction(abnf_engine::parser::Error::InvalidMetasyntax { .. })
    ));

    // a rule name that does not start with a letter
    let err = match Abnf::<Captures>::builder().rule("1bad", "\"x\"").build::<Captures>() {
        Err(e) => e,
        Ok(_) => panic!("the malformed rule name should be rejected"),
    };
    assert!(matches!(
        err.kind(),
        ErrorKind::Construction(abnf_engine::parser::Error::InvalidMetasyntax { .. })
    ));

    // the first recorded error wins over later valid rules
    let err = match Abnf::<Captures>::builder()
        .rule("a", "\"x")
        .rule("b", "\"y\"")
        .build::<Captures>()
    {
        Err(e) => e,
        Ok(_) => panic!("the pending error should be reported"),
    };
    assert!(matches!(
        err.kind(),
        ErrorKind::Construction(abnf_engine::parser::Error::InvalidMetasyntax { .. })
    ));
}

#[test]
fn builder_rule_text_must_be_one_alternation() {
    // leftover text after the alternation is rejected
    let err = match Abnf::<Captures>::builder().rule("a", "\"x\" )").build::<Captures>() {
        Err(e) => e,
        Ok(_) => panic!("trailing text in the rule body should be rejected"),
    };
    assert!(matches!(
        err.kind(),
        ErrorKind::Construction(abnf_engine::parser::Error::InvalidMetasyntax { .. })
    ));
}
