use vstd::prelude::*;

use convert_case::Casing;
use vstd::string::StrSliceExecFns;
use vstd::string::StringExecFns;

use crate::text::join_chars;
use crate::text::join_prefix;
use crate::text::lemma_split_from_nonempty;
use crate::text::reverse_strings;
use crate::text::split_chars;
use crate::text::split_str;

verus! {

// ---------------------------------------------------------------------------
// Namespaced identifiers: dot-separated segments of letters, digits and
// hyphens, such as `com.atproto.test`, naming an operation of a data
// repository.  The last segment is the operation's name, the other
// segments, reversed, its authority.
// ---------------------------------------------------------------------------

/// What the namespaced-identifier pattern accepts; the result depends on
/// the characters alone.
pub uninterp spec fn nsid_pattern_match(s: Seq<char>) -> bool;

/// Relies on regex's `Regex::is_match` with the fixed namespaced-identifier
/// pattern: three or more dot-separated runs of ASCII alphanumerics and
/// hyphens, anchored at both ends.  The pattern is a valid expression, and
/// matching a fixed pattern depends on the haystack alone.
#[verifier::external_body]
fn nsid_regex_is_match(s: &str) -> (r: bool)
    ensures
        r == nsid_pattern_match(s@),
{
    match regex::Regex::new(r"^([[[:alnum:]]\-]+)\.([[[:alnum:]]\-]+)\.([[[:alnum:]]\-]+\.?)+$") {
        Ok(re) => re.is_match(s),
        Err(_) => false,
    }
}

/// The Pascal-case rendering of a name; the result depends on the
/// characters alone.
pub uninterp spec fn pascal_of(s: Seq<char>) -> Seq<char>;

/// Relies on convert_case's `Casing::to_case` with the Pascal case: the
/// result is a pure function of the input text.
#[verifier::external_body]
fn pascal_case(s: &str) -> (r: String)
    ensures
        r@ == pascal_of(s@),
{
    s.to_case(convert_case::Case::Pascal)
}

/// Whether the pattern test of `Nsid::new` accepts `s`.
pub fn nsid_pattern_matches(s: &str) -> (r: bool)
    ensures
        r == nsid_pattern_match(s@),
{
    nsid_regex_is_match(s)
}

/// The dot-separated segments of an identifier.
pub open spec fn nsid_segments(s: Seq<char>) -> Seq<Seq<char>> {
    split_chars(s, '.')
}

/// The authority of an identifier: every segment but the last, in
/// reversed order, joined with dots.
pub open spec fn authority_chars(s: Seq<char>) -> Seq<char> {
    join_chars(nsid_segments(s).drop_last().reverse(), '.')
}

/// The authority joined with hyphens instead of dots, fit for a crate
/// name.
pub open spec fn crate_name_chars(s: Seq<char>) -> Seq<char> {
    join_chars(nsid_segments(s).drop_last().reverse(), '-')
}

/// A validated namespaced identifier.
#[derive(Debug, Clone, PartialEq, Eq)]
pub struct Nsid {
    inner: String,
}

impl View for Nsid {
    type V = Seq<char>;

    closed spec fn view(&self) -> Seq<char> {
        self.inner@
    }
}

/// The reason an identifier was rejected.
#[derive(Debug, Clone, PartialEq, Eq, Structural)]
pub enum ErrorRepr {
    Invalid,
}

/// An invalid namespaced identifier.
#[derive(Debug, Clone, PartialEq, Eq)]
pub struct Error {
    repr: ErrorRepr,
}

impl Error {
    pub closed spec fn spec_repr(&self) -> ErrorRepr {
        self.repr
    }

    pub fn invalid() -> (r: Self)
        ensures
            r.spec_repr() == ErrorRepr::Invalid,
    {
        Error { repr: ErrorRepr::Invalid }
    }

    /// The error rendered as text.
    pub fn message(&self) -> (r: String)
        ensures
            r@ == "invalid nsid"@,
    {
        String::from_str("invalid nsid")
    }
}

impl Nsid {
    /// Accepts exactly the non-empty strings the namespaced-identifier
    /// pattern matches.
    pub fn new(inner: &str) -> (r: Result<Nsid, Error>)
        ensures
            r matches Ok(n) ==> n@ == inner@,
            r is Ok <==> inner@.len() > 0 && nsid_pattern_match(inner@),
    {
        if inner.is_empty() {
            return Err(Error::invalid());
        }
        if !nsid_regex_is_match(inner) {
            return Err(Error::invalid());
        }
        Ok(Nsid { inner: inner.to_owned() })
    }

    pub fn as_str(&self) -> (r: &str)
        ensures
            r@ == self@,
    {
        self.inner.as_str()
    }

    /// Every segment but the last, reversed, joined with dots: for
    /// `com.atproto.test` the authority is `atproto.com`.
    pub fn authority(&self) -> (r: String)
        ensures
            r@ == authority_chars(self@),
    {
        proof {
            reveal_strlit(".");
            assert("."@ =~= seq!['.']);
        }
        self.joined_authority(".", '.')
    }

    /// The authority with hyphens for dots, fit for a crate name.
    pub fn as_crate_name(&self) -> (r: String)
        ensures
            r@ == crate_name_chars(self@),
    {
        proof {
            reveal_strlit("-");
            assert("-"@ =~= seq!['-']);
        }
        self.joined_authority("-", '-')
    }

    fn joined_authority(&self, sep_text: &str, sep: char) -> (r: String)
        requires
            sep_text@ == seq![sep],
        ensures
            r@ == join_chars(nsid_segments(self@).drop_last().reverse(), sep),
    {
        let segs = split_str(self.inner.as_str(), '.');
        proof {
            lemma_split_from_nonempty(self@, '.', 0);
        }
        let mut segs = segs;
        let ghost all = segs@.map_values(|t: String| t@);
        let popped = segs.pop();
        proof {
            assert(segs@.map_values(|t: String| t@) =~= all.drop_last());
        }
        let rev = reverse_strings(segs);
        let n = rev.len();
        let r = join_prefix(&rev, n, sep_text, sep);
        proof {
            assert(rev@.map_values(|t: String| t@).take(n as int) =~= all.drop_last().reverse());
        }
        r
    }

    /// The last segment in Pascal case: for `com.atproto.test` the struct
    /// name is `Test`.
    pub fn as_struct_name(&self) -> (r: String)
        ensures
            r@ == pascal_of(nsid_segments(self@).last()),
    {
        let segs = split_str(self.inner.as_str(), '.');
        proof {
            lemma_split_from_nonempty(self@, '.', 0);
        }
        let last = &segs[segs.len() - 1];
        let r = pascal_case(last.as_str());
        proof {
            assert(segs@.map_values(|t: String| t@)[segs@.len() - 1] == nsid_segments(
                self@,
            ).last());
        }
        r
    }
}

} // verus!
