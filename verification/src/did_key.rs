use vstd::prelude::*;

use vstd::string::StrSliceExecFns;
use vstd::string::StringExecFns;

use crate::text::lemma_split_from_nonempty;
use crate::text::split_chars;
use crate::text::split_str;
use crate::text::str_eq;

verus! {

// ---------------------------------------------------------------------------
// Decentralised identifier keys: `did:<method>:<method-specific-id>`.
// ---------------------------------------------------------------------------

/// Characters a method name may contain: lower-case ASCII letters and
/// digits.
pub open spec fn is_method_char(c: char) -> bool {
    ('a' <= c && c <= 'z') || ('0' <= c && c <= '9')
}

pub open spec fn all_method_chars(s: Seq<char>) -> bool {
    forall|i: int| 0 <= i < s.len() ==> is_method_char(#[trigger] s[i])
}

/// The colon-separated parts of a key.
pub open spec fn key_parts(s: Seq<char>) -> Seq<Seq<char>> {
    split_chars(s, ':')
}

/// How a key is judged: the first part must be `did`, the second part is
/// the method name and must be present, non-empty and made of lower-case
/// letters and digits.
pub open spec fn key_valid(s: Seq<char>) -> bool {
    &&& key_parts(s)[0] == "did"@
    &&& key_parts(s).len() >= 2
    &&& key_parts(s)[1].len() > 0
    &&& all_method_chars(key_parts(s)[1])
}

/// A key referring to some identity.
#[derive(Debug, Hash)]
pub struct DidKey {
    key: String,
}

impl View for DidKey {
    type V = Seq<char>;

    closed spec fn view(&self) -> Seq<char> {
        self.key@
    }
}

impl Clone for DidKey {
    fn clone(&self) -> (r: Self)
        ensures
            r@ == self@,
    {
        DidKey { key: self.key.clone() }
    }
}

impl DidKey {
    /// Formats `did:<method_name>:<method_specific_id>` and validates it;
    /// succeeds exactly when the formatted key is valid.
    pub fn new(method_name: &str, method_specific_id: &str) -> (r: Result<DidKey, Error>)
        ensures
            ({
                let key = "did:"@ + method_name@ + ":"@ + method_specific_id@;
                &&& (r matches Ok(k) ==> k@ == key)
                &&& (r is Ok <==> key_valid(key))
                &&& (r matches Err(e) ==> e.spec_repr() == validate_repr(key))
            }),
    {
        let mut key = String::from_str("did:");
        key.append(method_name);
        key.append(":");
        key.append(method_specific_id);
        match validate_did_key(key.as_str()) {
            Ok(()) => Ok(DidKey { key }),
            Err(e) => Err(e),
        }
    }

    pub fn as_str(&self) -> (r: &str)
        ensures
            r@ == self@,
    {
        self.key.as_str()
    }

    pub fn as_bytes(&self) -> (r: &[u8])
        ensures
            r@ == vstd::utf8::encode_utf8(self@),
    {
        self.key.as_str().as_bytes()
    }
}

/// The verdict validation reaches on a key: `None` when the key is valid,
/// otherwise the error it reports.
pub open spec fn validate_repr(s: Seq<char>) -> ErrorReprSpec {
    let parts = key_parts(s);
    if parts[0] != "did"@ {
        ErrorReprSpec::MustStartWithDid
    } else if parts.len() < 2 || parts[1].len() == 0 {
        ErrorReprSpec::MissingMethodName
    } else if !all_method_chars(parts[1]) {
        ErrorReprSpec::InvalidMethodName(parts[1])
    } else {
        ErrorReprSpec::Valid
    }
}

/// A specification-level image of the validation verdict.
pub enum ErrorReprSpec {
    Valid,
    MustStartWithDid,
    MissingMethodName,
    InvalidMethodName(Seq<char>),
}

/// Checks a formatted key: it must start with `did`, and carry a
/// non-empty method name of lower-case letters and digits.
#[verifier::loop_isolation(false)]
pub fn validate_did_key(key: &str) -> (r: Result<(), Error>)
    ensures
        r is Ok <==> key_valid(key@),
        r matches Err(e) ==> e.spec_repr() == validate_repr(key@),
        r is Ok ==> validate_repr(key@) == ErrorReprSpec::Valid,
{
    let parts = split_str(key, ':');
    proof {
        lemma_split_from_nonempty(key@, ':', 0);
    }
    if !str_eq(parts[0].as_str(), "did") {
        return Err(Error { repr: ErrorRepr::MustStartWithDid });
    }
    if parts.len() < 2 {
        return Err(Error { repr: ErrorRepr::MissingMethodName });
    }
    let method = &parts[1];
    let n = method.as_str().unicode_len();
    if n == 0 {
        return Err(Error { repr: ErrorRepr::MissingMethodName });
    }
    let mut i: usize = 0;
    while i < n
        invariant
            0 <= i <= n,
            n == method@.len(),
            forall|k: int| 0 <= k < i ==> is_method_char(#[trigger] method@[k]),
        decreases n - i,
    {
        let c = method.as_str().get_char(i);
        if !(('a' <= c && c <= 'z') || ('0' <= c && c <= '9')) {
            proof {
                assert(key_parts(key@)[1] == method@);
            }
            return Err(
                Error { repr: ErrorRepr::InvalidMethodName(String::from_str(method.as_str())) },
            );
        }
        i += 1;
    }
    proof {
        assert(key_parts(key@)[1] == method@);
        assert(all_method_chars(method@));
    }
    Ok(())
}

/// The reason a key was rejected.
#[derive(Debug)]
pub enum ErrorRepr {
    MustStartWithDid,
    MissingMethodName,
    InvalidMethodName(String),
}

/// An error from validating a key.
#[derive(Debug)]
pub struct Error {
    repr: ErrorRepr,
}

impl Error {
    pub closed spec fn spec_repr(&self) -> ErrorReprSpec {
        match self.repr {
            ErrorRepr::MustStartWithDid => ErrorReprSpec::MustStartWithDid,
            ErrorRepr::MissingMethodName => ErrorReprSpec::MissingMethodName,
            ErrorRepr::InvalidMethodName(m) => ErrorReprSpec::InvalidMethodName(m@),
        }
    }

    pub fn must_start_with_did() -> (r: Self)
        ensures
            r.spec_repr() == ErrorReprSpec::MustStartWithDid,
    {
        Error { repr: ErrorRepr::MustStartWithDid }
    }

    pub fn missing_method_name() -> (r: Self)
        ensures
            r.spec_repr() == ErrorReprSpec::MissingMethodName,
    {
        Error { repr: ErrorRepr::MissingMethodName }
    }

    pub fn invalid_method_name(method_name: String) -> (r: Self)
        ensures
            r.spec_repr() == ErrorReprSpec::InvalidMethodName(method_name@),
    {
        Error { repr: ErrorRepr::InvalidMethodName(method_name) }
    }
}

impl PartialEq for Error {
    fn eq(&self, other: &Self) -> (r: bool) {
        match (&self.repr, &other.repr) {
            (ErrorRepr::MustStartWithDid, ErrorRepr::MustStartWithDid) => true,
            (ErrorRepr::MissingMethodName, ErrorRepr::MissingMethodName) => true,
            (ErrorRepr::InvalidMethodName(a), ErrorRepr::InvalidMethodName(b)) => a.eq(b),
            _ => false,
        }
    }
}

impl vstd::std_specs::cmp::PartialEqSpecImpl for Error {
    open spec fn obeys_eq_spec() -> bool {
        true
    }

    open spec fn eq_spec(&self, other: &Self) -> bool {
        self.spec_repr() == other.spec_repr()
    }
}

} // verus!
