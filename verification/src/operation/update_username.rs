use vstd::prelude::*;

use vstd::string::StrSliceExecFns;
use vstd::string::StringExecFns;
use vstd::utf8::encode_utf8;

use crate::cid::Cid;
use crate::operation::Operation;
use crate::operation::ToBytes;

verus! {

// ---------------------------------------------------------------------------
// The operation whose type tag is `update_username`: the name to take,
// an optional predecessor and a signature.
// ---------------------------------------------------------------------------

/// The type tag of this operation.
pub open spec fn update_username_type_chars() -> Seq<char> {
    "update_username"@
}

#[derive(Debug)]
pub struct UpdateUsername {
    pub username: String,
    pub prev: Option<Cid>,
    pub sig: String,
}

impl UpdateUsername {
    pub fn builder() -> (r: UpdateUsernameBuilder)
        ensures
            r.username is None,
            r.prev is None,
            r.sig is None,
    {
        UpdateUsernameBuilder { username: None, prev: None, sig: None }
    }
}

impl ToBytes for UpdateUsername {
    closed spec fn bytes_spec(&self) -> Seq<u8> {
        encode_utf8(self.username@) + (match self.prev {
            Some(c) => encode_utf8(c@),
            None => Seq::empty(),
        }) + encode_utf8(self.sig@)
    }

    fn to_bytes(self) -> (r: Vec<u8>)
        ensures
            r@ == self.bytes_spec(),
    {
        let ghost target = self.bytes_spec();
        let mut bytes: Vec<u8> = Vec::new();
        let mut part = self.username.as_str().as_bytes_vec();
        bytes.append(&mut part);
        match &self.prev {
            Some(p) => {
                let mut part = p.as_str().as_bytes_vec();
                bytes.append(&mut part);
            },
            None => {},
        }
        let mut part = self.sig.as_str().as_bytes_vec();
        bytes.append(&mut part);
        proof {
            assert(bytes@ =~= target);
        }
        bytes
    }
}

impl Operation for UpdateUsername {
    closed spec fn type_spec(&self) -> Seq<char> {
        update_username_type_chars()
    }

    closed spec fn prev_spec(&self) -> Option<Seq<char>> {
        match self.prev {
            Some(c) => Some(c@),
            None => None,
        }
    }

    closed spec fn sig_spec(&self) -> Seq<char> {
        self.sig@
    }

    fn op_type(&self) -> (r: String)
        ensures
            r@ == self.type_spec(),
    {
        String::from_str("update_username")
    }

    fn prev(&self) -> (r: Option<Cid>)
        ensures
            match r {
                Some(c) => self.prev_spec() matches Some(v) && c@ == v,
                None => self.prev_spec() is None,
            },
    {
        match &self.prev {
            Some(c) => Some(c.clone()),
            None => None,
        }
    }

    fn sig(&self) -> (r: String)
        ensures
            r@ == self.sig_spec(),
    {
        self.sig.clone()
    }
}

/// Accumulates the fields of the operation; `build` requires every field
/// but `prev`.
pub struct UpdateUsernameBuilder {
    pub username: Option<String>,
    pub prev: Option<Cid>,
    pub sig: Option<String>,
}

impl UpdateUsernameBuilder {
    pub fn username(self, username: String) -> (r: Self)
        ensures
            r == (UpdateUsernameBuilder { username: Some(username), ..self }),
    {
        UpdateUsernameBuilder { username: Some(username), ..self }
    }

    pub fn prev(self, prev: Cid) -> (r: Self)
        ensures
            r == (UpdateUsernameBuilder { prev: Some(prev), ..self }),
    {
        UpdateUsernameBuilder { prev: Some(prev), ..self }
    }

    pub fn sig(self, sig: String) -> (r: Self)
        ensures
            r == (UpdateUsernameBuilder { sig: Some(sig), ..self }),
    {
        UpdateUsernameBuilder { sig: Some(sig), ..self }
    }

    /// Succeeds exactly when every required field was given; the error
    /// names the first missing field, in declaration order.
    pub fn build(self) -> (r: Result<UpdateUsername, Error>)
        ensures
            r is Ok <==> (self.username is Some && self.sig is Some),
            r matches Ok(op) ==> {
                &&& op.username == self.username.unwrap()
                &&& op.prev == self.prev
                &&& op.sig == self.sig.unwrap()
            },
            self.username is None ==> (r matches Err(e) && e.spec_field() == "username"@),
            self.username is Some && self.sig is None ==> (r matches Err(e) && e.spec_field()
                == "sig"@),
    {
        let username = match self.username {
            Some(v) => v,
            None => {
                return Err(Error::missing_field("username"));
            },
        };
        let sig = match self.sig {
            Some(v) => v,
            None => {
                return Err(Error::missing_field("sig"));
            },
        };
        Ok(UpdateUsername { username, prev: self.prev, sig })
    }
}

/// The reason building the operation failed.
#[derive(Debug)]
pub enum ErrorRepr {
    MissingField(&'static str),
}

/// An error from building the operation.
#[derive(Debug)]
pub struct Error {
    repr: ErrorRepr,
}

impl Error {
    pub closed spec fn spec_field(&self) -> Seq<char> {
        match self.repr {
            ErrorRepr::MissingField(f) => f@,
        }
    }

    pub fn missing_field(field_name: &'static str) -> (r: Self)
        ensures
            r.spec_field() == field_name@,
    {
        Error { repr: ErrorRepr::MissingField(field_name) }
    }

    /// The error rendered as text.
    pub fn message(&self) -> (r: String)
        ensures
            r@ == "missing required field "@ + self.spec_field(),
    {
        let mut m = String::from_str("missing required field ");
        match &self.repr {
            ErrorRepr::MissingField(f) => {
                m.append(f);
            },
        }
        m
    }
}

} // verus!
