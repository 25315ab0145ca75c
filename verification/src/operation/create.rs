use vstd::prelude::*;

use vstd::string::StrSliceExecFns;
use vstd::string::StringExecFns;
use vstd::utf8::encode_utf8;

use crate::cid::Cid;
use crate::cid::hex_bytes;
use crate::cid::sha256_of;
use crate::operation::Operation;
use crate::operation::ToBytes;

verus! {

// ---------------------------------------------------------------------------
// The operation that creates an identity: its signing and recovery keys,
// the account's name, its service, an optional predecessor and a
// signature.
// ---------------------------------------------------------------------------

/// The type tag of a creation operation.
pub open spec fn create_type_chars() -> Seq<char> {
    "create"@
}

#[derive(Debug)]
pub struct Create {
    signing_key: String,
    recovery_key: String,
    username: String,
    service: String,
    prev: Option<Cid>,
    sig: String,
}

impl Create {
    pub closed spec fn spec_signing_key(&self) -> Seq<char> {
        self.signing_key@
    }

    pub closed spec fn spec_recovery_key(&self) -> Seq<char> {
        self.recovery_key@
    }

    pub closed spec fn spec_username(&self) -> Seq<char> {
        self.username@
    }

    pub closed spec fn spec_service(&self) -> Seq<char> {
        self.service@
    }

    pub closed spec fn spec_prev(&self) -> Option<Seq<char>> {
        match self.prev {
            Some(c) => Some(c@),
            None => None,
        }
    }

    pub closed spec fn spec_sig(&self) -> Seq<char> {
        self.sig@
    }

    /// The operation's content id: the hex of the digest of its bytes,
    /// 64 ASCII characters.
    pub fn cid(&self) -> (r: Cid)
        ensures
            crate::expression::chars_as_bytes(r@) == hex_bytes(sha256_of(self.bytes_spec())),
            r@.len() == 64,
            crate::expression::ascii_chars(r@),
    {
        Cid::from_operation(self.clone())
    }

    pub fn prev(&self) -> (r: Option<Cid>)
        ensures
            match r {
                Some(c) => self.spec_prev() matches Some(v) && c@ == v,
                None => self.spec_prev() is None,
            },
    {
        match &self.prev {
            Some(c) => Some(c.clone()),
            None => None,
        }
    }

    pub fn builder() -> (r: CreateBuilder)
        ensures
            r.signing_key is None,
            r.recovery_key is None,
            r.username is None,
            r.service is None,
            r.prev is None,
            r.sig is None,
    {
        CreateBuilder {
            signing_key: None,
            recovery_key: None,
            username: None,
            service: None,
            prev: None,
            sig: None,
        }
    }
}

impl Clone for Create {
    fn clone(&self) -> (r: Self)
        ensures
            r.spec_signing_key() == self.spec_signing_key(),
            r.spec_recovery_key() == self.spec_recovery_key(),
            r.spec_username() == self.spec_username(),
            r.spec_service() == self.spec_service(),
            r.spec_prev() == self.spec_prev(),
            r.spec_sig() == self.spec_sig(),
            r.bytes_spec() == self.bytes_spec(),
    {
        Create {
            signing_key: self.signing_key.clone(),
            recovery_key: self.recovery_key.clone(),
            username: self.username.clone(),
            service: self.service.clone(),
            prev: match &self.prev {
                Some(c) => Some(c.clone()),
                None => None,
            },
            sig: self.sig.clone(),
        }
    }
}

impl ToBytes for Create {
    closed spec fn bytes_spec(&self) -> Seq<u8> {
        encode_utf8(self.signing_key@) + encode_utf8(self.recovery_key@) + encode_utf8(
            self.username@,
        ) + encode_utf8(self.service@) + (match self.prev {
            Some(c) => encode_utf8(c@),
            None => Seq::empty(),
        }) + encode_utf8(self.sig@)
    }

    fn to_bytes(self) -> (r: Vec<u8>)
        ensures
            r@ == self.bytes_spec(),
    {
        let ghost target = self.bytes_spec();
        let mut bytes: Vec<u8> = Vec::new();
        let mut part = self.signing_key.as_str().as_bytes_vec();
        bytes.append(&mut part);
        let mut part = self.recovery_key.as_str().as_bytes_vec();
        bytes.append(&mut part);
        let mut part = self.username.as_str().as_bytes_vec();
        bytes.append(&mut part);
        let mut part = self.service.as_str().as_bytes_vec();
        bytes.append(&mut part);
        match &self.prev {
            Some(p) => {
                let mut part = p.as_str().as_bytes_vec();
                bytes.append(&mut part);
            },
            None => {},
        }
        let mut part = self.sig.as_str().as_bytes_vec();
        bytes.append(&mut part);
        proof {
            assert(bytes@ =~= target);
        }
        bytes
    }
}

impl Operation for Create {
    closed spec fn type_spec(&self) -> Seq<char> {
        create_type_chars()
    }

    closed spec fn prev_spec(&self) -> Option<Seq<char>> {
        self.spec_prev()
    }

    closed spec fn sig_spec(&self) -> Seq<char> {
        self.sig@
    }

    fn op_type(&self) -> (r: String)
        ensures
            r@ == self.type_spec(),
    {
        String::from_str("create")
    }

    fn prev(&self) -> (r: Option<Cid>)
        ensures
            match r {
                Some(c) => self.prev_spec() matches Some(v) && c@ == v,
                None => self.prev_spec() is None,
            },
    {
        Create::prev(self)
    }

    fn sig(&self) -> (r: String)
        ensures
            r@ == self.sig_spec(),
    {
        self.sig.clone()
    }
}

/// Accumulates the fields of a creation operation; `build` requires every
/// field but `prev`.
pub struct CreateBuilder {
    pub signing_key: Option<String>,
    pub recovery_key: Option<String>,
    pub username: Option<String>,
    pub service: Option<String>,
    pub prev: Option<Cid>,
    pub sig: Option<String>,
}

impl CreateBuilder {
    pub fn signing_key(self, signing_key: String) -> (r: Self)
        ensures
            r == (CreateBuilder { signing_key: Some(signing_key), ..self }),
    {
        CreateBuilder { signing_key: Some(signing_key), ..self }
    }

    pub fn recovery_key(self, recovery_key: String) -> (r: Self)
        ensures
            r == (CreateBuilder { recovery_key: Some(recovery_key), ..self }),
    {
        CreateBuilder { recovery_key: Some(recovery_key), ..self }
    }

    pub fn username(self, username: String) -> (r: Self)
        ensures
            r == (CreateBuilder { username: Some(username), ..self }),
    {
        CreateBuilder { username: Some(username), ..self }
    }

    pub fn service(self, service: String) -> (r: Self)
        ensures
            r == (CreateBuilder { service: Some(service), ..self }),
    {
        CreateBuilder { service: Some(service), ..self }
    }

    pub fn prev(self, prev: Cid) -> (r: Self)
        ensures
            r == (CreateBuilder { prev: Some(prev), ..self }),
    {
        CreateBuilder { prev: Some(prev), ..self }
    }

    pub fn sig(self, sig: String) -> (r: Self)
        ensures
            r == (CreateBuilder { sig: Some(sig), ..self }),
    {
        CreateBuilder { sig: Some(sig), ..self }
    }

    /// Succeeds exactly when every required field was given; the error
    /// names the first missing field, in declaration order.
    pub fn build(self) -> (r: Result<Create, Error>)
        ensures
            r is Ok <==> (self.signing_key is Some && self.recovery_key is Some && self.username
                is Some && self.service is Some && self.sig is Some),
            r matches Ok(c) ==> {
                &&& c.spec_signing_key() == self.signing_key.unwrap()@
                &&& c.spec_recovery_key() == self.recovery_key.unwrap()@
                &&& c.spec_username() == self.username.unwrap()@
                &&& c.spec_service() == self.service.unwrap()@
                &&& c.spec_prev() == (match self.prev {
                    Some(p) => Some(p@),
                    None => None::<Seq<char>>,
                })
                &&& c.spec_sig() == self.sig.unwrap()@
            },
            self.signing_key is None ==> (r matches Err(e) && e.spec_field()
                == "signing_key"@),
            self.signing_key is Some && self.recovery_key is None ==> (r matches Err(e)
                && e.spec_field() == "recovery_key"@),
            self.signing_key is Some && self.recovery_key is Some && self.username is None ==> (
            r matches Err(e) && e.spec_field() == "username"@),
            self.signing_key is Some && self.recovery_key is Some && self.username is Some
                && self.service is None ==> (r matches Err(e) && e.spec_field() == "service"@),
            self.signing_key is Some && self.recovery_key is Some && self.username is Some
                && self.service is Some && self.sig is None ==> (r matches Err(e)
                && e.spec_field() == "sig"@),
    {
        let signing_key = match self.signing_key {
            Some(v) => v,
            None => {
                return Err(Error::missing_field("signing_key"));
            },
        };
        let recovery_key = match self.recovery_key {
            Some(v) => v,
            None => {
                return Err(Error::missing_field("recovery_key"));
            },
        };
        let username = match self.username {
            Some(v) => v,
            None => {
                return Err(Error::missing_field("username"));
            },
        };
        let service = match self.service {
            Some(v) => v,
            None => {
                return Err(Error::missing_field("service"));
            },
        };
        let sig = match self.sig {
            Some(v) => v,
            None => {
                return Err(Error::missing_field("sig"));
            },
        };
        Ok(Create { signing_key, recovery_key, username, service, prev: self.prev, sig })
    }
}

/// The reason building a creation operation failed.
#[derive(Debug)]
pub enum ErrorRepr {
    MissingField(&'static str),
}

/// An error from building a creation operation.
#[derive(Debug)]
pub struct Error {
    repr: ErrorRepr,
}

impl Error {
    pub closed spec fn spec_field(&self) -> Seq<char> {
        match self.repr {
            ErrorRepr::MissingField(f) => f@,
        }
    }

    pub fn missing_field(field_name: &'static str) -> (r: Self)
        ensures
            r.spec_field() == field_name@,
    {
        Error { repr: ErrorRepr::MissingField(field_name) }
    }

    /// The error rendered as text.
    pub fn message(&self) -> (r: String)
        ensures
            r@ == "missing required field "@ + self.spec_field(),
    {
        let mut m = String::from_str("missing required field ");
        match &self.repr {
            ErrorRepr::MissingField(f) => {
                m.append(f);
            },
        }
        m
    }
}

} // verus!
