use vstd::prelude::*;

verus! {

// ---------------------------------------------------------------------------
// A request against an operation endpoint.
// ---------------------------------------------------------------------------

/// The kind of endpoint a request addresses.
#[derive(Debug, Clone, Copy, PartialEq, Eq, Structural)]
pub enum Type {
    Query,
    Procedure,
}

/// A validated request.
#[derive(Debug)]
pub struct XrpcRequest {
    req_type: Type,
}

impl XrpcRequest {
    pub closed spec fn spec_type(&self) -> Type {
        self.req_type
    }

    pub fn req_type(&self) -> (r: Type)
        ensures
            r == self.spec_type(),
    {
        self.req_type
    }

    pub fn builder() -> (r: Builder)
        ensures
            r.spec_type() is None,
    {
        Builder { req_type: None }
    }
}

/// Accumulates the fields of a request.
#[derive(Debug)]
pub struct Builder {
    req_type: Option<Type>,
}

impl Builder {
    pub closed spec fn spec_type(&self) -> Option<Type> {
        self.req_type
    }

    /// Sets the request type.
    pub fn req_type(self, req_type: Type) -> (r: Self)
        ensures
            r.spec_type() == Some(req_type),
    {
        Builder { req_type: Some(req_type) }
    }

    /// Sets or clears the request type.
    pub fn set_type(&mut self, req_type: Option<Type>)
        ensures
            final(self).spec_type() == req_type,
    {
        self.req_type = req_type;
    }

    /// Succeeds exactly when the type was set; the error names the
    /// missing field.
    pub fn build(self) -> (r: Result<XrpcRequest, Error>)
        ensures
            r is Ok <==> self.spec_type() is Some,
            r matches Ok(q) ==> Some(q.spec_type()) == self.spec_type(),
            r matches Err(e) ==> e matches Error::MissingField(f) && f@ == "type"@,
    {
        match self.req_type {
            Some(t) => Ok(XrpcRequest { req_type: t }),
            None => Err(Error::MissingField("type")),
        }
    }
}

/// The reason building a request failed.
#[derive(Debug, Clone, Copy, PartialEq, Eq)]
pub enum Error {
    MissingField(&'static str),
}

} // verus!
