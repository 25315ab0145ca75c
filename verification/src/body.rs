use vstd::prelude::*;

verus! {

// ---------------------------------------------------------------------------
// Bodies and declared errors of operation endpoints.
// ---------------------------------------------------------------------------

/// How a body is encoded.
pub enum XrpcBodyEncoding {
    Text(String),
    StringList(Vec<String>),
}

/// One request or response body.
pub struct XrpcBody {
    pub encoding: XrpcBodyEncoding,
    pub schema: (),
    pub description: Option<String>,
}

/// One declared endpoint error.
pub struct XrpcError {
    pub name: String,
    pub description: Option<String>,
}

} // verus!
