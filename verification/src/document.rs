use vstd::prelude::*;

use crate::operation::OperationLog;

verus! {

// ---------------------------------------------------------------------------
// The document an operation log resolves to.  What a resolved document
// carries is not settled yet; the fields are placeholders.
// ---------------------------------------------------------------------------

#[non_exhaustive]
pub struct Document {
    pub signing_key: (),
    pub recovery_key: (),
    pub username: (),
    /// Personal data server for the related repository.
    pub atp_pds: (),
}

impl Document {
    /// Resolves an operation log to its current document.  The placeholder
    /// fields carry no data yet, so every log resolves to the one empty
    /// document.
    pub fn from_operation_log(operation_log: &OperationLog) -> (r: Document)
        ensures
            r.signing_key == (),
    {
        let _ = operation_log;
        Document { signing_key: (), recovery_key: (), username: (), atp_pds: () }
    }
}

} // verus!
