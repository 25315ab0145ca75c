pub mod create;
pub mod rotate_recovery_key;
pub mod rotate_signing_key;
pub mod update_atp_pds;
pub mod update_username;

use vstd::prelude::*;

use crate::cid::Cid;

verus! {

/// A value whose canonical byte rendering is specified.
pub trait ToBytes: Sized {
    /// The bytes the value renders to.
    spec fn bytes_spec(&self) -> Seq<u8>;

    fn to_bytes(self) -> (r: Vec<u8>)
        ensures
            r@ == self.bytes_spec(),
    ;
}

/// One entry of a placeholder-method operation log.
pub trait Operation: ToBytes {
    /// The operation's type tag.
    spec fn type_spec(&self) -> Seq<char>;

    /// The previous operation's content id, when there is one.
    spec fn prev_spec(&self) -> Option<Seq<char>>;

    /// The operation's encoded signature.
    spec fn sig_spec(&self) -> Seq<char>;

    /// The operation's type tag, such as `create`.
    fn op_type(&self) -> (r: String)
        ensures
            r@ == self.type_spec(),
    ;

    /// The content id of the previous operation in the log.
    fn prev(&self) -> (r: Option<Cid>)
        ensures
            match r {
                Some(c) => self.prev_spec() matches Some(v) && c@ == v,
                None => self.prev_spec() is None,
            },
    ;

    /// The encoded signature over the operation.
    fn sig(&self) -> (r: String)
        ensures
            r@ == self.sig_spec(),
    ;
}

/// One log entry: any of the placeholder method's operations.
pub enum OperationEntry {
    Create(create::Create),
    RotateRecoveryKey(rotate_recovery_key::RotateRecoveryKey),
    RotateSigningKey(rotate_signing_key::RotateSigningKey),
    UpdateAtpPds(update_atp_pds::UpdateAtpPds),
    UpdateUsername(update_username::UpdateUsername),
}

/// The ordered log of operations on one identity.
pub struct OperationLog {
    pub log: Vec<OperationEntry>,
}

} // verus!
