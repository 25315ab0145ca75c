use vstd::prelude::*;

use sha2::Digest;
use vstd::string::StrSliceExecFns;

use crate::operation::Operation;
use crate::operation::ToBytes;

verus! {

// ---------------------------------------------------------------------------
// Content ids: an operation is identified by the lower-case hex rendering
// of the SHA-256 digest of its bytes.
// ---------------------------------------------------------------------------

/// The SHA-256 digest of a byte sequence; the digest is a function of the
/// data alone.
pub uninterp spec fn sha256_of(data: Seq<u8>) -> Seq<u8>;

/// Relies on sha2's `Sha256`: a 32-byte digest that depends on the data
/// alone.
#[verifier::external_body]
fn sha256_digest(data: &Vec<u8>) -> (r: Vec<u8>)
    ensures
        r@ == sha256_of(data@),
        r@.len() == 32,
{
    sha2::Sha256::digest(data).to_vec()
}

/// The lower-case hex digit for a value below 16.
pub open spec fn hex_digit_byte(v: u8) -> u8 {
    if v < 10 {
        (0x30 + v) as u8
    } else {
        (0x57 + v) as u8
    }
}

/// Lower-case hex rendering: two digits per byte, high nibble first.
pub open spec fn hex_bytes(data: Seq<u8>) -> Seq<u8>
    decreases data.len(),
{
    if data.len() == 0 {
        Seq::empty()
    } else {
        seq![hex_digit_byte(data[0] / 16), hex_digit_byte(data[0] % 16)] + hex_bytes(
            data.drop_first(),
        )
    }
}

/// The hex rendering is two digits per byte.
pub proof fn lemma_hex_bytes_len(data: Seq<u8>)
    ensures
        hex_bytes(data).len() == 2 * data.len(),
    decreases data.len(),
{
    if data.len() > 0 {
        lemma_hex_bytes_len(data.drop_first());
    }
}

/// Relies on hex::encode: each byte becomes two lower-case hex digits,
/// high nibble first.
#[verifier::external_body]
fn hex_encode(data: &Vec<u8>) -> (r: String)
    ensures
        crate::expression::chars_as_bytes(r@) == hex_bytes(data@),
        crate::expression::ascii_chars(r@),
{
    hex::encode(data)
}

/// A cryptographic content id.
#[derive(Debug, Hash)]
pub struct Cid {
    id: String,
}

impl View for Cid {
    type V = Seq<char>;

    closed spec fn view(&self) -> Seq<char> {
        self.id@
    }
}

impl Clone for Cid {
    fn clone(&self) -> (r: Self)
        ensures
            r@ == self@,
    {
        Cid { id: self.id.clone() }
    }
}

impl Cid {
    pub fn as_str(&self) -> (r: &str)
        ensures
            r@ == self@,
    {
        self.id.as_str()
    }

    pub fn as_bytes(&self) -> (r: &[u8])
        ensures
            r@ == vstd::utf8::encode_utf8(self@),
    {
        self.id.as_str().as_bytes()
    }

    /// The content id of an operation: the lower-case hex of the SHA-256
    /// digest of the operation's bytes, 64 ASCII characters.
    pub fn from_operation<T: Operation>(op: T) -> (r: Cid)
        ensures
            crate::expression::chars_as_bytes(r@) == hex_bytes(sha256_of(op.bytes_spec())),
            r@.len() == 64,
            crate::expression::ascii_chars(r@),
    {
        let bytes = op.to_bytes();
        let digest = sha256_digest(&bytes);
        let id = hex_encode(&digest);
        proof {
            lemma_hex_bytes_len(digest@);
            assert(crate::expression::chars_as_bytes(id@).len() == id@.len());
        }
        Cid { id }
    }
}

} // verus!
