//! Who is asking: the identity of the caller of a transfer.
//!
//! The ledger does not authenticate anybody. It is handed the raw bytes of a
//! principal by whoever received the request, and books the transfer under
//! the textual form of that principal.

use vstd::prelude::*;

verus! {

/// The largest number of bytes a principal can have.
pub const MAX_PRINCIPAL_LEN: usize = 29;

/// The textual form of the principal with the given bytes: a checksum and
/// the bytes themselves, written in base 32 and grouped by dashes.
pub uninterp spec fn principal_text(bytes: Seq<u8>) -> Seq<char>;

/// Makes a `candid::Principal` of the bytes with `Principal::from_slice` and
/// has it written out by `Principal::to_text`.
///
/// Taken on trust, not proved: that the text is a function of the bytes and
/// of nothing else, the one named [`principal_text`]. `from_slice` panics on
/// more than 29 bytes, which the precondition rules out; `to_text` accepts
/// every principal.
#[verifier::external_body]
fn principal_to_text(bytes: &[u8]) -> (text: String)
    requires
        bytes@.len() <= MAX_PRINCIPAL_LEN,
    ensures
        text@ == principal_text(bytes@),
{
    candid::Principal::from_slice(bytes).to_text()
}

/// The identity of a caller: the bytes of its principal, at most
/// [`MAX_PRINCIPAL_LEN`] of them.
#[derive(Debug)]
pub struct CallerId {
    bytes: Vec<u8>,
}

impl View for CallerId {
    type V = Seq<u8>;

    closed spec fn view(&self) -> Seq<u8> {
        self.bytes@
    }
}

impl CallerId {
    #[verifier::type_invariant]
    spec fn short_enough(self) -> bool {
        self.bytes@.len() <= MAX_PRINCIPAL_LEN
    }

    /// Accepts the bytes of a principal, unless there are too many of them.
    pub fn new(bytes: Vec<u8>) -> (caller: Option<Self>)
        ensures
            match caller {
                Some(id) => bytes@.len() <= MAX_PRINCIPAL_LEN && id@ == bytes@,
                None => bytes@.len() > MAX_PRINCIPAL_LEN,
            },
    {
        if bytes.len() <= MAX_PRINCIPAL_LEN {
            Some(CallerId { bytes })
        } else {
            None
        }
    }

    /// The bytes of the principal.
    pub fn as_bytes(&self) -> (bytes: &[u8])
        ensures
            bytes@ == self@,
    {
        self.bytes.as_slice()
    }

    /// The name of the account that belongs to this caller: the textual form
    /// of its principal.
    pub fn account_name(&self) -> (name: String)
        ensures
            name@ == principal_text(self@),
    {
        proof {
            use_type_invariant(self);
        }
        principal_to_text(self.bytes.as_slice())
    }
}

} // verus!
