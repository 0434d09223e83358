//! Identifiers that the two ends of a connection exchange during identification.

use crate::error::FmtpError;
use vstd::prelude::*;

verus! {

/// Whether `bytes` is acceptable as an identifier: 1 to 32 bytes, all ASCII.
pub open spec fn valid_identifier(bytes: Seq<u8>) -> bool {
    &&& 1 <= bytes.len() <= 32
    &&& forall|i: int| 0 <= i < bytes.len() ==> #[trigger] bytes[i] < 128
}

/// Whether every byte of `bytes` lies in the ASCII range.
pub open spec fn all_ascii(bytes: Seq<u8>) -> bool {
    forall|i: int| 0 <= i < bytes.len() ==> #[trigger] bytes[i] < 128
}

/// An FMTP identifier: 1 to 32 bytes, each in the ASCII range.
#[derive(Debug, PartialEq, Eq)]
pub struct FmtpIdentifier {
    bytes: Vec<u8>,
}

impl View for FmtpIdentifier {
    type V = Seq<u8>;

    closed spec fn view(&self) -> Seq<u8> {
        self.bytes@
    }
}

impl Clone for FmtpIdentifier {
    fn clone(&self) -> (c: Self)
        ensures
            c@ == self@,
    {
        proof {
            use_type_invariant(self);
        }
        FmtpIdentifier { bytes: vstd::slice::slice_to_vec(self.bytes.as_slice()) }
    }
}

impl FmtpIdentifier {
    #[verifier::type_invariant]
    closed spec fn well_formed(self) -> bool {
        valid_identifier(self.bytes@)
    }

    /// Builds an identifier from `id`; fails where it is empty, longer than 32 bytes,
    /// or holds a byte outside the ASCII range (length is tested first).
    pub fn new(id: &[u8]) -> (r: Result<FmtpIdentifier, FmtpError>)
        ensures
            r is Ok <==> valid_identifier(id@),
            r matches Ok(ident) ==> ident@ == id@,
            r matches Err(e) ==> (e == FmtpError::IdentifierLength <==> !(1 <= id@.len() <= 32)),
            r matches Err(e) ==> (e == FmtpError::IdentifierLength || e == FmtpError::IdentifierNotAscii),
    {
        if id.len() == 0 || id.len() > 32 {
            return Err(FmtpError::IdentifierLength);
        }
        let mut i: usize = 0;
        while i < id.len()
            invariant
                0 <= i <= id@.len(),
                1 <= id@.len() <= 32,
                forall|j: int| 0 <= j < i ==> #[trigger] id@[j] < 128,
            decreases id@.len() - i,
        {
            if id[i] >= 128 {
                assert(id@[i as int] >= 128);
                return Err(FmtpError::IdentifierNotAscii);
            }
            i = i + 1;
        }
        Ok(FmtpIdentifier { bytes: vstd::slice::slice_to_vec(id) })
    }

    /// The identifier's bytes.
    pub fn as_bytes(&self) -> (b: &[u8])
        ensures
            b@ == self@,
            valid_identifier(b@),
    {
        proof {
            use_type_invariant(self);
        }
        self.bytes.as_slice()
    }

    /// The number of bytes in the identifier.
    pub fn len(&self) -> (n: usize)
        ensures
            n == self@.len(),
            1 <= n <= 32,
    {
        proof {
            use_type_invariant(self);
        }
        self.bytes.len()
    }
}

} // verus!
