use vstd::prelude::*;

verus! {

broadcast use vstd::array::group_array_axioms;

/// The number of bytes in a program or account identity.
pub const IDENTITY_SIZE: usize = 32;

/// An opaque identity supplied by the host runtime: the identity a program
/// runs under, or the declared owner of a storage slot. The processor only
/// ever compares identities for equality.
#[derive(Clone, Copy, Debug, PartialEq, Eq)]
pub struct Identity {
    /// The raw identity bytes.
    pub bytes: [u8; 32],
}

impl Identity {
    /// Compares two identities byte for byte.
    pub fn same_as(&self, other: &Identity) -> (r: bool)
        ensures
            r <==> self == other,
    {
        let mut i: usize = 0;
        while i < IDENTITY_SIZE
            invariant
                i <= IDENTITY_SIZE,
                forall|j: int| 0 <= j < i ==> self.bytes@[j] == other.bytes@[j],
            decreases IDENTITY_SIZE - i,
        {
            if self.bytes[i] != other.bytes[i] {
                return false;
            }
            i += 1;
        }
        proof {
            assert(self.bytes =~= other.bytes);
        }
        true
    }
}

/// A handle on one persistent storage slot, as the host runtime presents it
/// to the processor: a declared owner, the slot's current bytes, a writable
/// flag, and a credit balance. The processor reads the owner and rewrites
/// the bytes; it never touches the flag or the balance.
#[derive(Debug)]
pub struct StorageSlot {
    /// The identity that exclusively controls the slot's contents.
    pub owner: Identity,
    /// The slot's current bytes, sized by an external provisioning step.
    pub data: Vec<u8>,
    /// Whether the host marked the slot writable. Unused by the processor.
    pub writable: bool,
    /// The slot's credit balance. Unused by the processor.
    pub lamports: u64,
}

} // verus!
