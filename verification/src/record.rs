use vstd::prelude::*;
use vstd::bytes::{
    lemma_auto_spec_u32_to_from_le_bytes, spec_u32_from_le_bytes, spec_u32_to_le_bytes,
    u32_from_le_bytes, u32_to_le_bytes,
};
use vstd::slice::slice_subrange;
use crate::error::Failure;

verus! {

/// The number of bytes an encoded record occupies: a fixed-size
/// little-endian encoding of the counter, with no header and no padding.
pub const RECORD_SIZE: usize = 4;

/// The one persistent entity: a greeting counter stored in a program-owned
/// storage slot.
#[derive(Clone, Copy, Debug, PartialEq, Eq, Structural)]
pub struct GreetingAccount {
    /// Number of greetings recorded so far.
    pub counter: u32,
}

/// The bytes that encode a record with the given counter: four bytes,
/// little-endian, no envelope.
pub open spec fn record_bytes(counter: u32) -> Seq<u8> {
    spec_u32_to_le_bytes(counter)
}

/// The counter a buffer decodes to, read from its first four bytes.
/// Meaningful only when the buffer holds at least `RECORD_SIZE` bytes.
pub open spec fn decoded_counter(bytes: Seq<u8>) -> u32 {
    spec_u32_from_le_bytes(bytes.subrange(0, RECORD_SIZE as int))
}

impl GreetingAccount {
    /// Encodes the record into its fixed four-byte little-endian layout.
    pub fn encode(&self) -> (out: Vec<u8>)
        ensures
            out@ == record_bytes(self.counter),
            out@.len() == RECORD_SIZE,
    {
        u32_to_le_bytes(self.counter)
    }

    /// Decodes a record from the first four bytes of a buffer. Fails with
    /// `MalformedRecord` exactly when the buffer is shorter than a record.
    pub fn decode(bytes: &[u8]) -> (r: Result<GreetingAccount, Failure>)
        ensures
            r is Ok <==> bytes@.len() >= RECORD_SIZE,
            r is Ok ==> r->Ok_0.counter == decoded_counter(bytes@),
            r is Err ==> r->Err_0 == Failure::MalformedRecord,
    {
        if bytes.len() < RECORD_SIZE {
            return Err(Failure::MalformedRecord);
        }
        let head = slice_subrange(bytes, 0, RECORD_SIZE);
        Ok(GreetingAccount { counter: u32_from_le_bytes(head) })
    }

    /// Re-encodes the record over the first four bytes of `buf`, leaving
    /// every byte past the record untouched. Fails with `BufferTooSmall`
    /// exactly when the encoded record does not fit, in which case no byte
    /// is written.
    pub fn write_into(&self, buf: &mut Vec<u8>) -> (r: Result<(), Failure>)
        ensures
            r is Ok <==> old(buf)@.len() >= RECORD_SIZE,
            r is Ok ==> final(buf)@ == record_bytes(self.counter) + old(buf)@.skip(RECORD_SIZE as int),
            r is Err ==> r->Err_0 == Failure::BufferTooSmall && final(buf)@ == old(buf)@,
    {
        let enc = self.encode();
        if buf.len() < enc.len() {
            return Err(Failure::BufferTooSmall);
        }
        let mut i: usize = 0;
        while i < RECORD_SIZE
            invariant
                i <= RECORD_SIZE,
                enc@ == record_bytes(self.counter),
                enc@.len() == RECORD_SIZE,
                buf@.len() == old(buf)@.len(),
                buf@.len() >= RECORD_SIZE,
                forall|j: int| 0 <= j < i ==> buf@[j] == enc@[j],
                forall|j: int| i <= j < buf@.len() ==> buf@[j] == old(buf)@[j],
            decreases RECORD_SIZE - i,
        {
            buf[i] = enc[i];
            i += 1;
        }
        proof {
            assert(buf@ =~= record_bytes(self.counter) + old(buf)@.skip(RECORD_SIZE as int));
        }
        Ok(())
    }
}

/// Law: encoding a record and decoding the result yields the same counter,
/// for every representable counter value.
pub proof fn lemma_encode_decode_roundtrip(counter: u32)
    ensures
        decoded_counter(record_bytes(counter)) == counter,
{
    lemma_auto_spec_u32_to_from_le_bytes();
    assert(record_bytes(counter).subrange(0, RECORD_SIZE as int) =~= record_bytes(counter));
}

} // verus!
