use vstd::prelude::*;
use vstd::arithmetic::div_mod::{lemma_add_mod_noop, lemma_mod_self_0, lemma_small_mod};
use crate::error::Failure;
use crate::record::{decoded_counter, record_bytes, GreetingAccount, RECORD_SIZE};
use crate::record::lemma_encode_decode_roundtrip;
use crate::slot::{Identity, StorageSlot};

verus! {

/// The modulus of the counter: it wraps around at 2^32.
pub const COUNTER_MODULUS: u64 = 0x1_0000_0000;

/// The counter after one greeting: incremented by one, wrapping at 2^32.
pub open spec fn bumped(counter: u32) -> u32 {
    if counter == u32::MAX {
        0
    } else {
        (counter + 1) as u32
    }
}

/// The result the processor owes for a given target slot: `IncorrectOwner`
/// when the slot is not owned by the program, `MalformedRecord` when its
/// bytes are too short to decode, success otherwise.
pub open spec fn outcome(program_id: Identity, slot: StorageSlot) -> Result<(), Failure> {
    if slot.owner != program_id {
        Err(Failure::IncorrectOwner)
    } else if slot.data@.len() < RECORD_SIZE {
        Err(Failure::MalformedRecord)
    } else {
        Ok(())
    }
}

/// A slot's bytes after one successful invocation: the re-encoded record
/// with the incremented counter, over exactly the byte range the record
/// occupied; every byte past it unchanged.
pub open spec fn updated_data(data: Seq<u8>) -> Seq<u8> {
    record_bytes(bumped(decoded_counter(data))) + data.skip(RECORD_SIZE as int)
}

/// Processes one target slot: checks ownership, decodes the record,
/// increments the counter, and re-encodes it in place. On any failure the
/// slot's bytes are untouched; the owner, writable flag and balance are
/// never touched.
pub fn process_account(program_id: &Identity, slot: &mut StorageSlot) -> (r: Result<(), Failure>)
    ensures
        r == outcome(*program_id, *old(slot)),
        final(slot).owner == old(slot).owner,
        final(slot).writable == old(slot).writable,
        final(slot).lamports == old(slot).lamports,
        r is Err ==> final(slot).data@ == old(slot).data@,
        r is Ok ==> final(slot).data@ == updated_data(old(slot).data@),
{
    if !slot.owner.same_as(program_id) {
        return Err(Failure::IncorrectOwner);
    }
    let record = match GreetingAccount::decode(slot.data.as_slice()) {
        Ok(record) => record,
        Err(_) => {
            return Err(Failure::MalformedRecord);
        },
    };
    let greeted = GreetingAccount { counter: record.counter.wrapping_add(1) };
    match greeted.write_into(&mut slot.data) {
        Ok(()) => Ok(()),
        Err(failure) => Err(failure),
    }
}

/// The instruction-processing entrypoint. Takes the identity the program
/// runs under, the ordered storage slots referenced by the call, and the
/// opaque instruction payload (ignored). Fails with `MissingAccount` on an
/// empty slot list; otherwise processes the first slot and leaves every
/// other slot untouched.
pub fn process_instruction(
    program_id: &Identity,
    accounts: &mut Vec<StorageSlot>,
    _instruction_data: &[u8],
) -> (r: Result<(), Failure>)
    ensures
        old(accounts)@.len() == 0 ==> r == Err::<(), Failure>(Failure::MissingAccount),
        old(accounts)@.len() == 0 ==> final(accounts)@ == old(accounts)@,
        old(accounts)@.len() > 0 ==> r == outcome(*program_id, old(accounts)@[0]),
        final(accounts)@.len() == old(accounts)@.len(),
        forall|i: int| 1 <= i < old(accounts)@.len() ==> final(accounts)@[i] == old(accounts)@[i],
        old(accounts)@.len() > 0 ==> final(accounts)@[0].owner == old(accounts)@[0].owner,
        old(accounts)@.len() > 0 ==> final(accounts)@[0].writable == old(accounts)@[0].writable,
        old(accounts)@.len() > 0 ==> final(accounts)@[0].lamports == old(accounts)@[0].lamports,
        old(accounts)@.len() > 0 && r is Err ==> final(accounts)@[0].data@ == old(accounts)@[0].data@,
        r is Ok ==> old(accounts)@.len() > 0 && final(accounts)@[0].data@ == updated_data(
            old(accounts)@[0].data@,
        ),
{
    if accounts.len() == 0 {
        return Err(Failure::MissingAccount);
    }
    let mut target = accounts.remove(0);
    let r = process_account(program_id, &mut target);
    accounts.insert(0, target);
    proof {
        assert(accounts@ =~= old(accounts)@.update(0, accounts@[0]));
    }
    r
}

/// A slot's bytes after `n` successful invocations in sequence.
pub open spec fn iterated_data(data: Seq<u8>, n: nat) -> Seq<u8>
    decreases n,
{
    if n == 0 {
        data
    } else {
        updated_data(iterated_data(data, (n - 1) as nat))
    }
}

/// One successful invocation adds one to the decoded counter, modulo 2^32,
/// and preserves the buffer's length and every byte past the record.
proof fn lemma_one_invocation(data: Seq<u8>)
    requires
        data.len() >= RECORD_SIZE,
    ensures
        updated_data(data).len() == data.len(),
        updated_data(data).skip(RECORD_SIZE as int) == data.skip(RECORD_SIZE as int),
        decoded_counter(updated_data(data)) == (decoded_counter(data) + 1) % (
        COUNTER_MODULUS as int),
{
    let counter = decoded_counter(data);
    let next = bumped(counter);
    lemma_encode_decode_roundtrip(next);
    vstd::bytes::lemma_auto_spec_u32_to_from_le_bytes();
    assert(updated_data(data).subrange(0, RECORD_SIZE as int) =~= record_bytes(next));
    assert(updated_data(data).skip(RECORD_SIZE as int) =~= data.skip(RECORD_SIZE as int));
    if counter == u32::MAX {
        lemma_mod_self_0(COUNTER_MODULUS as int);
        assert((counter + 1) % (COUNTER_MODULUS as int) == 0);
    } else {
        lemma_small_mod((counter + 1) as nat, COUNTER_MODULUS as nat);
    }
}

/// Law: invoking the processor `n` times in sequence on the same slot
/// yields a counter equal to its initial value plus `n`, modulo 2^32,
/// while the buffer's length and every byte past the record are kept.
pub proof fn lemma_repeated_invocations(data: Seq<u8>, n: nat)
    requires
        data.len() >= RECORD_SIZE,
    ensures
        iterated_data(data, n).len() == data.len(),
        iterated_data(data, n).skip(RECORD_SIZE as int) == data.skip(RECORD_SIZE as int),
        decoded_counter(iterated_data(data, n)) == (decoded_counter(data) + n) % (
        COUNTER_MODULUS as int),
    decreases n,
{
    let m = COUNTER_MODULUS as int;
    if n == 0 {
        lemma_small_mod(decoded_counter(data) as nat, COUNTER_MODULUS as nat);
    } else {
        let prev = iterated_data(data, (n - 1) as nat);
        lemma_repeated_invocations(data, (n - 1) as nat);
        lemma_one_invocation(prev);
        lemma_small_mod(1nat, COUNTER_MODULUS as nat);
        lemma_add_mod_noop(decoded_counter(data) + n - 1, 1, m);
        assert(decoded_counter(iterated_data(data, n)) == (decoded_counter(prev) + 1) % m);
        assert((decoded_counter(data) + n - 1) % m + 1int % m == decoded_counter(prev) + 1);
    }
}

} // verus!
