//! A minimal state-mutation handler for a program-owned storage slot.
//!
//! The processor receives the identity the program runs under, an ordered
//! list of storage slots, and an opaque payload. It checks that the first
//! slot is owned by the program, decodes the slot's bytes as a greeting
//! record (a little-endian 32-bit counter), increments the counter, and
//! writes the record back over the same byte range.

pub mod error;
pub mod record;
pub mod slot;
pub mod process;
