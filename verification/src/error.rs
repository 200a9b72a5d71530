//! Why an instruction failed, by the stage that failed.

use crate::instruction::DecodeError;
use solana_program::program_error::ProgramError;
use vstd::prelude::*;

verus! {

/// The failure of one instruction. No failure is ever recovered from: the
/// processor returns it, and the host discards what the transaction changed.
#[derive(Debug, PartialEq, Eq)]
pub enum ProcessorError {
    /// The payload is no command.
    Decode(DecodeError),
    /// The account list is shorter than the command's layout.
    NotEnoughAccountKeys,
    /// The rent oracle quotes a rate at which the balance for mint state does
    /// not fit in 64 bits.
    RentOutOfRange,
    /// The host or a called module failed. Its error is handed on as it came.
    CrossModule(ProgramError),
}

} // verus!
