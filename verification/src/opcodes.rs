//! Opcodes of the five instructions the hash table is concerned with.
//!
//! The numeric opcode values come from the `triton_opcodes` crate, the single
//! source of truth shared with the virtual machine. The constants below state
//! those values so that contracts can speak of them; the trusted accessor ties
//! them to the crate.

use vstd::prelude::*;

use triton_opcodes::instruction::Instruction;

verus! {

/// Opcode of the `hash` instruction.
pub const OPCODE_HASH: u64 = 48;

/// Opcode of the `absorb_init` instruction.
pub const OPCODE_ABSORB_INIT: u64 = 72;

/// Opcode of the `absorb` instruction.
pub const OPCODE_ABSORB: u64 = 80;

/// Opcode of the `squeeze` instruction.
pub const OPCODE_SQUEEZE: u64 = 88;

/// Relies on `triton_opcodes::instruction::AnInstruction::opcode`: the
/// opcodes of `hash`, `absorb_init`, `absorb`, and `squeeze`, in this order.
#[verifier::external_body]
pub fn instruction_opcodes() -> (r: (u64, u64, u64, u64))
    ensures
        r.0 == OPCODE_HASH,
        r.1 == OPCODE_ABSORB_INIT,
        r.2 == OPCODE_ABSORB,
        r.3 == OPCODE_SQUEEZE,
{
    (
        Instruction::Hash.opcode() as u64,
        Instruction::AbsorbInit.opcode() as u64,
        Instruction::Absorb.opcode() as u64,
        Instruction::Squeeze.opcode() as u64,
    )
}

} // verus!
