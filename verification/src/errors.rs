use vstd::prelude::*;

verus! {

/// Why a byte sequence could not be turned into an instruction.
#[derive(Clone, Copy, Debug, PartialEq, Eq, Structural)]
pub enum DecodeError {
    /// The first byte matches no entry of the opcode table.
    UnsupportedOpcode,
    /// A bit pattern that the matched class has no rule for.
    InvariantViolation,
    /// The instruction reaches past the end of the byte buffer.
    OutOfBounds,
}

/// Why an instruction could not be applied to the machine state.
#[derive(Clone, Copy, Debug, PartialEq, Eq, Structural)]
pub enum ExecError {
    /// The instruction could not be decoded.
    Decode(DecodeError),
    /// No register of the file has the requested name.
    UnknownRegister,
    /// A single register was asked for by a composite expression such as `bx + si`.
    CompositeRegister,
    /// A composite expression was expected, and the name holds no `+` or `-`.
    NotComposite,
    /// No flag of the set has the requested name.
    UnknownFlag,
    /// The mnemonic is none of `mov`, `add`, `sub`, `cmp`.
    UnknownMnemonic,
    /// A memory access was asked for in register mode.
    NotMemoryMode,
    /// A memory access reaches past the end of memory.
    MemoryOutOfBounds,
    /// A taken jump leaves the range of the instruction pointer.
    JumpOutOfBounds,
}

} // verus!
