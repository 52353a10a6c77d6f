use vstd::prelude::*;

verus! {

/// The forms of operation that the decoder tells apart by addressing mode and by the
/// width of the immediate.
#[allow(non_camel_case_types)]
#[derive(Debug, Clone, Copy, PartialEq, Eq, Structural)]
pub enum Operation {
    /// Register to register, no displacement.
    REGISTER_MODE,
    /// `mov` of an 8-bit immediate to a register: two bytes, the last is the immediate.
    IMMEDIATE_TO_REGISTER_MOV_8,
    /// `mov` of a 16-bit immediate to a register: three bytes, the last two are the immediate.
    IMMEDIATE_TO_REGISTER_MOV_16,
    MEMORY_MODE_8_BIT_DISPLACEMENT,
    MEMORY_MODE_16_BIT_DISPLACEMENT,
    /// Memory without displacement, unless R/M is 110: that is `MEMORY_MODE_DIRECT`.
    MEMORY_MODE_NONE,
    /// MOD 00 with R/M 110: a direct 16-bit address.
    MEMORY_MODE_DIRECT,
    IMMEDIATE_TO_MEMORY_8,
    IMMEDIATE_TO_MEMORY_16,
    IMMEDIATE_TO_REGISTER_8,
    IMMEDIATE_TO_REGISTER_16,
    UNSUPPORTED,
}

} // verus!
