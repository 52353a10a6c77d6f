use vstd::prelude::*;
use crate::bits::{
    classify, combine_bytes, determine_instruction, determine_instruction_byte_size,
    determine_memory_mode, direction_bit, displacement_len, first_match, has_mod_field,
    immediate_is_word, instruction_byte_size, instruction_is_conditional_jump,
    is_accumulator_class, is_arithmetic_mnemonic, is_jump_class,
    lemma_opcode_table_classifies, memory_mode_of, mov_width_bit, opcode_table, reg_field,
    rm_field, sign_bit, spec_combine_bytes, spec_direction_bit, spec_mod_field,
    spec_mov_width_bit, spec_reg_field, spec_rm_field, spec_width_bit, width_bit,
    InstructionType, MemoryModeEnum, OpCode,
};
use crate::errors::DecodeError;
use crate::memory::{displacement_of, get_displacement};
use crate::registers::{no_value, value_of, Value, ValueEnum};
use crate::text::str_eq;

verus! {

/// The width bit of the class: bit 3 of the first byte for a `mov` of an immediate to a
/// register, bit 0 for every other class.
pub open spec fn spec_is_word_size(first_byte: u8, inst_type: InstructionType) -> bool {
    if inst_type == InstructionType::ImmediateToRegisterMOV {
        spec_mov_width_bit(first_byte)
    } else {
        spec_width_bit(first_byte)
    }
}

/// Whether the operands have 16 bits.
#[verifier::when_used_as_spec(spec_is_word_size)]
pub fn is_word_size(first_byte: u8, inst_type: InstructionType) -> (r: bool)
    ensures
        r == spec_is_word_size(first_byte, inst_type),
{
    if inst_type == InstructionType::ImmediateToRegisterMOV {
        mov_width_bit(first_byte)
    } else {
        width_bit(first_byte)
    }
}

/// The register that a 3-bit field names, by width.
pub open spec fn register_name(field: u8, is_word_size: bool) -> &'static str {
    if is_word_size {
        if field == 0 {
            "ax"
        } else if field == 1 {
            "cx"
        } else if field == 2 {
            "dx"
        } else if field == 3 {
            "bx"
        } else if field == 4 {
            "sp"
        } else if field == 5 {
            "bp"
        } else if field == 6 {
            "si"
        } else {
            "di"
        }
    } else {
        if field == 0 {
            "al"
        } else if field == 1 {
            "cl"
        } else if field == 2 {
            "dl"
        } else if field == 3 {
            "bl"
        } else if field == 4 {
            "ah"
        } else if field == 5 {
            "ch"
        } else if field == 6 {
            "dh"
        } else {
            "bh"
        }
    }
}

/// The base expression of a memory operand that an R/M field names.
pub open spec fn effective_address_name(field: u8) -> &'static str {
    if field == 0 {
        "bx + si"
    } else if field == 1 {
        "bx + di"
    } else if field == 2 {
        "bp + si"
    } else if field == 3 {
        "bp + di"
    } else if field == 4 {
        "si"
    } else if field == 5 {
        "di"
    } else if field == 6 {
        "bp"
    } else {
        "bx"
    }
}

fn name_register(field: u8, is_word_size: bool) -> (r: &'static str)
    ensures
        r == register_name(field, is_word_size),
{
    if is_word_size {
        match field {
            0 => "ax",
            1 => "cx",
            2 => "dx",
            3 => "bx",
            4 => "sp",
            5 => "bp",
            6 => "si",
            _ => "di",
        }
    } else {
        match field {
            0 => "al",
            1 => "cl",
            2 => "dl",
            3 => "bl",
            4 => "ah",
            5 => "ch",
            6 => "dh",
            _ => "bh",
        }
    }
}

fn name_effective_address(field: u8) -> (r: &'static str)
    ensures
        r == effective_address_name(field),
{
    match field {
        0 => "bx + si",
        1 => "bx + di",
        2 => "bp + si",
        3 => "bp + di",
        4 => "si",
        5 => "di",
        6 => "bp",
        _ => "bx",
    }
}

/// The register operand of an instruction. With `get_reg` it is the one that the REG
/// field names, else the one of the R/M field: a register in register mode, a base
/// expression in the modes with a base, and nothing for a direct address. The
/// accumulator classes name `ax` or `al` either way, a `mov` of an immediate to a
/// register names the register of its first byte, and a jump has no register.
pub open spec fn register_of(
    get_reg: bool,
    inst: InstructionType,
    memory_mode: MemoryModeEnum,
    first_byte: u8,
    second_byte: u8,
    is_word_size: bool,
) -> Result<&'static str, DecodeError> {
    if is_accumulator_class(inst) {
        Ok(register_name(0, is_word_size))
    } else if is_jump_class(inst) {
        Ok("")
    } else if inst == InstructionType::ImmediateToRegisterMOV {
        Ok(register_name(spec_rm_field(first_byte), is_word_size))
    } else if get_reg {
        Ok(register_name(spec_reg_field(second_byte), is_word_size))
    } else {
        match memory_mode {
            MemoryModeEnum::RegisterMode => Ok(
                register_name(spec_rm_field(second_byte), is_word_size),
            ),
            MemoryModeEnum::DirectMemoryOperation => Ok(""),
            MemoryModeEnum::MemoryModeNoDisplacement => if spec_rm_field(second_byte) == 6 {
                Err(DecodeError::InvariantViolation)
            } else {
                Ok(effective_address_name(spec_rm_field(second_byte)))
            },
            _ => Ok(effective_address_name(spec_rm_field(second_byte))),
        }
    }
}

/// The register operand of an instruction; see `register_of`.
pub fn get_register(
    get_reg: bool,
    inst: InstructionType,
    memory_mode: MemoryModeEnum,
    first_byte: u8,
    second_byte: u8,
    is_word_size: bool,
) -> (r: Result<&'static str, DecodeError>)
    ensures
        r == register_of(get_reg, inst, memory_mode, first_byte, second_byte, is_word_size),
{
    let rm_res = rm_field(second_byte);
    let reg_res = reg_field(second_byte);

    if inst == InstructionType::ImmediateToAccumulatorSUB || inst
        == InstructionType::ImmediateToAccumulatorCMP || inst
        == InstructionType::ImmediateToAccumulatorADD {
        if is_word_size {
            return Ok("ax");
        } else {
            return Ok("al");
        }
    }
    if instruction_is_conditional_jump(inst) {
        return Ok("");
    }
    if get_reg && inst != InstructionType::ImmediateToRegisterMOV {
        Ok(name_register(reg_res, is_word_size))
    } else if inst == InstructionType::ImmediateToRegisterMOV {
        Ok(name_register(rm_field(first_byte), is_word_size))
    } else {
        match memory_mode {
            MemoryModeEnum::RegisterMode => Ok(name_register(rm_res, is_word_size)),
            MemoryModeEnum::DirectMemoryOperation => Ok(""),
            MemoryModeEnum::MemoryModeNoDisplacement => {
                if rm_res == 0b110 {
                    Err(DecodeError::InvariantViolation)
                } else {
                    Ok(name_effective_address(rm_res))
                }
            },
            MemoryModeEnum::MemoryMode8Bit | MemoryModeEnum::MemoryMode16Bit => Ok(
                name_effective_address(rm_res),
            ),
        }
    }
}

/// The mnemonic of an instruction. The class alone fixes it for jumps, the `mov` of an
/// immediate to a register and the accumulator classes; the first byte for the
/// register-or-memory class; for immediates to a register or memory the first byte tells
/// `mov` from the rest, and the REG field of the second byte tells `add` (000), `sub` (101)
/// and `cmp` (111) apart.
pub open spec fn mnemonic_of(first_byte: u8, second_byte: u8, inst: InstructionType) -> Result<
    &'static str,
    DecodeError,
> {
    match inst {
        InstructionType::JE_JUMP => Ok("je"),
        InstructionType::JL_JUMP => Ok("jl"),
        InstructionType::JLE_JUMP => Ok("jle"),
        InstructionType::JB_JUMP => Ok("jb"),
        InstructionType::JBE_JUMP => Ok("jbe"),
        InstructionType::JP_JUMP => Ok("jp"),
        InstructionType::JO_JUMP => Ok("jo"),
        InstructionType::JS_JUMP => Ok("js"),
        InstructionType::JNE_JUMP => Ok("jnz"),
        InstructionType::JNL_JUMP => Ok("jnl"),
        InstructionType::JNLE_JUMP => Ok("jg"),
        InstructionType::JNB_JUMP => Ok("jnb"),
        InstructionType::JNBE_JUMP => Ok("ja"),
        InstructionType::JNP_JUMP => Ok("jnp"),
        InstructionType::JNO_JUMP => Ok("jno"),
        InstructionType::JNS => Ok("jns"),
        InstructionType::LOOP => Ok("loop"),
        InstructionType::LOOPZ => Ok("loopz"),
        InstructionType::LOOPNZ => Ok("loopnz"),
        InstructionType::JCXZ => Ok("jcxz"),
        InstructionType::ImmediateToRegisterMOV => Ok("mov"),
        InstructionType::ImmediateToAccumulatorSUB => Ok("sub"),
        InstructionType::ImmediateToAccumulatorCMP => Ok("cmp"),
        InstructionType::ImmediateToAccumulatorADD => Ok("add"),
        InstructionType::RegisterMemory => {
            if first_byte <= 0x03 {
                Ok("add")
            } else if 0x28 <= first_byte <= 0x2B {
                Ok("sub")
            } else if 0x38 <= first_byte <= 0x3B {
                Ok("cmp")
            } else if 0x88 <= first_byte <= 0x8B {
                Ok("mov")
            } else {
                Err(DecodeError::InvariantViolation)
            }
        },
        InstructionType::ImmediateToRegisterMemory => {
            let reg = spec_reg_field(second_byte);
            if 0x80 <= first_byte <= 0x83 {
                if reg == 0 {
                    Ok("add")
                } else if reg == 5 {
                    Ok("sub")
                } else if reg == 7 {
                    Ok("cmp")
                } else {
                    Err(DecodeError::InvariantViolation)
                }
            } else if (first_byte == 0xC6 || first_byte == 0xC7) && reg == 0 {
                Ok("mov")
            } else {
                Err(DecodeError::InvariantViolation)
            }
        },
    }
}

/// The mnemonic of an instruction; an invariant violation if the class has none for
/// these bytes.
pub fn get_mnemonic(first_byte: u8, second_byte: u8, inst: InstructionType) -> (r: Result<
    &'static str,
    DecodeError,
>)
    ensures
        r == mnemonic_of(first_byte, second_byte, inst),
{
    let reg = reg_field(second_byte);
    match inst {
        InstructionType::JE_JUMP => Ok("je"),
        InstructionType::JL_JUMP => Ok("jl"),
        InstructionType::JLE_JUMP => Ok("jle"),
        InstructionType::JB_JUMP => Ok("jb"),
        InstructionType::JBE_JUMP => Ok("jbe"),
        InstructionType::JP_JUMP => Ok("jp"),
        InstructionType::JO_JUMP => Ok("jo"),
        InstructionType::JS_JUMP => Ok("js"),
        InstructionType::JNE_JUMP => Ok("jnz"),
        InstructionType::JNL_JUMP => Ok("jnl"),
        InstructionType::JNLE_JUMP => Ok("jg"),
        InstructionType::JNB_JUMP => Ok("jnb"),
        InstructionType::JNBE_JUMP => Ok("ja"),
        InstructionType::JNP_JUMP => Ok("jnp"),
        InstructionType::JNO_JUMP => Ok("jno"),
        InstructionType::JNS => Ok("jns"),
        InstructionType::LOOP => Ok("loop"),
        InstructionType::LOOPZ => Ok("loopz"),
        InstructionType::LOOPNZ => Ok("loopnz"),
        InstructionType::JCXZ => Ok("jcxz"),
        InstructionType::ImmediateToRegisterMOV => Ok("mov"),
        InstructionType::ImmediateToAccumulatorSUB => Ok("sub"),
        InstructionType::ImmediateToAccumulatorCMP => Ok("cmp"),
        InstructionType::ImmediateToAccumulatorADD => Ok("add"),
        InstructionType::RegisterMemory => {
            match first_byte {
                0b00000000 | 0b00000001 | 0b00000010 | 0b00000011 => Ok("add"),
                0b00101000 | 0b00101001 | 0b00101010 | 0b00101011 => Ok("sub"),
                0b00111000 | 0b00111001 | 0b00111010 | 0b00111011 => Ok("cmp"),
                0b10001000 | 0b10001001 | 0b10001010 | 0b10001011 => Ok("mov"),
                _ => Err(DecodeError::InvariantViolation),
            }
        },
        InstructionType::ImmediateToRegisterMemory => {
            match (first_byte, reg) {
                (0b10000000, 0b101) | (0b10000001, 0b101) | (0b10000010, 0b101) | (
                    0b10000011,
                    0b101,
                ) => Ok("sub"),
                (0b10000000, 0b111) | (0b10000001, 0b111) | (0b10000010, 0b111) | (
                    0b10000011,
                    0b111,
                ) => Ok("cmp"),
                (0b10000000, 0b000) | (0b10000001, 0b000) | (0b10000010, 0b000) | (
                    0b10000011,
                    0b000,
                ) => Ok("add"),
                (0b11000110, 0b000) | (0b11000111, 0b000) => Ok("mov"),
                _ => Err(DecodeError::InvariantViolation),
            }
        },
    }
}

/// The `mov` of an immediate to a register carries its immediate where R/M would stand.
pub open spec fn has_immediate_in_rm(instruction: InstructionType) -> bool {
    instruction == InstructionType::ImmediateToRegisterMOV
}

/// Immediates to a register or memory and to the accumulator carry the immediate where
/// REG would stand.
pub open spec fn has_immediate_in_reg(instruction: InstructionType) -> bool {
    instruction == InstructionType::ImmediateToRegisterMemory || is_accumulator_class(instruction)
}

/// Whether the immediate stands where R/M would.
pub fn instruction_has_immediate_value_in_rm_register(instruction: InstructionType) -> (r: bool)
    ensures
        r == has_immediate_in_rm(instruction),
{
    instruction == InstructionType::ImmediateToRegisterMOV
}

/// Whether the immediate stands where REG would.
pub fn instruction_has_immediate_value_in_reg_register(instruction: InstructionType) -> (r: bool)
    ensures
        r == has_immediate_in_reg(instruction),
{
    instruction == InstructionType::ImmediateToRegisterMemory || instruction
        == InstructionType::ImmediateToAccumulatorADD || instruction
        == InstructionType::ImmediateToAccumulatorSUB || instruction
        == InstructionType::ImmediateToAccumulatorCMP
}

/// The immediate that stands at index `at`: one byte, or two with the low byte first.
pub open spec fn operand_immediate(bytes: Seq<u8>, at: int, wide: bool) -> Value {
    if wide {
        value_of(ValueEnum::WordSize(spec_combine_bytes(bytes[at + 1], bytes[at])))
    } else {
        value_of(ValueEnum::ByteSize(bytes[at]))
    }
}

/// The immediate at index `at`, if the buffer holds all of it.
pub open spec fn immediate_at(bytes: Seq<u8>, at: int, wide: bool) -> Result<Value, DecodeError> {
    if at + (if wide {
        2int
    } else {
        1int
    }) > bytes.len() {
        Err(DecodeError::OutOfBounds)
    } else {
        Ok(operand_immediate(bytes, at, wide))
    }
}

fn read_immediate(binary_contents: &Vec<u8>, instruction_pointer: usize, offset: usize, wide: bool) -> (r:
    Result<Value, DecodeError>)
    requires
        offset <= 4,
    ensures
        r == immediate_at(binary_contents@, instruction_pointer + offset, wide),
{
    let needed: usize = if wide {
        offset + 2
    } else {
        offset + 1
    };
    if instruction_pointer > binary_contents.len() || binary_contents.len() - instruction_pointer
        < needed {
        return Err(DecodeError::OutOfBounds);
    }
    let low = binary_contents[instruction_pointer + offset];
    if wide {
        let high = binary_contents[instruction_pointer + offset + 1];
        Ok(Value::new(ValueEnum::WordSize(combine_bytes(high, low))))
    } else {
        Ok(Value::new(ValueEnum::ByteSize(low)))
    }
}

/// The immediate of a `mov` to a register: it follows the first byte.
pub open spec fn rm_immediate_of(
    instruction: InstructionType,
    is_word_size: bool,
    instruction_pointer: int,
    bytes: Seq<u8>,
) -> Result<Value, DecodeError> {
    if instruction == InstructionType::ImmediateToRegisterMOV {
        immediate_at(bytes, instruction_pointer + 1, is_word_size)
    } else {
        Err(DecodeError::InvariantViolation)
    }
}

/// Reads the immediate of a `mov` to a register. Any other class is an invariant violation.
pub fn get_immediate_from_rm_register(
    instruction: InstructionType,
    is_word_size: bool,
    instruction_pointer: usize,
    binary_contents: &Vec<u8>,
) -> (r: Result<Value, DecodeError>)
    ensures
        r == rm_immediate_of(instruction, is_word_size, instruction_pointer as int, binary_contents@),
{
    if instruction == InstructionType::ImmediateToRegisterMOV {
        read_immediate(binary_contents, instruction_pointer, 1, is_word_size)
    } else {
        Err(DecodeError::InvariantViolation)
    }
}

/// The immediate of an instruction that carries it where REG would stand. It follows the
/// displacement of an immediate to a register or memory, and the first byte of an
/// immediate to the accumulator.
pub open spec fn reg_immediate_of(
    mnemonic: Seq<char>,
    instruction: InstructionType,
    is_s_bit_set: bool,
    is_word_size: bool,
    memory_mode: MemoryModeEnum,
    instruction_pointer: int,
    bytes: Seq<u8>,
) -> Result<Value, DecodeError> {
    if instruction == InstructionType::ImmediateToRegisterMemory {
        if is_arithmetic_mnemonic(mnemonic) {
            immediate_at(
                bytes,
                instruction_pointer + 2 + displacement_len(memory_mode),
                immediate_is_word(mnemonic, is_word_size, is_s_bit_set),
            )
        } else {
            Err(DecodeError::InvariantViolation)
        }
    } else if is_accumulator_class(instruction) {
        immediate_at(bytes, instruction_pointer + 1, is_word_size)
    } else {
        Err(DecodeError::InvariantViolation)
    }
}

/// Reads the immediate of an immediate to a register or memory or to the accumulator.
/// Any other class, and a mnemonic other than `mov`, `add`, `sub`, `cmp`, is an invariant
/// violation.
pub fn get_immediate_from_reg_register(
    mnemonic: &str,
    instruction: InstructionType,
    is_s_bit_set: bool,
    is_word_size: bool,
    memory_mode: MemoryModeEnum,
    instruction_pointer: usize,
    binary_contents: &Vec<u8>,
) -> (r: Result<Value, DecodeError>)
    ensures
        r == reg_immediate_of(
            mnemonic@,
            instruction,
            is_s_bit_set,
            is_word_size,
            memory_mode,
            instruction_pointer as int,
            binary_contents@,
        ),
{
    if instruction == InstructionType::ImmediateToRegisterMemory {
        let offset: usize = match memory_mode {
            MemoryModeEnum::MemoryMode8Bit => 3,
            MemoryModeEnum::MemoryMode16Bit | MemoryModeEnum::DirectMemoryOperation => 4,
            _ => 2,
        };
        if str_eq(mnemonic, "mov") {
            read_immediate(binary_contents, instruction_pointer, offset, is_word_size)
        } else if str_eq(mnemonic, "cmp") || str_eq(mnemonic, "add") || str_eq(mnemonic, "sub") {
            read_immediate(
                binary_contents,
                instruction_pointer,
                offset,
                is_word_size && !is_s_bit_set,
            )
        } else {
            Err(DecodeError::InvariantViolation)
        }
    } else if instruction == InstructionType::ImmediateToAccumulatorADD || instruction
        == InstructionType::ImmediateToAccumulatorSUB || instruction
        == InstructionType::ImmediateToAccumulatorCMP {
        read_immediate(binary_contents, instruction_pointer, 1, is_word_size)
    } else {
        Err(DecodeError::InvariantViolation)
    }
}

/// One decoded instruction.
#[derive(Clone, Copy, Debug, PartialEq, Eq)]
pub struct DecodedInstruction {
    /// The class that the first byte selects.
    pub instruction: InstructionType,
    pub mnemonic: &'static str,
    /// How the R/M operand is addressed; register mode for the classes without a MOD field.
    pub memory_mode: MemoryModeEnum,
    /// Whether the operands have 16 bits.
    pub is_word_size: bool,
    /// Bit 1 of the first byte of an immediate to a register or memory. For `add`, `sub`
    /// and `cmp` it is the sign-extend bit: with 16-bit operands the immediate is stored
    /// in 8 bits and widened when it is used. For `mov` it says nothing.
    pub is_s_bit_set: bool,
    /// Whether `reg_register` is the destination; else the R/M operand is.
    pub reg_is_dest: bool,
    /// The register of the REG field; empty where the instruction has none.
    pub reg_register: &'static str,
    /// The immediate of an instruction that carries it where REG would stand.
    pub reg_immediate: Value,
    /// The register or the base expression of the R/M operand; empty for a direct address
    /// and where the instruction has no such operand.
    pub rm_register: &'static str,
    /// The immediate of a `mov` to a register.
    pub rm_immediate: Value,
    /// The displacement of a memory operand; for a jump, its offset byte.
    pub displacement: usize,
    /// The length of the instruction in bytes.
    pub instruction_size: usize,
}

/// The addressing mode of an instruction: that of the second byte where the class has a
/// MOD field, register mode where it has none.
pub open spec fn memory_mode_for(inst: InstructionType, second_byte: u8) -> MemoryModeEnum {
    if has_mod_field(inst) {
        memory_mode_of(second_byte)
    } else {
        MemoryModeEnum::RegisterMode
    }
}

/// Bit 1 of the first byte, for the one class in which it can be the sign-extend bit.
pub open spec fn s_bit_for(inst: InstructionType, first_byte: u8) -> bool {
    inst == InstructionType::ImmediateToRegisterMemory && spec_direction_bit(first_byte)
}

/// Whether the register of the REG field is the destination: by the direction bit
/// between a register and a register or memory, always for a `mov` of an immediate to the
/// register of its first byte, and never for the other classes.
pub open spec fn reg_is_dest_for(inst: InstructionType, first_byte: u8) -> bool {
    if inst == InstructionType::RegisterMemory {
        spec_direction_bit(first_byte)
    } else {
        inst == InstructionType::ImmediateToRegisterMOV
    }
}

/// The instruction that starts at `instruction_pointer`, given the class of its first byte.
/// It is out of bounds if the buffer ends before the instruction does, and an invariant
/// violation if the class has no mnemonic for these bytes.
pub open spec fn spec_decode(bytes: Seq<u8>, instruction_pointer: int, inst: InstructionType) -> Result<
    DecodedInstruction,
    DecodeError,
> {
    if instruction_pointer + 2 > bytes.len() {
        Err(DecodeError::OutOfBounds)
    } else {
        let first_byte = bytes[instruction_pointer];
        let second_byte = bytes[instruction_pointer + 1];
        match mnemonic_of(first_byte, second_byte, inst) {
            Err(e) => Err(e),
            Ok(mnemonic) => {
                let is_word_size = spec_is_word_size(first_byte, inst);
                let memory_mode = memory_mode_for(inst, second_byte);
                let is_s_bit_set = s_bit_for(inst, first_byte);
                match instruction_byte_size(
                    inst,
                    is_word_size,
                    memory_mode,
                    mnemonic@,
                    is_s_bit_set,
                ) {
                    Err(e) => Err(e),
                    Ok(size) => if instruction_pointer + size > bytes.len() {
                        Err(DecodeError::OutOfBounds)
                    } else {
                        Ok(
                            DecodedInstruction {
                                instruction: inst,
                                mnemonic: mnemonic,
                                memory_mode: memory_mode,
                                is_word_size: is_word_size,
                                is_s_bit_set: is_s_bit_set,
                                reg_is_dest: reg_is_dest_for(inst, first_byte),
                                reg_register: if has_immediate_in_reg(inst) {
                                    ""
                                } else {
                                    register_of(
                                        true,
                                        inst,
                                        memory_mode,
                                        first_byte,
                                        second_byte,
                                        is_word_size,
                                    )->Ok_0
                                },
                                reg_immediate: if inst
                                    == InstructionType::ImmediateToRegisterMemory {
                                    operand_immediate(
                                        bytes,
                                        instruction_pointer + 2 + displacement_len(memory_mode),
                                        immediate_is_word(mnemonic@, is_word_size, is_s_bit_set),
                                    )
                                } else if is_accumulator_class(inst) {
                                    operand_immediate(bytes, instruction_pointer + 1, is_word_size)
                                } else {
                                    no_value()
                                },
                                rm_register: if has_immediate_in_rm(inst) {
                                    ""
                                } else {
                                    register_of(
                                        false,
                                        inst,
                                        memory_mode,
                                        first_byte,
                                        second_byte,
                                        is_word_size,
                                    )->Ok_0
                                },
                                rm_immediate: if has_immediate_in_rm(inst) {
                                    operand_immediate(bytes, instruction_pointer + 1, is_word_size)
                                } else {
                                    no_value()
                                },
                                displacement: if is_jump_class(inst) {
                                    second_byte as usize
                                } else if has_mod_field(inst) && memory_mode
                                    != MemoryModeEnum::RegisterMode {
                                    displacement_of(bytes, instruction_pointer, memory_mode)->Ok_0
                                } else {
                                    0
                                },
                                instruction_size: size,
                            },
                        )
                    },
                }
            },
        }
    }
}

/// Decodes the instruction that starts at `instruction_pointer`, given the class
/// `instruction` of its first byte. Nothing but the buffer is read.
pub fn decode(binary_contents: &Vec<u8>, instruction_pointer: usize, instruction: InstructionType) -> (r:
    Result<DecodedInstruction, DecodeError>)
    ensures
        r == spec_decode(binary_contents@, instruction_pointer as int, instruction),
{
    if instruction_pointer > binary_contents.len() || binary_contents.len() - instruction_pointer
        < 2 {
        return Err(DecodeError::OutOfBounds);
    }
    let first_byte = binary_contents[instruction_pointer];
    let second_byte = binary_contents[instruction_pointer + 1];

    let mnemonic = get_mnemonic(first_byte, second_byte, instruction)?;
    let is_word_size = is_word_size(first_byte, instruction);
    let has_mod = instruction == InstructionType::RegisterMemory || instruction
        == InstructionType::ImmediateToRegisterMemory;
    let memory_mode = if has_mod {
        determine_memory_mode(second_byte)
    } else {
        MemoryModeEnum::RegisterMode
    };
    let is_s_bit_set = instruction == InstructionType::ImmediateToRegisterMemory && sign_bit(
        first_byte,
    );
    let instruction_size = determine_instruction_byte_size(
        instruction,
        is_word_size,
        memory_mode,
        mnemonic,
        is_s_bit_set,
    )?;
    if binary_contents.len() - instruction_pointer < instruction_size {
        return Err(DecodeError::OutOfBounds);
    }
    let reg_is_dest = if instruction == InstructionType::RegisterMemory {
        direction_bit(first_byte)
    } else {
        instruction == InstructionType::ImmediateToRegisterMOV
    };

    let mut reg_register: &'static str = "";
    let mut reg_immediate = Value { value: ValueEnum::Uninitialized, is_signed: false };
    let mut rm_register: &'static str = "";
    let mut rm_immediate = Value { value: ValueEnum::Uninitialized, is_signed: false };

    if instruction_has_immediate_value_in_reg_register(instruction) {
        reg_immediate =
        get_immediate_from_reg_register(
            mnemonic,
            instruction,
            is_s_bit_set,
            is_word_size,
            memory_mode,
            instruction_pointer,
            binary_contents,
        )?;
    } else {
        reg_register =
        get_register(true, instruction, memory_mode, first_byte, second_byte, is_word_size)?;
    }

    if instruction_has_immediate_value_in_rm_register(instruction) {
        rm_immediate =
        get_immediate_from_rm_register(
            instruction,
            is_word_size,
            instruction_pointer,
            binary_contents,
        )?;
    } else {
        rm_register =
        get_register(false, instruction, memory_mode, first_byte, second_byte, is_word_size)?;
    }

    let displacement = if instruction_is_conditional_jump(instruction) {
        second_byte as usize
    } else if has_mod && memory_mode != MemoryModeEnum::RegisterMode {
        get_displacement(binary_contents, instruction_pointer, memory_mode)?
    } else {
        0
    };

    Ok(
        DecodedInstruction {
            instruction,
            mnemonic,
            memory_mode,
            is_word_size,
            is_s_bit_set,
            reg_is_dest,
            reg_register,
            reg_immediate,
            rm_register,
            rm_immediate,
            displacement,
            instruction_size,
        },
    )
}

/// The instruction that starts at `cursor`: its class is looked up in the opcode table by
/// its first byte, then the instruction is decoded. A cursor at or past the end of the
/// buffer is out of bounds, and a first byte that the table does not hold is an
/// unsupported opcode.
pub open spec fn spec_decode_at(table: Seq<OpCode>, bytes: Seq<u8>, cursor: int) -> Result<
    DecodedInstruction,
    DecodeError,
> {
    if cursor >= bytes.len() {
        Err(DecodeError::OutOfBounds)
    } else {
        match first_match(table, bytes[cursor], 0) {
            None => Err(DecodeError::UnsupportedOpcode),
            Some(inst) => spec_decode(bytes, cursor, inst),
        }
    }
}

/// Classifies and decodes the instruction that starts at `cursor`.
pub fn decode_at(op_codes: &Vec<OpCode>, binary_contents: &Vec<u8>, cursor: usize) -> (r: Result<
    DecodedInstruction,
    DecodeError,
>)
    ensures
        r == spec_decode_at(op_codes@, binary_contents@, cursor as int),
{
    if cursor >= binary_contents.len() {
        return Err(DecodeError::OutOfBounds);
    }
    let instruction = determine_instruction(op_codes, binary_contents[cursor])?;
    decode(binary_contents, cursor, instruction)
}

/// With the opcode table of this library, the class of an instruction is the one that
/// `classify` gives its first byte.
pub proof fn lemma_decode_at_classifies(bytes: Seq<u8>, cursor: int)
    requires
        0 <= cursor < bytes.len(),
    ensures
        spec_decode_at(opcode_table(), bytes, cursor) == match classify(bytes[cursor]) {
            None => Err::<DecodedInstruction, DecodeError>(DecodeError::UnsupportedOpcode),
            Some(inst) => spec_decode(bytes, cursor, inst),
        },
{
    lemma_opcode_table_classifies();
}

/// A decoded instruction is two to six bytes long and ends within the buffer, so the
/// cursor moves forward past it; and it is decoded from its own bytes alone: the same
/// bytes at any place of any buffer decode to the same instruction.
pub proof fn lemma_decode_stays_within_length(
    bytes: Seq<u8>,
    instruction_pointer: int,
    inst: InstructionType,
    other: Seq<u8>,
    other_pointer: int,
)
    requires
        0 <= instruction_pointer,
        0 <= other_pointer,
        spec_decode(bytes, instruction_pointer, inst) is Ok,
        ({
            let size = spec_decode(bytes, instruction_pointer, inst)->Ok_0.instruction_size;
            &&& other_pointer + size <= other.len()
            &&& other.subrange(other_pointer, other_pointer + size) == bytes.subrange(
                instruction_pointer,
                instruction_pointer + size,
            )
        }),
    ensures
        2 <= spec_decode(bytes, instruction_pointer, inst)->Ok_0.instruction_size <= 6,
        instruction_pointer + spec_decode(bytes, instruction_pointer, inst)->Ok_0.instruction_size
            <= bytes.len(),
        spec_decode(other, other_pointer, inst) == spec_decode(bytes, instruction_pointer, inst),
{
    let d = spec_decode(bytes, instruction_pointer, inst)->Ok_0;
    let size = d.instruction_size as int;
    let a = bytes.subrange(instruction_pointer, instruction_pointer + size);
    let b = other.subrange(other_pointer, other_pointer + size);
    if 0 < size {
        assert(a[0] == bytes[instruction_pointer + 0]);
        assert(b[0] == other[other_pointer + 0]);
    }
    if 1 < size {
        assert(a[1] == bytes[instruction_pointer + 1]);
        assert(b[1] == other[other_pointer + 1]);
    }
    if 2 < size {
        assert(a[2] == bytes[instruction_pointer + 2]);
        assert(b[2] == other[other_pointer + 2]);
    }
    if 3 < size {
        assert(a[3] == bytes[instruction_pointer + 3]);
        assert(b[3] == other[other_pointer + 3]);
    }
    if 4 < size {
        assert(a[4] == bytes[instruction_pointer + 4]);
        assert(b[4] == other[other_pointer + 4]);
    }
    if 5 < size {
        assert(a[5] == bytes[instruction_pointer + 5]);
        assert(b[5] == other[other_pointer + 5]);
    }
}

/// Decoding depends on nothing but the bytes from the cursor on: two buffers that agree
/// from their cursors on decode alike, to the same instruction or to the same error.
pub proof fn lemma_decode_same_slice(
    bytes: Seq<u8>,
    instruction_pointer: int,
    other: Seq<u8>,
    other_pointer: int,
    inst: InstructionType,
)
    requires
        0 <= instruction_pointer <= bytes.len(),
        0 <= other_pointer <= other.len(),
        bytes.skip(instruction_pointer) == other.skip(other_pointer),
    ensures
        spec_decode(bytes, instruction_pointer, inst) == spec_decode(other, other_pointer, inst),
{
    let a = bytes.skip(instruction_pointer);
    let b = other.skip(other_pointer);
    assert(a.len() == b.len());
    if 0 < a.len() {
        assert(a[0] == bytes[instruction_pointer + 0]);
        assert(b[0] == other[other_pointer + 0]);
    }
    if 1 < a.len() {
        assert(a[1] == bytes[instruction_pointer + 1]);
        assert(b[1] == other[other_pointer + 1]);
    }
    if 2 < a.len() {
        assert(a[2] == bytes[instruction_pointer + 2]);
        assert(b[2] == other[other_pointer + 2]);
    }
    if 3 < a.len() {
        assert(a[3] == bytes[instruction_pointer + 3]);
        assert(b[3] == other[other_pointer + 3]);
    }
    if 4 < a.len() {
        assert(a[4] == bytes[instruction_pointer + 4]);
        assert(b[4] == other[other_pointer + 4]);
    }
    if 5 < a.len() {
        assert(a[5] == bytes[instruction_pointer + 5]);
        assert(b[5] == other[other_pointer + 5]);
    }
}

/// An instruction with a MOD field whose second byte has MOD 00 and R/M 110 addresses
/// memory directly: it has no base register, and its two displacement bytes are the address.
pub proof fn lemma_decode_direct_address(bytes: Seq<u8>, instruction_pointer: int, inst: InstructionType)
    requires
        0 <= instruction_pointer,
        has_mod_field(inst),
        spec_decode(bytes, instruction_pointer, inst) is Ok,
        spec_mod_field(bytes[instruction_pointer + 1]) == 0,
        spec_rm_field(bytes[instruction_pointer + 1]) == 6,
    ensures
        spec_decode(bytes, instruction_pointer, inst)->Ok_0.memory_mode
            == MemoryModeEnum::DirectMemoryOperation,
        spec_decode(bytes, instruction_pointer, inst)->Ok_0.rm_register == "",
        spec_decode(bytes, instruction_pointer, inst)->Ok_0.displacement == bytes[instruction_pointer
            + 3] * 256 + bytes[instruction_pointer + 2],
{
}

/// The immediates of a decoded instruction carry the sign of their bits.
pub proof fn lemma_decoded_immediates_well_formed(
    bytes: Seq<u8>,
    instruction_pointer: int,
    inst: InstructionType,
)
    requires
        spec_decode(bytes, instruction_pointer, inst) is Ok,
    ensures
        spec_decode(bytes, instruction_pointer, inst)->Ok_0.reg_immediate.wf(),
        spec_decode(bytes, instruction_pointer, inst)->Ok_0.rm_immediate.wf(),
{
}

} // verus!
