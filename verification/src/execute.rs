use vstd::prelude::*;
use vstd::string::*;
use crate::bits::{
    has_mod_field, instruction_is_conditional_jump, instruction_uses_memory, is_accumulator_class,
    is_jump_class, uses_memory, InstructionType, MemoryModeEnum,
};
use crate::decode::{
    decode, lemma_decode_stays_within_length, spec_decode, DecodedInstruction,
};
use crate::errors::ExecError;
use crate::flag_registers::{
    clear_flags_registers, flag_register_is_set, flag_state, flags_after, flags_cleared,
    get_all_currently_set_flags, has_both_flags, lemma_flags_follow_result,
    lemma_flags_stay_present, lemma_highest_bit_of_fitting_value,
    lemma_no_names_of_cleared_flags, set_flag_names, set_flags, FlagRegister,
};
use crate::format::{format_instruction, instruction_text};
use crate::memory::{
    held_value, last_cell, load_memory_contents_as_decimal_and_optionally_update_original_value,
    load_result, memory_after_load, memory_after_store, memory_struct, read_held_value,
    store_memory_value,
};
use crate::registers::{
    find_register, get_register_state, lemma_find_register_in_range,
    lemma_registers_stay_well_formed, lemma_update_keeps_names, no_value,
    register_contains_multiple_registers, register_state, registers_after_commit,
    registers_after_update, registers_wf, update_original_register_value,
    update_register_value, value_of, Register, Value, ValueEnum,
};
use crate::text::{
    contains_char, find_separator, is_composite, separator_index, str_eq, trimmed, trimmed_part,
};

verus! {

/// The two registers of a composite name such as `bx + si`: the names before and after
/// the first `+` or `-`, without the white space around them. What follows a second
/// separator is not read.
pub open spec fn split_registers(registers: Seq<Register>, name: Seq<char>) -> Result<
    (Register, Register),
    ExecError,
> {
    let first_end = separator_index(name, 0);
    if first_end >= name.len() {
        Err(ExecError::NotComposite)
    } else {
        let second_end = separator_index(name, first_end + 1);
        match register_state(registers, trimmed(name, 0, first_end)) {
            Err(e) => Err(e),
            Ok(first) => match register_state(
                registers,
                trimmed(name, first_end + 1, second_end),
            ) {
                Err(e) => Err(e),
                Ok(second) => Ok((first, second)),
            },
        }
    }
}

/// Looks up the two registers of a composite name such as `bx + si`.
pub fn get_registers_from_multiple_register(registers: &Vec<Register>, rm_register: &str) -> (r:
    Result<(Register, Register), ExecError>)
    ensures
        r == split_registers(registers@, rm_register@),
{
    let len = rm_register.unicode_len();
    let first_end = find_separator(rm_register, 0);
    if first_end >= len {
        return Err(ExecError::NotComposite);
    }
    let second_end = find_separator(rm_register, first_end + 1);
    let first = get_register_state(trimmed_part(rm_register, 0, first_end), registers)?;
    let second = get_register_state(
        trimmed_part(rm_register, first_end + 1, second_end),
        registers,
    )?;
    Ok((first, second))
}

/// The value of a composite name: the sum of its two registers if the name holds a
/// `+`, else their difference, in the width of the first register.
pub open spec fn combined_value(registers: Seq<Register>, name: Seq<char>) -> Result<
    Value,
    ExecError,
> {
    match split_registers(registers, name) {
        Err(e) => Err(e),
        Ok(pair) => if name.contains('+') {
            Ok(pair.0.updated_value.spec_wrap_add(pair.1.updated_value.value))
        } else {
            Ok(pair.0.updated_value.spec_wrap_sub(pair.1.updated_value.value))
        },
    }
}

/// The sum or the difference of the two registers of a composite name.
pub fn combine_register_containing_multiple_registers(
    registers: &Vec<Register>,
    rm_register_with_multiple_registers: &str,
) -> (r: Result<Value, ExecError>)
    ensures
        r == combined_value(registers@, rm_register_with_multiple_registers@),
{
    let (first_register, second_register) = get_registers_from_multiple_register(
        registers,
        rm_register_with_multiple_registers,
    )?;
    if contains_char(rm_register_with_multiple_registers, '+') {
        Ok(
            first_register.updated_value.wrap_add_and_return_result(
                second_register.updated_value.value,
            ),
        )
    } else {
        Ok(
            first_register.updated_value.wrap_sub_and_return_result(
                second_register.updated_value.value,
            ),
        )
    }
}

/// The offset byte of a jump, read as a signed number.
pub open spec fn signed_offset(second_byte: u8) -> int {
    if second_byte >= 128 {
        second_byte - 256
    } else {
        second_byte as int
    }
}

/// Whether a jump is taken. `je`, `jle` and `jbe` go by a set zero flag, `jnz` by a
/// clear one, `js` by a set sign flag and `jns` by a clear one. No other class jumps.
pub open spec fn jump_condition(flags: Seq<FlagRegister>, instruction: InstructionType) -> Result<
    bool,
    ExecError,
> {
    match instruction {
        InstructionType::JE_JUMP | InstructionType::JLE_JUMP | InstructionType::JBE_JUMP => flag_state(
            flags,
            "ZF"@,
        ),
        InstructionType::JS_JUMP => flag_state(flags, "SF"@),
        InstructionType::JNE_JUMP => match flag_state(flags, "ZF"@) {
            Ok(set) => Ok(!set),
            Err(e) => Err(e),
        },
        InstructionType::JNS => match flag_state(flags, "SF"@) {
            Ok(set) => Ok(!set),
            Err(e) => Err(e),
        },
        _ => Ok(false),
    }
}

/// Where the instruction pointer stands after a jump: past the instruction, and for a
/// taken jump further by the signed offset.
pub open spec fn pointer_after_jump(
    instruction_pointer: int,
    instruction_size: int,
    second_byte: u8,
    taken: bool,
) -> Result<usize, ExecError> {
    let target = if taken {
        instruction_pointer + instruction_size + signed_offset(second_byte)
    } else {
        instruction_pointer + instruction_size
    };
    if 0 <= target <= usize::MAX {
        Ok(target as usize)
    } else {
        Err(ExecError::JumpOutOfBounds)
    }
}

/// The instruction pointer after the jump instruction: the target of
/// `pointer_after_jump` for the outcome of `jump_condition`.
pub open spec fn jump_result(
    flags: Seq<FlagRegister>,
    instruction_size: int,
    instruction_pointer: int,
    second_byte: u8,
    instruction: InstructionType,
) -> Result<usize, ExecError> {
    match jump_condition(flags, instruction) {
        Err(e) => Err(e),
        Ok(taken) => pointer_after_jump(instruction_pointer, instruction_size, second_byte, taken),
    }
}

/// Moves the instruction pointer past a jump instruction, or to its target if the jump
/// is taken. On an error the pointer is unchanged.
pub fn perform_conditional_jump(
    flag_registers: &[FlagRegister; 2],
    instruction_size: usize,
    instruction_pointer: &mut usize,
    second_byte: u8,
    instruction: InstructionType,
) -> (r: Result<(), ExecError>)
    ensures
        match jump_result(
            flag_registers@,
            instruction_size as int,
            *old(instruction_pointer) as int,
            second_byte,
            instruction,
        ) {
            Ok(pointer) => r is Ok && *final(instruction_pointer) == pointer,
            Err(e) => r == Err::<(), ExecError>(e) && *final(instruction_pointer) == *old(
                instruction_pointer,
            ),
        },
{
    let jump_happens = match instruction {
        InstructionType::JE_JUMP | InstructionType::JLE_JUMP | InstructionType::JBE_JUMP => {
            flag_register_is_set("ZF", flag_registers.as_slice())?
        },
        InstructionType::JS_JUMP => flag_register_is_set("SF", flag_registers.as_slice())?,
        InstructionType::JNE_JUMP => !flag_register_is_set("ZF", flag_registers.as_slice())?,
        InstructionType::JNS => !flag_register_is_set("SF", flag_registers.as_slice())?,
        _ => false,
    };
    let offset: i128 = if !jump_happens {
        0
    } else if second_byte >= 128 {
        second_byte as i128 - 256
    } else {
        second_byte as i128
    };
    let target: i128 = *instruction_pointer as i128 + instruction_size as i128 + offset;
    if target < 0 || target > usize::MAX as i128 {
        return Err(ExecError::JumpOutOfBounds);
    }
    *instruction_pointer = target as usize;
    Ok(())
}

/// The machine as the contracts see it.
pub struct Machine {
    pub registers: Seq<Register>,
    pub flags: Seq<FlagRegister>,
    pub memory: Seq<memory_struct>,
    pub instruction_pointer: int,
}

/// What one instruction does: the machine after it, and what its destination held
/// before and holds after.
pub struct Step {
    pub machine: Machine,
    pub original_value: Value,
    pub updated_value: Value,
}

/// Whether the instruction writes to memory: its R/M operand lies in memory and is the
/// destination.
pub open spec fn destination_is_memory(d: DecodedInstruction) -> bool {
    has_mod_field(d.instruction) && uses_memory(d.memory_mode) && !d.reg_is_dest
}

/// The name of the destination register of an instruction that writes to a register.
pub open spec fn destination_register(d: DecodedInstruction) -> &'static str {
    if d.reg_is_dest {
        d.reg_register
    } else {
        d.rm_register
    }
}

/// The displacement that counts for the address: that of the modes that have one.
pub open spec fn operand_displacement(d: DecodedInstruction) -> usize {
    match d.memory_mode {
        MemoryModeEnum::MemoryMode8Bit
        | MemoryModeEnum::MemoryMode16Bit
        | MemoryModeEnum::DirectMemoryOperation => d.displacement,
        _ => 0,
    }
}

/// The base of the address of the memory operand: nothing for a direct address, else the
/// contents of the base register or of the two registers of a composite base.
pub open spec fn base_address(registers: Seq<Register>, d: DecodedInstruction) -> Result<
    usize,
    ExecError,
> {
    if d.memory_mode == MemoryModeEnum::DirectMemoryOperation {
        Ok(0usize)
    } else if is_composite(d.rm_register@) {
        match combined_value(registers, d.rm_register@) {
            Ok(v) => Ok(v.value.spec_get_usize()),
            Err(e) => Err(e),
        }
    } else {
        match register_state(registers, d.rm_register@) {
            Ok(r) => Ok(r.updated_value.value.spec_get_usize()),
            Err(e) => Err(e),
        }
    }
}

/// An 8-bit immediate of a 16-bit operation, widened with its sign; any other value as
/// it is.
pub open spec fn sign_extended(value: ValueEnum, is_word_size: bool) -> ValueEnum {
    match value {
        ValueEnum::ByteSize(val) => if is_word_size {
            if val >= 0x80 {
                ValueEnum::WordSize((0xFF00 + val) as u16)
            } else {
                ValueEnum::WordSize(val as u16)
            }
        } else {
            value
        },
        _ => value,
    }
}

/// The contents of the register `name` as they were when the last instruction had
/// finished.
pub open spec fn register_source(registers: Seq<Register>, name: Seq<char>) -> Result<
    ValueEnum,
    ExecError,
> {
    match register_state(registers, name) {
        Ok(r) => Ok(r.original_value.value),
        Err(e) => Err(e),
    }
}

/// The source operand of an instruction: its immediate, a register, or the memory
/// operand as it was when it was last reported.
pub open spec fn source_value(
    d: DecodedInstruction,
    registers: Seq<Register>,
    memory: Seq<memory_struct>,
) -> Result<ValueEnum, ExecError> {
    if d.instruction == InstructionType::ImmediateToRegisterMOV {
        Ok(d.rm_immediate.value)
    } else if is_accumulator_class(d.instruction) {
        Ok(d.reg_immediate.value)
    } else if d.instruction == InstructionType::ImmediateToRegisterMemory {
        Ok(sign_extended(d.reg_immediate.value, d.is_word_size))
    } else if d.instruction == InstructionType::RegisterMemory {
        if !d.reg_is_dest {
            register_source(registers, d.reg_register@)
        } else if uses_memory(d.memory_mode) {
            match base_address(registers, d) {
                Err(e) => Err(e),
                Ok(base) => match load_result(
                    memory,
                    d.memory_mode,
                    base as int,
                    operand_displacement(d) as int,
                    d.is_word_size,
                ) {
                    Err(e) => Err(e),
                    Ok(contents) => Ok(contents.original_value.value),
                },
            }
        } else {
            register_source(registers, d.rm_register@)
        }
    } else {
        Ok(ValueEnum::Uninitialized)
    }
}

/// The flags after an instruction with the given result: all clear after a `mov`, else
/// derived from the result in its own width.
pub open spec fn flags_for(flags: Seq<FlagRegister>, mnemonic: Seq<char>, result: ValueEnum) -> Seq<
    FlagRegister,
> {
    if mnemonic == "mov"@ {
        flags_cleared(flags)
    } else {
        flags_after(flags, result.spec_get_usize() as i64, result is WordSize)
    }
}

/// After an instruction other than `mov`, the zero flag is set if and only if the stored
/// bits of the result are 0, and the sign flag if and only if bit 7 of an 8-bit result or
/// bit 15 of a 16-bit result is set.
pub proof fn lemma_flags_of_result(flags: Seq<FlagRegister>, mnemonic: Seq<char>, result: ValueEnum)
    requires
        has_both_flags(flags),
        mnemonic != "mov"@,
    ensures
        flag_state(flags_for(flags, mnemonic, result), "ZF"@) == Ok::<bool, ExecError>(
            result.spec_get_usize() == 0,
        ),
        flag_state(flags_for(flags, mnemonic, result), "SF"@) == Ok::<bool, ExecError>(
            result.spec_high_bit(),
        ),
{
    let value = result.spec_get_usize() as i64;
    lemma_flags_follow_result(flags, value, result is WordSize);
    if result is Uninitialized {
        lemma_highest_bit_of_fitting_value(0, false);
    } else {
        lemma_highest_bit_of_fitting_value(value, result is WordSize);
    }
}

/// After a `mov` no flag is set.
pub proof fn lemma_mov_clears_flags(flags: Seq<FlagRegister>, result: ValueEnum)
    ensures
        set_flag_names(flags_for(flags, "mov"@, result)) == Seq::<&'static str>::empty(),
{
    lemma_no_names_of_cleared_flags(flags);
}

/// An instruction on a register. The register takes its new value, the flags follow the
/// result (for `cmp`, the difference that is not stored), and the new value becomes the
/// one to report the next change against.
pub open spec fn step_on_register(d: DecodedInstruction, m: Machine) -> Result<Step, ExecError> {
    let name = destination_register(d)@;
    match source_value(d, m.registers, m.memory) {
        Err(e) => Err(e),
        Ok(source) => match register_state(m.registers, name) {
            Err(e) => Err(e),
            Ok(before) => if d.mnemonic@ != "mov"@ && !has_both_flags(m.flags) {
                Err(ExecError::UnknownFlag)
            } else {
                match registers_after_update(
                    m.registers,
                    name,
                    source,
                    d.instruction,
                    d.mnemonic@,
                    d.is_word_size,
                ) {
                    Err(e) => Err(e),
                    Ok(registers) => {
                        let after = register_state(registers, name)->Ok_0;
                        let result = if d.mnemonic@ == "cmp"@ {
                            before.updated_value.spec_wrap_sub(source).value
                        } else {
                            after.updated_value.value
                        };
                        Ok(
                            Step {
                                machine: Machine {
                                    registers: registers_after_commit(
                                        registers,
                                        name,
                                        after.updated_value.value,
                                    ),
                                    flags: flags_for(m.flags, d.mnemonic@, result),
                                    memory: m.memory,
                                    instruction_pointer: m.instruction_pointer
                                        + d.instruction_size,
                                },
                                original_value: after.original_value,
                                updated_value: after.updated_value,
                            },
                        )
                    },
                }
            },
        },
    }
}

/// An instruction on memory. The operand at base plus displacement takes its new
/// value, the flags follow the result (for `cmp`, the difference that is not stored), and
/// what the cells hold becomes what the next change is reported against.
pub open spec fn step_on_memory(d: DecodedInstruction, m: Machine) -> Result<Step, ExecError> {
    match base_address(m.registers, d) {
        Err(e) => Err(e),
        Ok(base) => match source_value(d, m.registers, m.memory) {
            Err(e) => Err(e),
            Ok(source) => {
                let displacement = operand_displacement(d);
                let target = base + displacement;
                if d.mnemonic@ != "mov"@ && !has_both_flags(m.flags) {
                    Err(ExecError::UnknownFlag)
                } else if last_cell(target, d.is_word_size) >= m.memory.len() {
                    Err(ExecError::MemoryOutOfBounds)
                } else {
                    match memory_after_store(
                        m.memory,
                        base as int,
                        displacement as int,
                        value_of(source),
                        d.mnemonic@,
                        d.is_word_size,
                    ) {
                        Err(e) => Err(e),
                        Ok(stored) => {
                            let contents = load_result(
                                stored,
                                d.memory_mode,
                                base as int,
                                displacement as int,
                                d.is_word_size,
                            )->Ok_0;
                            let result = if d.mnemonic@ == "cmp"@ {
                                held_value(m.memory, target, d.is_word_size).spec_wrap_sub(
                                    source,
                                ).value
                            } else {
                                contents.modified_value.value
                            };
                            Ok(
                                Step {
                                    machine: Machine {
                                        registers: m.registers,
                                        flags: flags_for(m.flags, d.mnemonic@, result),
                                        memory: memory_after_load(
                                            stored,
                                            d.memory_mode,
                                            base as int,
                                            displacement as int,
                                            d.is_word_size,
                                            true,
                                        ),
                                        instruction_pointer: m.instruction_pointer
                                            + d.instruction_size,
                                    },
                                    original_value: contents.original_value,
                                    updated_value: contents.modified_value,
                                },
                            )
                        },
                    }
                }
            },
        },
    }
}

/// A jump or loop. Only the instruction pointer moves.
pub open spec fn step_on_jump(d: DecodedInstruction, m: Machine) -> Result<Step, ExecError> {
    match jump_result(
        m.flags,
        d.instruction_size as int,
        m.instruction_pointer,
        (d.displacement % 256) as u8,
        d.instruction,
    ) {
        Err(e) => Err(e),
        Ok(pointer) => Ok(
            Step {
                machine: Machine {
                    registers: m.registers,
                    flags: m.flags,
                    memory: m.memory,
                    instruction_pointer: pointer as int,
                },
                original_value: no_value(),
                updated_value: no_value(),
            },
        ),
    }
}

/// What a decoded instruction does to the machine.
pub open spec fn spec_execute(d: DecodedInstruction, m: Machine) -> Result<Step, ExecError> {
    if is_jump_class(d.instruction) {
        step_on_jump(d, m)
    } else if destination_is_memory(d) {
        step_on_memory(d, m)
    } else {
        step_on_register(d, m)
    }
}

/// A step on a well-formed register file leaves it well formed, and the values that it
/// reports carry the sign of their bits.
pub proof fn lemma_step_keeps_values_well_formed(d: DecodedInstruction, m: Machine)
    requires
        registers_wf(m.registers),
        spec_execute(d, m) is Ok,
    ensures
        registers_wf(spec_execute(d, m)->Ok_0.machine.registers),
        spec_execute(d, m)->Ok_0.original_value.wf(),
        spec_execute(d, m)->Ok_0.updated_value.wf(),
{
    if !is_jump_class(d.instruction) && !destination_is_memory(d) {
        let name = destination_register(d)@;
        let source = source_value(d, m.registers, m.memory)->Ok_0;
        let registers = registers_after_update(
            m.registers,
            name,
            source,
            d.instruction,
            d.mnemonic@,
            d.is_word_size,
        )->Ok_0;
        lemma_registers_stay_well_formed(
            m.registers,
            name,
            source,
            d.instruction,
            d.mnemonic@,
            d.is_word_size,
        );
        let after = register_state(registers, name)->Ok_0;
        lemma_registers_stay_well_formed(
            registers,
            name,
            after.updated_value.value,
            d.instruction,
            d.mnemonic@,
            d.is_word_size,
        );
        let i = find_register(m.registers, name, 0)->0;
        lemma_find_register_in_range(m.registers, name, 0);
        lemma_update_keeps_names(m.registers, i, registers[i], name, 0);
        assert(registers =~= m.registers.update(i, registers[i]));
    }
}

/// A step on a machine with a zero flag and a sign flag leaves it with both.
pub proof fn lemma_step_keeps_flags_present(d: DecodedInstruction, m: Machine)
    requires
        has_both_flags(m.flags),
        spec_execute(d, m) is Ok,
    ensures
        has_both_flags(spec_execute(d, m)->Ok_0.machine.flags),
{
    if !is_jump_class(d.instruction) {
        assert forall|result: ValueEnum|
            has_both_flags(#[trigger] flags_for(m.flags, d.mnemonic@, result)) by {
            lemma_flags_stay_present(
                m.flags,
                result.spec_get_usize() as i64,
                result is WordSize,
            );
        }
    }
}

/// Whether a call ended as the specification of the step says: with its values and its
/// machine after success, with its error and the machine untouched after a failure.
pub open spec fn is_outcome(
    expected: Result<Step, ExecError>,
    returned: Result<(Value, Value), ExecError>,
    before: Machine,
    registers: Seq<Register>,
    flags: Seq<FlagRegister>,
    memory: Seq<memory_struct>,
    instruction_pointer: int,
) -> bool {
    match expected {
        Ok(step) => returned == Ok::<(Value, Value), ExecError>(
            (step.original_value, step.updated_value),
        ) && registers == step.machine.registers && flags == step.machine.flags && memory
            == step.machine.memory && instruction_pointer == step.machine.instruction_pointer,
        Err(e) => returned == Err::<(Value, Value), ExecError>(e) && registers == before.registers
            && flags == before.flags && memory == before.memory && instruction_pointer
            == before.instruction_pointer,
    }
}

fn base_of(d: &DecodedInstruction, registers: &Vec<Register>) -> (r: Result<usize, ExecError>)
    ensures
        r == base_address(registers@, *d),
{
    if d.memory_mode == MemoryModeEnum::DirectMemoryOperation {
        Ok(0)
    } else if register_contains_multiple_registers(d.rm_register) {
        let combined = combine_register_containing_multiple_registers(registers, d.rm_register)?;
        Ok(combined.value.get_usize())
    } else {
        let rm = get_register_state(d.rm_register, registers)?;
        Ok(rm.updated_value.value.get_usize())
    }
}

fn displacement_of_operand(d: &DecodedInstruction) -> (r: usize)
    ensures
        r == operand_displacement(*d),
{
    match d.memory_mode {
        MemoryModeEnum::MemoryMode8Bit
        | MemoryModeEnum::MemoryMode16Bit
        | MemoryModeEnum::DirectMemoryOperation => d.displacement,
        _ => 0,
    }
}

fn extend_sign(value: ValueEnum, is_word_size: bool) -> (r: ValueEnum)
    ensures
        r == sign_extended(value, is_word_size),
{
    match value {
        ValueEnum::ByteSize(val) => {
            if is_word_size {
                if val >= 0x80 {
                    ValueEnum::WordSize(0xFF00 + val as u16)
                } else {
                    ValueEnum::WordSize(val as u16)
                }
            } else {
                value
            }
        },
        _ => value,
    }
}

fn source_of(d: &DecodedInstruction, registers: &Vec<Register>, memory: &mut [memory_struct]) -> (r:
    Result<ValueEnum, ExecError>)
    ensures
        r == source_value(*d, registers@, old(memory)@),
        final(memory)@ == old(memory)@,
{
    match d.instruction {
        InstructionType::ImmediateToRegisterMOV => Ok(d.rm_immediate.value),
        InstructionType::ImmediateToAccumulatorADD
        | InstructionType::ImmediateToAccumulatorSUB
        | InstructionType::ImmediateToAccumulatorCMP => Ok(d.reg_immediate.value),
        InstructionType::ImmediateToRegisterMemory => Ok(
            extend_sign(d.reg_immediate.value, d.is_word_size),
        ),
        InstructionType::RegisterMemory => {
            if !d.reg_is_dest {
                let reg = get_register_state(d.reg_register, registers)?;
                Ok(reg.original_value.value)
            } else if instruction_uses_memory(d.memory_mode) {
                let base = base_of(d, registers)?;
                let contents =
                    load_memory_contents_as_decimal_and_optionally_update_original_value(
                    memory,
                    d.memory_mode,
                    base,
                    displacement_of_operand(d),
                    d.is_word_size,
                    false,
                )?;
                Ok(contents.original_value.value)
            } else {
                let rm = get_register_state(d.rm_register, registers)?;
                Ok(rm.original_value.value)
            }
        },
        _ => Ok(ValueEnum::Uninitialized),
    }
}

fn both_flags_present(flag_registers: &[FlagRegister; 2]) -> (r: bool)
    ensures
        r == has_both_flags(flag_registers@),
{
    flag_register_is_set("ZF", flag_registers.as_slice()).is_ok() && flag_register_is_set(
        "SF",
        flag_registers.as_slice(),
    ).is_ok()
}

fn update_flags(flag_registers: &mut [FlagRegister; 2], mnemonic: &'static str, result: ValueEnum)
    requires
        mnemonic@ != "mov"@ ==> has_both_flags(old(flag_registers)@),
    ensures
        final(flag_registers)@ == flags_for(old(flag_registers)@, mnemonic@, result),
{
    if str_eq(mnemonic, "mov") {
        clear_flags_registers(flag_registers);
    } else {
        let is_word = match result {
            ValueEnum::WordSize(_) => true,
            _ => false,
        };
        let _ = set_flags(result.get_usize() as i64, flag_registers, is_word);
    }
}

fn execute_on_register(
    d: &DecodedInstruction,
    registers: &mut Vec<Register>,
    flag_registers: &mut [FlagRegister; 2],
    memory: &mut [memory_struct],
    instruction_pointer: &mut usize,
) -> (r: Result<(Value, Value), ExecError>)
    requires
        *old(instruction_pointer) + d.instruction_size <= usize::MAX,
    ensures
        is_outcome(
            step_on_register(
                *d,
                Machine {
                    registers: old(registers)@,
                    flags: old(flag_registers)@,
                    memory: old(memory)@,
                    instruction_pointer: *old(instruction_pointer) as int,
                },
            ),
            r,
            Machine {
                registers: old(registers)@,
                flags: old(flag_registers)@,
                memory: old(memory)@,
                instruction_pointer: *old(instruction_pointer) as int,
            },
            final(registers)@,
            final(flag_registers)@,
            final(memory)@,
            *final(instruction_pointer) as int,
        ),
{
    let name: &'static str = if d.reg_is_dest {
        d.reg_register
    } else {
        d.rm_register
    };
    let source = source_of(d, registers, memory)?;
    let before = get_register_state(name, registers)?;
    if !str_eq(d.mnemonic, "mov") && !both_flags_present(flag_registers) {
        return Err(ExecError::UnknownFlag);
    }
    update_register_value(
        name,
        source,
        registers,
        d.instruction,
        d.memory_mode,
        d.mnemonic,
        d.is_word_size,
    )?;
    proof {
        let i = find_register(old(registers)@, name@, 0)->0;
        lemma_find_register_in_range(old(registers)@, name@, 0);
        lemma_update_keeps_names(old(registers)@, i, registers@[i], name@, 0);
        assert(registers@ =~= old(registers)@.update(i, registers@[i]));
    }
    let after = match get_register_state(name, registers) {
        Ok(after) => after,
        Err(e) => {
            return Err(e);
        },
    };
    let result = if str_eq(d.mnemonic, "cmp") {
        before.updated_value.wrap_sub_and_return_result(source).value
    } else {
        after.updated_value.value
    };
    update_flags(flag_registers, d.mnemonic, result);
    update_original_register_value(name, after.updated_value.value, registers);
    *instruction_pointer = *instruction_pointer + d.instruction_size;
    Ok((after.original_value, after.updated_value))
}

fn execute_on_memory(
    d: &DecodedInstruction,
    registers: &mut Vec<Register>,
    flag_registers: &mut [FlagRegister; 2],
    memory: &mut [memory_struct],
    instruction_pointer: &mut usize,
) -> (r: Result<(Value, Value), ExecError>)
    requires
        *old(instruction_pointer) + d.instruction_size <= usize::MAX,
        uses_memory(d.memory_mode),
    ensures
        is_outcome(
            step_on_memory(
                *d,
                Machine {
                    registers: old(registers)@,
                    flags: old(flag_registers)@,
                    memory: old(memory)@,
                    instruction_pointer: *old(instruction_pointer) as int,
                },
            ),
            r,
            Machine {
                registers: old(registers)@,
                flags: old(flag_registers)@,
                memory: old(memory)@,
                instruction_pointer: *old(instruction_pointer) as int,
            },
            final(registers)@,
            final(flag_registers)@,
            final(memory)@,
            *final(instruction_pointer) as int,
        ),
{
    let base = base_of(d, registers)?;
    let source = source_of(d, registers, memory)?;
    let displacement = displacement_of_operand(d);
    if !str_eq(d.mnemonic, "mov") && !both_flags_present(flag_registers) {
        return Err(ExecError::UnknownFlag);
    }
    let len = memory.len();
    let cells: usize = if d.is_word_size {
        2
    } else {
        1
    };
    let target = match base.checked_add(displacement) {
        Some(target) => target,
        None => {
            return Err(ExecError::MemoryOutOfBounds);
        },
    };
    if target >= len || len - target < cells {
        return Err(ExecError::MemoryOutOfBounds);
    }
    let held = read_held_value(memory, target, d.is_word_size);
    store_memory_value(
        memory,
        d.memory_mode,
        base,
        displacement,
        Value::new(source),
        d.mnemonic,
        d.is_word_size,
    )?;
    let contents = match load_memory_contents_as_decimal_and_optionally_update_original_value(
        memory,
        d.memory_mode,
        base,
        displacement,
        d.is_word_size,
        true,
    ) {
        Ok(contents) => contents,
        Err(e) => {
            return Err(e);
        },
    };
    let result = if str_eq(d.mnemonic, "cmp") {
        held.wrap_sub_and_return_result(source).value
    } else {
        contents.modified_value.value
    };
    update_flags(flag_registers, d.mnemonic, result);
    *instruction_pointer = *instruction_pointer + d.instruction_size;
    Ok((contents.original_value, contents.modified_value))
}

/// Applies a decoded instruction to the machine and returns what its destination held
/// before and holds after. On an error the machine is unchanged.
pub fn execute(
    d: &DecodedInstruction,
    registers: &mut Vec<Register>,
    flag_registers: &mut [FlagRegister; 2],
    memory: &mut [memory_struct],
    instruction_pointer: &mut usize,
) -> (r: Result<(Value, Value), ExecError>)
    requires
        *old(instruction_pointer) + d.instruction_size <= usize::MAX,
    ensures
        is_outcome(
            spec_execute(
                *d,
                Machine {
                    registers: old(registers)@,
                    flags: old(flag_registers)@,
                    memory: old(memory)@,
                    instruction_pointer: *old(instruction_pointer) as int,
                },
            ),
            r,
            Machine {
                registers: old(registers)@,
                flags: old(flag_registers)@,
                memory: old(memory)@,
                instruction_pointer: *old(instruction_pointer) as int,
            },
            final(registers)@,
            final(flag_registers)@,
            final(memory)@,
            *final(instruction_pointer) as int,
        ),
        registers_wf(old(registers)@) ==> registers_wf(final(registers)@),
        registers_wf(old(registers)@) && r is Ok ==> r->Ok_0.0.wf() && r->Ok_0.1.wf(),
        has_both_flags(old(flag_registers)@) ==> has_both_flags(final(flag_registers)@),
{
    proof {
        let m = Machine {
            registers: old(registers)@,
            flags: old(flag_registers)@,
            memory: old(memory)@,
            instruction_pointer: *old(instruction_pointer) as int,
        };
        if spec_execute(*d, m) is Ok {
            if registers_wf(m.registers) {
                lemma_step_keeps_values_well_formed(*d, m);
            }
            if has_both_flags(m.flags) {
                lemma_step_keeps_flags_present(*d, m);
            }
        }
    }
    if instruction_is_conditional_jump(d.instruction) {
        perform_conditional_jump(
            flag_registers,
            d.instruction_size,
            instruction_pointer,
            (d.displacement % 256) as u8,
            d.instruction,
        )?;
        Ok(
            (
                Value { value: ValueEnum::Uninitialized, is_signed: false },
                Value { value: ValueEnum::Uninitialized, is_signed: false },
            ),
        )
    } else if (d.instruction == InstructionType::RegisterMemory || d.instruction
        == InstructionType::ImmediateToRegisterMemory) && instruction_uses_memory(d.memory_mode)
        && !d.reg_is_dest {
        execute_on_memory(d, registers, flag_registers, memory, instruction_pointer)
    } else {
        execute_on_register(d, registers, flag_registers, memory, instruction_pointer)
    }
}

/// What one step reports: the instruction, its assembly text, what its destination held
/// before and holds after, and the names of the flags that are set after it.
#[allow(non_camel_case_types)]
#[derive(Clone, Debug, PartialEq)]
pub struct instruction_data {
    pub decoded: DecodedInstruction,
    pub formatted_instruction: String,
    pub original_value: Value,
    pub updated_value: Value,
    pub flags: Vec<&'static str>,
}

/// One step of the machine on the instruction at its instruction pointer, whose class is
/// `instruction`. The instruction is decoded; with `simulate` it is then executed, and
/// without it only the instruction pointer moves past it and no values are reported.
pub open spec fn spec_step(bytes: Seq<u8>, instruction: InstructionType, m: Machine, simulate: bool) -> Result<
    (DecodedInstruction, Step),
    ExecError,
> {
    match spec_decode(bytes, m.instruction_pointer, instruction) {
        Err(e) => Err(ExecError::Decode(e)),
        Ok(d) => if simulate {
            match spec_execute(d, m) {
                Err(e) => Err(e),
                Ok(step) => Ok((d, step)),
            }
        } else {
            Ok(
                (
                    d,
                    Step {
                        machine: Machine {
                            registers: m.registers,
                            flags: m.flags,
                            memory: m.memory,
                            instruction_pointer: m.instruction_pointer + d.instruction_size,
                        },
                        original_value: no_value(),
                        updated_value: no_value(),
                    },
                ),
            )
        },
    }
}

/// A step on anything but a jump moves the instruction pointer forward past the
/// instruction, by two to six bytes and not beyond the end of the buffer; and without
/// `simulate` a step changes nothing but the instruction pointer.
pub proof fn lemma_step_advances(bytes: Seq<u8>, instruction: InstructionType, m: Machine, simulate: bool)
    requires
        0 <= m.instruction_pointer,
        spec_step(bytes, instruction, m, simulate) is Ok,
    ensures
        ({
            let (d, step) = spec_step(bytes, instruction, m, simulate)->Ok_0;
            let after = step.machine;
            &&& 2 <= d.instruction_size <= 6
            &&& !simulate || !is_jump_class(instruction) ==> after.instruction_pointer
                == m.instruction_pointer + d.instruction_size
            &&& !simulate || !is_jump_class(instruction) ==> m.instruction_pointer
                < after.instruction_pointer <= bytes.len()
            &&& !simulate ==> after.registers == m.registers && after.flags == m.flags
                && after.memory == m.memory
        }),
{
    lemma_decode_stays_within_length(
        bytes,
        m.instruction_pointer,
        instruction,
        bytes,
        m.instruction_pointer,
    );
}

/// Whether a step ended as its specification says: after success with the report and the
/// machine of the step, after a failure with its error and the machine untouched.
pub open spec fn is_reported(
    expected: Result<(DecodedInstruction, Step), ExecError>,
    returned: Result<instruction_data, ExecError>,
    before: Machine,
    registers: Seq<Register>,
    flags: Seq<FlagRegister>,
    memory: Seq<memory_struct>,
    instruction_pointer: int,
) -> bool {
    match expected {
        Ok((d, step)) => {
            &&& returned is Ok
            &&& returned->Ok_0.decoded == d
            &&& returned->Ok_0.formatted_instruction@ == instruction_text(d)
            &&& returned->Ok_0.original_value == step.original_value
            &&& returned->Ok_0.updated_value == step.updated_value
            &&& returned->Ok_0.flags@ == set_flag_names(step.machine.flags)
            &&& registers == step.machine.registers
            &&& flags == step.machine.flags
            &&& memory == step.machine.memory
            &&& instruction_pointer == step.machine.instruction_pointer
        },
        Err(e) => {
            &&& returned is Err
            &&& returned->Err_0 == e
            &&& registers == before.registers
            &&& flags == before.flags
            &&& memory == before.memory
            &&& instruction_pointer == before.instruction_pointer
        },
    }
}

/// Decodes the instruction at the instruction pointer and, with `simulate`, executes it.
/// On an error the machine and the instruction pointer are unchanged.
pub fn decode_instruction(
    binary_contents: &Vec<u8>,
    instruction: InstructionType,
    registers: &mut Vec<Register>,
    flag_registers: &mut [FlagRegister; 2],
    memory: &mut [memory_struct],
    instruction_pointer: &mut usize,
    simulate: bool,
) -> (r: Result<instruction_data, ExecError>)
    ensures
        is_reported(
            spec_step(
                binary_contents@,
                instruction,
                Machine {
                    registers: old(registers)@,
                    flags: old(flag_registers)@,
                    memory: old(memory)@,
                    instruction_pointer: *old(instruction_pointer) as int,
                },
                simulate,
            ),
            r,
            Machine {
                registers: old(registers)@,
                flags: old(flag_registers)@,
                memory: old(memory)@,
                instruction_pointer: *old(instruction_pointer) as int,
            },
            final(registers)@,
            final(flag_registers)@,
            final(memory)@,
            *final(instruction_pointer) as int,
        ),
        registers_wf(old(registers)@) ==> registers_wf(final(registers)@),
        registers_wf(old(registers)@) && r is Ok ==> r->Ok_0.original_value.wf()
            && r->Ok_0.updated_value.wf(),
        has_both_flags(old(flag_registers)@) ==> has_both_flags(final(flag_registers)@),
{
    let d = match decode(binary_contents, *instruction_pointer, instruction) {
        Ok(d) => d,
        Err(e) => {
            return Err(ExecError::Decode(e));
        },
    };
    let len = binary_contents.len();
    assert(*instruction_pointer + d.instruction_size <= len);
    let formatted_instruction = format_instruction(&d);
    let mut original_value = Value { value: ValueEnum::Uninitialized, is_signed: false };
    let mut updated_value = Value { value: ValueEnum::Uninitialized, is_signed: false };
    if simulate {
        let (before, after) = execute(&d, registers, flag_registers, memory, instruction_pointer)?;
        original_value = before;
        updated_value = after;
    } else {
        *instruction_pointer = *instruction_pointer + d.instruction_size;
    }
    let flags = get_all_currently_set_flags(*flag_registers);
    Ok(instruction_data { decoded: d, formatted_instruction, original_value, updated_value, flags })
}

} // verus!
