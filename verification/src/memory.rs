use vstd::prelude::*;
use crate::bits::{combine_bytes, instruction_uses_memory, spec_combine_bytes, uses_memory, MemoryModeEnum};
use crate::errors::{DecodeError, ExecError};
use crate::registers::{no_value, value_of, zero_value, Value, ValueEnum};
use crate::text::str_eq;

verus! {

/// The displacement that follows the first two bytes of the instruction at `i`:
/// none, one byte, or two bytes with the low byte first.
pub open spec fn displacement_of(bytes: Seq<u8>, i: int, memory_mode: MemoryModeEnum) -> Result<
    usize,
    DecodeError,
> {
    match memory_mode {
        MemoryModeEnum::MemoryModeNoDisplacement => Ok(0usize),
        MemoryModeEnum::MemoryMode8Bit => if i + 3 > bytes.len() {
            Err(DecodeError::OutOfBounds)
        } else {
            Ok(bytes[i + 2] as usize)
        },
        MemoryModeEnum::MemoryMode16Bit | MemoryModeEnum::DirectMemoryOperation => if i + 4
            > bytes.len() {
            Err(DecodeError::OutOfBounds)
        } else {
            Ok(spec_combine_bytes(bytes[i + 3], bytes[i + 2]) as usize)
        },
        MemoryModeEnum::RegisterMode => Err(DecodeError::InvariantViolation),
    }
}

/// Reads the displacement of the instruction at `i`. It is out of bounds if the buffer ends
/// before the displacement does, and an invariant violation in register mode, which has
/// no displacement to ask for.
pub fn get_displacement(binary_contents: &Vec<u8>, i: usize, memory_mode: MemoryModeEnum) -> (r:
    Result<usize, DecodeError>)
    ensures
        r == displacement_of(binary_contents@, i as int, memory_mode),
{
    match memory_mode {
        MemoryModeEnum::MemoryModeNoDisplacement => Ok(0),
        MemoryModeEnum::MemoryMode8Bit => get_8_bit_displacement(binary_contents, i),
        MemoryModeEnum::MemoryMode16Bit | MemoryModeEnum::DirectMemoryOperation => {
            get_16_bit_displacement(binary_contents, i)
        },
        MemoryModeEnum::RegisterMode => Err(DecodeError::InvariantViolation),
    }
}

fn get_16_bit_displacement(binary_contents: &Vec<u8>, i: usize) -> (r: Result<usize, DecodeError>)
    ensures
        r == displacement_of(binary_contents@, i as int, MemoryModeEnum::MemoryMode16Bit),
{
    if i > binary_contents.len() || binary_contents.len() - i < 4 {
        return Err(DecodeError::OutOfBounds);
    }
    let first_disp = binary_contents[i + 2];
    let second_disp = binary_contents[i + 3];
    let displacement = combine_bytes(second_disp, first_disp);
    Ok(displacement as usize)
}

fn get_8_bit_displacement(binary_contents: &Vec<u8>, i: usize) -> (r: Result<usize, DecodeError>)
    ensures
        r == displacement_of(binary_contents@, i as int, MemoryModeEnum::MemoryMode8Bit),
{
    if i > binary_contents.len() || binary_contents.len() - i < 3 {
        return Err(DecodeError::OutOfBounds);
    }
    let first_disp = binary_contents[i + 2];
    Ok(first_disp as usize)
}

/// A byte of a memory cell, and whether anything was written to it.
#[allow(non_camel_case_types)]
#[derive(Copy, Clone, Debug, PartialEq, Eq, Structural)]
pub struct bits_struct {
    pub bits: u8,
    pub initialized: bool,
}

/// The contents of a memory cell now (`modified_bits`) and when the last instruction
/// that wrote to it had been reported (`original_bits`).
#[allow(non_camel_case_types)]
#[derive(Copy, Clone, Debug, PartialEq, Eq, Structural)]
pub struct memory_contents {
    pub original_bits: bits_struct,
    pub modified_bits: bits_struct,
}

/// One cell of the byte-addressed memory.
#[allow(non_camel_case_types)]
#[derive(Copy, Clone, Debug, PartialEq, Eq, Structural)]
pub struct memory_struct {
    pub address_contents: memory_contents,
}

/// A memory operand of one or two cells, as values, before and after.
#[allow(non_camel_case_types)]
#[derive(Copy, Clone, Debug, PartialEq, Eq, Structural)]
pub struct decimal_memory_contents {
    pub original_value: Value,
    pub modified_value: Value,
}

/// The two bytes of a 16-bit value.
#[allow(non_camel_case_types)]
#[derive(Copy, Clone, Debug, PartialEq, Eq, Structural)]
pub struct word_sized_value_bytes {
    pub lower_byte: u8,
    pub upper_byte: u8,
}

/// The address of a memory operand: the displacement counts in the modes that have one.
pub open spec fn adjusted_address(memory_mode: MemoryModeEnum, memory_address: int, displacement: int) -> int {
    match memory_mode {
        MemoryModeEnum::MemoryMode8Bit
        | MemoryModeEnum::MemoryMode16Bit
        | MemoryModeEnum::DirectMemoryOperation => memory_address + displacement,
        _ => memory_address,
    }
}

fn adjust_memory_address(memory_mode: MemoryModeEnum, memory_address: usize, displacement: usize) -> (r:
    Option<usize>)
    ensures
        match r {
            Some(a) => a == adjusted_address(memory_mode, memory_address as int, displacement as int),
            None => adjusted_address(memory_mode, memory_address as int, displacement as int)
                > usize::MAX,
        },
{
    match memory_mode {
        MemoryModeEnum::MemoryMode8Bit
        | MemoryModeEnum::MemoryMode16Bit
        | MemoryModeEnum::DirectMemoryOperation => memory_address.checked_add(displacement),
        _ => Some(memory_address),
    }
}

fn original_8_bit_memory_location_is_initialized(first_byte: memory_struct) -> (r: bool)
    ensures
        r == first_byte.address_contents.original_bits.initialized,
{
    first_byte.address_contents.original_bits.initialized
}

fn modified_8_bit_memory_location_is_initialized(first_byte: memory_struct) -> (r: bool)
    ensures
        r == first_byte.address_contents.modified_bits.initialized,
{
    first_byte.address_contents.modified_bits.initialized
}

fn original_16_bit_memory_location_is_initialized(first_byte: memory_struct, second_byte: memory_struct) -> (r:
    bool)
    ensures
        r == (first_byte.address_contents.original_bits.initialized
            && second_byte.address_contents.original_bits.initialized),
{
    second_byte.address_contents.original_bits.initialized
        && first_byte.address_contents.original_bits.initialized
}

fn modified_16_bit_memory_location_is_initialized(first_byte: memory_struct, second_byte: memory_struct) -> (r:
    bool)
    ensures
        r == (first_byte.address_contents.modified_bits.initialized
            && second_byte.address_contents.modified_bits.initialized),
{
    second_byte.address_contents.modified_bits.initialized
        && first_byte.address_contents.modified_bits.initialized
}

/// The value that one cell (`low`) or two cells hold, the low byte at the lower address.
/// It is a value only if every cell of it was written to.
pub open spec fn stored_value(low: bits_struct, high: bits_struct, is_word_size: bool) -> Value {
    if is_word_size {
        if low.initialized && high.initialized {
            value_of(ValueEnum::WordSize(spec_combine_bytes(high.bits, low.bits)))
        } else {
            no_value()
        }
    } else {
        if low.initialized {
            value_of(ValueEnum::ByteSize(low.bits))
        } else {
            no_value()
        }
    }
}

/// The index of the last cell of an operand that starts at `target`.
pub open spec fn last_cell(target: int, is_word_size: bool) -> int {
    if is_word_size {
        target + 1
    } else {
        target
    }
}

/// What a load returns: the operand at the address as it was and as it is. The load fails
/// if the base address or a cell of the operand lies outside memory, and if the mode is
/// register mode.
pub open spec fn load_result(
    memory: Seq<memory_struct>,
    memory_mode: MemoryModeEnum,
    memory_address: int,
    displacement: int,
    is_word_size: bool,
) -> Result<decimal_memory_contents, ExecError> {
    let target = adjusted_address(memory_mode, memory_address, displacement);
    let last = last_cell(target, is_word_size);
    if memory_address >= memory.len() {
        Err(ExecError::MemoryOutOfBounds)
    } else if !uses_memory(memory_mode) {
        Err(ExecError::NotMemoryMode)
    } else if last >= memory.len() {
        Err(ExecError::MemoryOutOfBounds)
    } else {
        Ok(
            decimal_memory_contents {
                original_value: stored_value(
                    memory[target].address_contents.original_bits,
                    memory[last].address_contents.original_bits,
                    is_word_size,
                ),
                modified_value: stored_value(
                    memory[target].address_contents.modified_bits,
                    memory[last].address_contents.modified_bits,
                    is_word_size,
                ),
            },
        )
    }
}

/// The cell after its present contents have become the contents to report changes against.
pub open spec fn promoted(cell: memory_struct) -> memory_struct {
    memory_struct {
        address_contents: memory_contents {
            original_bits: cell.address_contents.modified_bits,
            modified_bits: cell.address_contents.modified_bits,
        },
    }
}

/// Memory after a load. Only a load that is asked to, that succeeds and that finds
/// the operand written promotes the cells of the operand; every other load changes nothing.
pub open spec fn memory_after_load(
    memory: Seq<memory_struct>,
    memory_mode: MemoryModeEnum,
    memory_address: int,
    displacement: int,
    is_word_size: bool,
    update_original_value: bool,
) -> Seq<memory_struct> {
    let target = adjusted_address(memory_mode, memory_address, displacement);
    match load_result(memory, memory_mode, memory_address, displacement, is_word_size) {
        Ok(contents) => if update_original_value && !(contents.modified_value.value is Uninitialized) {
            if is_word_size {
                memory.update(target, promoted(memory[target])).update(
                    target + 1,
                    promoted(memory[target + 1]),
                )
            } else {
                memory.update(target, promoted(memory[target]))
            }
        } else {
            memory
        },
        Err(_) => memory,
    }
}

/// Loads the operand of one or two cells at the address, as it was and as it is. With
/// `update_original_value` the contents then become what the next change is reported
/// against. On an error memory is unchanged.
pub fn load_memory_contents_as_decimal_and_optionally_update_original_value(
    memory: &mut [memory_struct],
    memory_mode: MemoryModeEnum,
    memory_address: usize,
    displacement: usize,
    is_word_size: bool,
    update_original_value: bool,
) -> (r: Result<decimal_memory_contents, ExecError>)
    ensures
        r == load_result(
            old(memory)@,
            memory_mode,
            memory_address as int,
            displacement as int,
            is_word_size,
        ),
        final(memory)@ == memory_after_load(
            old(memory)@,
            memory_mode,
            memory_address as int,
            displacement as int,
            is_word_size,
            update_original_value,
        ),
{
    if memory_address >= memory.len() {
        return Err(ExecError::MemoryOutOfBounds);
    }
    if !instruction_uses_memory(memory_mode) {
        return Err(ExecError::NotMemoryMode);
    }
    let m_memory_address = match adjust_memory_address(memory_mode, memory_address, displacement) {
        Some(a) => a,
        None => {
            return Err(ExecError::MemoryOutOfBounds);
        },
    };
    if is_word_size {
        if m_memory_address >= memory.len() || memory.len() - m_memory_address < 2 {
            return Err(ExecError::MemoryOutOfBounds);
        }
        let first_byte = memory[m_memory_address];
        let second_byte = memory[m_memory_address + 1];
        let original_value = if original_16_bit_memory_location_is_initialized(
            first_byte,
            second_byte,
        ) {
            Value::new(
                ValueEnum::WordSize(
                    combine_bytes(
                        second_byte.address_contents.original_bits.bits,
                        first_byte.address_contents.original_bits.bits,
                    ),
                ),
            )
        } else {
            Value { value: ValueEnum::Uninitialized, is_signed: false }
        };
        if !modified_16_bit_memory_location_is_initialized(first_byte, second_byte) {
            return Ok(
                decimal_memory_contents {
                    original_value,
                    modified_value: Value { value: ValueEnum::Uninitialized, is_signed: false },
                },
            );
        }
        let modified_value = Value::new(
            ValueEnum::WordSize(
                combine_bytes(
                    second_byte.address_contents.modified_bits.bits,
                    first_byte.address_contents.modified_bits.bits,
                ),
            ),
        );
        if update_original_value {
            memory[m_memory_address].address_contents.original_bits =
            first_byte.address_contents.modified_bits;
            memory[m_memory_address + 1].address_contents.original_bits =
            second_byte.address_contents.modified_bits;
            assert(memory@ =~= memory_after_load(
                old(memory)@,
                memory_mode,
                memory_address as int,
                displacement as int,
                is_word_size,
                update_original_value,
            ));
        }
        Ok(decimal_memory_contents { original_value, modified_value })
    } else {
        if m_memory_address >= memory.len() {
            return Err(ExecError::MemoryOutOfBounds);
        }
        let memory_location = memory[m_memory_address];
        let original_value = if original_8_bit_memory_location_is_initialized(memory_location) {
            Value::new(ValueEnum::ByteSize(memory_location.address_contents.original_bits.bits))
        } else {
            Value { value: ValueEnum::Uninitialized, is_signed: false }
        };
        if !modified_8_bit_memory_location_is_initialized(memory_location) {
            return Ok(
                decimal_memory_contents {
                    original_value,
                    modified_value: Value { value: ValueEnum::Uninitialized, is_signed: false },
                },
            );
        }
        let modified_value = Value::new(
            ValueEnum::ByteSize(memory_location.address_contents.modified_bits.bits),
        );
        if update_original_value {
            memory[m_memory_address].address_contents.original_bits =
            memory_location.address_contents.modified_bits;
            assert(memory@ =~= memory_after_load(
                old(memory)@,
                memory_mode,
                memory_address as int,
                displacement as int,
                is_word_size,
                update_original_value,
            ));
        }
        Ok(decimal_memory_contents { original_value, modified_value })
    }
}

/// The two bytes of the lowest 16 bits of `value`.
pub fn separate_word_sized_value_into_bytes(value: usize) -> (r: word_sized_value_bytes)
    ensures
        r.lower_byte == value % 256,
        r.upper_byte == (value / 256) % 256,
{
    let lower_byte: u8 = (value & 0xFF) as u8;
    let upper_byte: u8 = ((value >> 8) & 0xFF) as u8;
    assert(value & 0xFF == value % 256) by (bit_vector);
    assert((value >> 8) & 0xFF == (value / 256) % 256) by (bit_vector);
    word_sized_value_bytes { lower_byte, upper_byte }
}

/// The cell after `bits` have been written to it.
pub open spec fn written(cell: memory_struct, bits: u8) -> memory_struct {
    memory_struct {
        address_contents: memory_contents {
            original_bits: cell.address_contents.original_bits,
            modified_bits: bits_struct { bits: bits, initialized: true },
        },
    }
}

/// Memory after `value` has been written at `target`: one cell for 8 bits, two for 16
/// bits with the low byte at the lower address.
pub open spec fn memory_with_value(memory: Seq<memory_struct>, target: int, value: ValueEnum) -> Seq<
    memory_struct,
> {
    match value {
        ValueEnum::WordSize(val) => memory.update(
            target,
            written(memory[target], (val % 256) as u8),
        ).update(target + 1, written(memory[target + 1], (val / 256) as u8)),
        ValueEnum::ByteSize(val) => memory.update(target, written(memory[target], val)),
        ValueEnum::Uninitialized => memory,
    }
}

/// The bits that the operand at `target` held when it was last reported, as a value of
/// the operand width, whether or not anything was written there.
pub open spec fn held_value(memory: Seq<memory_struct>, target: int, is_word_size: bool) -> Value {
    value_of(
        if is_word_size {
            ValueEnum::WordSize(
                spec_combine_bytes(
                    memory[target + 1].address_contents.original_bits.bits,
                    memory[target].address_contents.original_bits.bits,
                ),
            )
        } else {
            ValueEnum::ByteSize(memory[target].address_contents.original_bits.bits)
        },
    )
}

/// Reads what the operand at `target` held when it was last reported.
pub fn read_held_value(memory: &[memory_struct], target: usize, is_word_size: bool) -> (r: Value)
    requires
        last_cell(target as int, is_word_size) < memory@.len(),
    ensures
        r == held_value(memory@, target as int, is_word_size),
{
    if is_word_size {
        Value::new(
            ValueEnum::WordSize(
                combine_bytes(
                    memory[target + 1].address_contents.original_bits.bits,
                    memory[target].address_contents.original_bits.bits,
                ),
            ),
        )
    } else {
        Value::new(ValueEnum::ByteSize(memory[target].address_contents.original_bits.bits))
    }
}

/// What a store writes. `mov` writes the value as it is, and a zero of the operand width
/// for a value that nothing was written to. `add` and `sub` compute in the operand
/// width, from the bits that the cells held when they were last reported.
pub open spec fn value_to_store(
    memory: Seq<memory_struct>,
    target: int,
    value: Value,
    mnemonic: Seq<char>,
    is_word_size: bool,
) -> ValueEnum {
    let held = held_value(memory, target, is_word_size);
    if mnemonic == "mov"@ {
        if value.value is Uninitialized {
            zero_value(is_word_size)
        } else {
            value.value
        }
    } else if mnemonic == "add"@ {
        held.spec_wrap_add(value.value).value
    } else {
        held.spec_wrap_sub(value.value).value
    }
}

/// Whether a store touches two cells: by the value for a `mov`, else by the operand width.
pub open spec fn store_is_word(value: Value, mnemonic: Seq<char>, is_word_size: bool) -> bool {
    if mnemonic == "mov"@ {
        match value.value {
            ValueEnum::WordSize(_) => true,
            ValueEnum::ByteSize(_) => false,
            ValueEnum::Uninitialized => is_word_size,
        }
    } else {
        is_word_size
    }
}

/// Memory after a store at `memory_address + displacement`. `cmp` writes nothing. The
/// store fails on a mnemonic other than `mov`, `add`, `sub` and `cmp`, and if a cell that
/// it reads or writes lies outside memory.
pub open spec fn memory_after_store(
    memory: Seq<memory_struct>,
    memory_address: int,
    displacement: int,
    value: Value,
    mnemonic: Seq<char>,
    is_word_size: bool,
) -> Result<Seq<memory_struct>, ExecError> {
    let target = memory_address + displacement;
    if mnemonic == "cmp"@ {
        Ok(memory)
    } else if !(mnemonic == "mov"@ || mnemonic == "add"@ || mnemonic == "sub"@) {
        Err(ExecError::UnknownMnemonic)
    } else if last_cell(target, store_is_word(value, mnemonic, is_word_size)) >= memory.len() {
        Err(ExecError::MemoryOutOfBounds)
    } else {
        Ok(
            memory_with_value(
                memory,
                target,
                value_to_store(memory, target, value, mnemonic, is_word_size),
            ),
        )
    }
}

/// Writes to memory what the instruction stores. The addressing mode plays no part in
/// it: the displacement always counts. On an error memory is unchanged.
#[allow(unused_variables)]
pub fn store_memory_value(
    memory: &mut [memory_struct],
    memory_mode: MemoryModeEnum,
    memory_address: usize,
    displacement: usize,
    value: Value,
    mnemonic: &'static str,
    is_word_size: bool,
) -> (r: Result<(), ExecError>)
    ensures
        match memory_after_store(
            old(memory)@,
            memory_address as int,
            displacement as int,
            value,
            mnemonic@,
            is_word_size,
        ) {
            Ok(after) => r is Ok && final(memory)@ == after,
            Err(e) => r == Err::<(), ExecError>(e) && final(memory)@ == old(memory)@,
        },
{
    if str_eq(mnemonic, "cmp") {
        return Ok(());
    }
    let is_mov = str_eq(mnemonic, "mov");
    let is_add = str_eq(mnemonic, "add");
    if !(is_mov || is_add || str_eq(mnemonic, "sub")) {
        return Err(ExecError::UnknownMnemonic);
    }
    let wide = if is_mov {
        match value.value {
            ValueEnum::WordSize(_) => true,
            ValueEnum::ByteSize(_) => false,
            ValueEnum::Uninitialized => is_word_size,
        }
    } else {
        is_word_size
    };
    let cells: usize = if wide {
        2
    } else {
        1
    };
    let len = memory.len();
    let updated_memory_address = match memory_address.checked_add(displacement) {
        Some(a) => a,
        None => {
            return Err(ExecError::MemoryOutOfBounds);
        },
    };
    if updated_memory_address >= len || len - updated_memory_address < cells {
        return Err(ExecError::MemoryOutOfBounds);
    }
    let updated_value: ValueEnum = if is_mov {
        match value.value {
            ValueEnum::Uninitialized => if is_word_size {
                ValueEnum::WordSize(0)
            } else {
                ValueEnum::ByteSize(0)
            },
            _ => value.value,
        }
    } else {
        let memory_contents = read_held_value(memory, updated_memory_address, is_word_size);
        if is_add {
            memory_contents.wrap_add_and_return_result(value.value).value
        } else {
            memory_contents.wrap_sub_and_return_result(value.value).value
        }
    };
    match updated_value {
        ValueEnum::WordSize(val) => {
            let memory_contents = separate_word_sized_value_into_bytes(val as usize);
            memory[updated_memory_address].address_contents.modified_bits =
            bits_struct { bits: memory_contents.lower_byte, initialized: true };
            memory[updated_memory_address + 1].address_contents.modified_bits =
            bits_struct { bits: memory_contents.upper_byte, initialized: true };
        },
        ValueEnum::ByteSize(val) => {
            memory[updated_memory_address].address_contents.modified_bits =
            bits_struct { bits: val, initialized: true };
        },
        ValueEnum::Uninitialized => {},
    }
    assert(memory@ =~= memory_with_value(
        old(memory)@,
        updated_memory_address as int,
        updated_value,
    ));
    Ok(())
}

} // verus!
