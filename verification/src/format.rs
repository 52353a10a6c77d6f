use vstd::prelude::*;
use vstd::string::*;
use crate::bits::{
    instruction_uses_memory, is_accumulator_class, uses_memory, InstructionType,
    MemoryModeEnum,
};
use crate::decode::DecodedInstruction;
use crate::registers::Value;
use crate::text::{decimal, push_decimal, signed_decimal, str_eq};

verus! {

/// The size word of a memory operand.
pub open spec fn width_text(is_word_size: bool) -> Seq<char> {
    if is_word_size {
        "word"@
    } else {
        "byte"@
    }
}

/// The address expression of the R/M operand: the base, the base and the displacement
/// as a decimal number, or the direct address alone.
pub open spec fn effective_address_text(d: DecodedInstruction) -> Seq<char> {
    match d.memory_mode {
        MemoryModeEnum::MemoryMode8Bit | MemoryModeEnum::MemoryMode16Bit => d.rm_register@ + " + "@
            + decimal(d.displacement as nat),
        MemoryModeEnum::DirectMemoryOperation => decimal(d.displacement as nat),
        _ => d.rm_register@,
    }
}

/// The memory operand: the address expression in square brackets.
pub open spec fn memory_operand_text(d: DecodedInstruction) -> Seq<char> {
    "["@ + effective_address_text(d) + "]"@
}

/// The operands of an immediate to a register or memory: the destination, then the
/// immediate. A memory destination names its size.
pub open spec fn immediate_operands_text(d: DecodedInstruction) -> Seq<char> {
    if uses_memory(d.memory_mode) {
        width_text(d.is_word_size) + " "@ + memory_operand_text(d) + ", "@
            + d.reg_immediate.rendering()
    } else {
        d.rm_register@ + ", "@ + d.reg_immediate.rendering()
    }
}

/// The size that stands before the memory operand of an instruction between a register
/// and memory: always before a direct address, and before the destination of a 16-bit
/// `mov` to memory without displacement.
pub open spec fn size_prefix(d: DecodedInstruction) -> Seq<char> {
    if d.memory_mode == MemoryModeEnum::DirectMemoryOperation {
        width_text(d.is_word_size) + " "@
    } else if d.memory_mode == MemoryModeEnum::MemoryModeNoDisplacement && !d.reg_is_dest
        && d.mnemonic@ == "mov"@ && d.is_word_size {
        "word "@
    } else {
        Seq::empty()
    }
}

/// The operands of an instruction between a register and a register or memory: the
/// destination first.
pub open spec fn register_memory_operands_text(d: DecodedInstruction) -> Seq<char> {
    if uses_memory(d.memory_mode) {
        if d.reg_is_dest {
            d.reg_register@ + ", "@ + size_prefix(d) + memory_operand_text(d)
        } else {
            size_prefix(d) + memory_operand_text(d) + ", "@ + d.reg_register@
        }
    } else {
        if d.reg_is_dest {
            d.reg_register@ + ", "@ + d.rm_register@
        } else {
            d.rm_register@ + ", "@ + d.reg_register@
        }
    }
}

/// The operand of a jump. A backward offset is shown relative to the start of the
/// jump: two less far than the byte says, after a minus sign unless it is zero. A
/// forward offset is shown as the byte less two, modulo 256.
pub open spec fn jump_offset_text(offset: u8) -> Seq<char> {
    if offset >= 128 {
        let distance = 254 - offset;
        if distance == 0 {
            "0"@
        } else {
            "-"@ + signed_decimal(distance)
        }
    } else {
        decimal(((offset + 254) % 256) as nat)
    }
}

/// The operands of an instruction, as they follow the mnemonic.
pub open spec fn operands_text(d: DecodedInstruction) -> Seq<char> {
    if d.instruction == InstructionType::ImmediateToRegisterMemory {
        immediate_operands_text(d)
    } else if d.instruction == InstructionType::ImmediateToRegisterMOV {
        d.reg_register@ + ", "@ + d.rm_immediate.rendering()
    } else if is_accumulator_class(d.instruction) {
        d.rm_register@ + ", "@ + d.reg_immediate.rendering()
    } else if d.instruction == InstructionType::RegisterMemory {
        register_memory_operands_text(d)
    } else {
        jump_offset_text((d.displacement % 256) as u8)
    }
}

/// The assembly text of an instruction: the mnemonic, a space and the operands.
pub open spec fn instruction_text(d: DecodedInstruction) -> Seq<char> {
    d.mnemonic@ + " "@ + operands_text(d)
}

fn push_value(out: &mut String, value: Value)
    requires
        value.wf(),
    ensures
        final(out)@ == old(out)@ + value.rendering(),
{
    let text = value.get_string_number_from_bits();
    out.append(text.as_str());
}

fn push_effective_address(out: &mut String, d: &DecodedInstruction)
    ensures
        final(out)@ == old(out)@ + effective_address_text(*d),
{
    match d.memory_mode {
        MemoryModeEnum::MemoryMode8Bit | MemoryModeEnum::MemoryMode16Bit => {
            out.append(d.rm_register);
            out.append(" + ");
            push_decimal(out, d.displacement);
        },
        MemoryModeEnum::DirectMemoryOperation => {
            push_decimal(out, d.displacement);
        },
        _ => {
            out.append(d.rm_register);
        },
    }
    assert(out@ =~= old(out)@ + effective_address_text(*d));
}

fn push_memory_operand(out: &mut String, d: &DecodedInstruction)
    ensures
        final(out)@ == old(out)@ + memory_operand_text(*d),
{
    out.append("[");
    push_effective_address(out, d);
    out.append("]");
    assert(out@ =~= old(out)@ + memory_operand_text(*d));
}

fn push_size_prefix(out: &mut String, d: &DecodedInstruction)
    ensures
        final(out)@ == old(out)@ + size_prefix(*d),
{
    if d.memory_mode == MemoryModeEnum::DirectMemoryOperation {
        if d.is_word_size {
            out.append("word");
        } else {
            out.append("byte");
        }
        out.append(" ");
    } else if d.memory_mode == MemoryModeEnum::MemoryModeNoDisplacement && !d.reg_is_dest && str_eq(
        d.mnemonic,
        "mov",
    ) && d.is_word_size {
        out.append("word ");
    }
    assert(out@ =~= old(out)@ + size_prefix(*d));
}

fn push_jump_offset(out: &mut String, offset: u8)
    ensures
        final(out)@ == old(out)@ + jump_offset_text(offset),
{
    if offset >= 128 {
        if offset == 254 {
            out.append("0");
        } else {
            out.append("-");
            if offset == 255 {
                out.append("-");
                push_decimal(out, 1);
                proof {
                    reveal_strlit("-");
                    assert("-"@ =~= seq!['-']);
                }
            } else {
                push_decimal(out, (254 - offset) as usize);
            }
        }
    } else {
        let shown: u8 = offset.wrapping_sub(2);
        push_decimal(out, shown as usize);
    }
    assert(out@ =~= old(out)@ + jump_offset_text(offset));
}

/// The address expression of the R/M operand of an instruction, such as `bp + 4`.
pub fn effective_address_string(d: &DecodedInstruction) -> (r: String)
    ensures
        r@ == effective_address_text(*d),
{
    let mut out = String::new();
    push_effective_address(&mut out, d);
    assert(out@ =~= effective_address_text(*d));
    out
}

/// The assembly text of a decoded instruction.
pub fn format_instruction(d: &DecodedInstruction) -> (r: String)
    requires
        d.reg_immediate.wf(),
        d.rm_immediate.wf(),
    ensures
        r@ == instruction_text(*d),
{
    let mut out = String::new();
    out.append(d.mnemonic);
    out.append(" ");
    let ghost head = out@;
    assert(head =~= d.mnemonic@ + " "@);
    match d.instruction {
        InstructionType::ImmediateToRegisterMemory => {
            if instruction_uses_memory(d.memory_mode) {
                if d.is_word_size {
                    out.append("word");
                } else {
                    out.append("byte");
                }
                out.append(" ");
                push_memory_operand(&mut out, d);
                out.append(", ");
                push_value(&mut out, d.reg_immediate);
            } else {
                out.append(d.rm_register);
                out.append(", ");
                push_value(&mut out, d.reg_immediate);
            }
            assert(out@ =~= head + immediate_operands_text(*d));
        },
        InstructionType::ImmediateToRegisterMOV => {
            out.append(d.reg_register);
            out.append(", ");
            push_value(&mut out, d.rm_immediate);
            assert(out@ =~= head + operands_text(*d));
        },
        InstructionType::ImmediateToAccumulatorADD
        | InstructionType::ImmediateToAccumulatorSUB
        | InstructionType::ImmediateToAccumulatorCMP => {
            out.append(d.rm_register);
            out.append(", ");
            push_value(&mut out, d.reg_immediate);
            assert(out@ =~= head + operands_text(*d));
        },
        InstructionType::RegisterMemory => {
            if instruction_uses_memory(d.memory_mode) {
                if d.reg_is_dest {
                    out.append(d.reg_register);
                    out.append(", ");
                    push_size_prefix(&mut out, d);
                    push_memory_operand(&mut out, d);
                } else {
                    push_size_prefix(&mut out, d);
                    push_memory_operand(&mut out, d);
                    out.append(", ");
                    out.append(d.reg_register);
                }
            } else {
                if d.reg_is_dest {
                    out.append(d.reg_register);
                    out.append(", ");
                    out.append(d.rm_register);
                } else {
                    out.append(d.rm_register);
                    out.append(", ");
                    out.append(d.reg_register);
                }
            }
            assert(out@ =~= head + register_memory_operands_text(*d));
        },
        _ => {
            push_jump_offset(&mut out, (d.displacement % 256) as u8);
            assert(out@ =~= head + operands_text(*d));
        },
    }
    assert(out@ =~= instruction_text(*d));
    out
}

/// The names of a list, each in double quotes, with a comma and a space between them.
pub open spec fn quoted_names_text(names: Seq<&'static str>) -> Seq<char>
    decreases names.len(),
{
    if names.len() == 0 {
        Seq::empty()
    } else if names.len() == 1 {
        "\""@ + names[0]@ + "\""@
    } else {
        quoted_names_text(names.drop_last()) + ", "@ + "\""@ + names.last()@ + "\""@
    }
}

/// The line that reports one simulated step: the instruction, what its destination held
/// before and holds after, the flags that are set, and the instruction pointer before
/// and after.
pub open spec fn trace_text(
    instruction: Seq<char>,
    original_value: Value,
    updated_value: Value,
    flags: Seq<&'static str>,
    old_instruction_pointer: nat,
    instruction_pointer: nat,
) -> Seq<char> {
    instruction + " | "@ + original_value.rendering() + " -> "@ + updated_value.rendering()
        + " | flags: ["@ + quoted_names_text(flags) + "], IP: "@ + decimal(old_instruction_pointer)
        + " -> "@ + decimal(instruction_pointer)
}

fn push_quoted_names(out: &mut String, names: &Vec<&'static str>)
    ensures
        final(out)@ == old(out)@ + quoted_names_text(names@),
{
    let mut i: usize = 0;
    while i < names.len()
        invariant
            i <= names@.len(),
            out@ == old(out)@ + quoted_names_text(names@.take(i as int)),
        decreases names@.len() - i,
    {
        if i > 0 {
            out.append(", ");
        }
        out.append("\"");
        out.append(names[i]);
        out.append("\"");
        proof {
            let next = names@.take(i + 1);
            assert(next.drop_last() =~= names@.take(i as int));
            assert(next.last() == names@[i as int]);
            assert(out@ =~= old(out)@ + quoted_names_text(next));
        }
        i += 1;
    }
    assert(names@.take(i as int) =~= names@);
}

/// The line that reports one simulated step, such as
/// `add si, 2 | 0 -> 2 | flags: [], IP: 4 -> 6`.
pub fn trace_line(
    instruction: &str,
    original_value: Value,
    updated_value: Value,
    flags: &Vec<&'static str>,
    old_instruction_pointer: usize,
    instruction_pointer: usize,
) -> (r: String)
    requires
        original_value.wf(),
        updated_value.wf(),
    ensures
        r@ == trace_text(
            instruction@,
            original_value,
            updated_value,
            flags@,
            old_instruction_pointer as nat,
            instruction_pointer as nat,
        ),
{
    let mut out = String::new();
    out.append(instruction);
    out.append(" | ");
    push_value(&mut out, original_value);
    out.append(" -> ");
    push_value(&mut out, updated_value);
    out.append(" | flags: [");
    push_quoted_names(&mut out, flags);
    out.append("], IP: ");
    push_decimal(&mut out, old_instruction_pointer);
    out.append(" -> ");
    push_decimal(&mut out, instruction_pointer);
    assert(out@ =~= trace_text(
        instruction@,
        original_value,
        updated_value,
        flags@,
        old_instruction_pointer as nat,
        instruction_pointer as nat,
    ));
    out
}

} // verus!
