use vstd::prelude::*;
use crate::errors::DecodeError;
use crate::text::str_eq;

verus! {

/// The instruction classes that the decoder tells apart by the first byte.
#[allow(non_camel_case_types)]
#[derive(PartialEq, Eq, Debug, Clone, Copy, Structural)]
pub enum InstructionType {
    RegisterMemory,
    ImmediateToRegisterMemory,
    ImmediateToRegisterMOV,
    ImmediateToAccumulatorADD,
    ImmediateToAccumulatorSUB,
    ImmediateToAccumulatorCMP,
    JE_JUMP,
    JL_JUMP,
    JLE_JUMP,
    JB_JUMP,
    JBE_JUMP,
    JP_JUMP,
    JO_JUMP,
    JS_JUMP,
    JNE_JUMP,
    JNL_JUMP,
    JNLE_JUMP,
    JNB_JUMP,
    JNBE_JUMP,
    JNP_JUMP,
    JNO_JUMP,
    JNS,
    LOOP,
    LOOPZ,
    LOOPNZ,
    JCXZ,
}

/// The three classes whose destination is the accumulator (`ax` or `al`).
pub open spec fn is_accumulator_class(instruction: InstructionType) -> bool {
    instruction == InstructionType::ImmediateToAccumulatorADD || instruction
        == InstructionType::ImmediateToAccumulatorSUB || instruction
        == InstructionType::ImmediateToAccumulatorCMP
}

/// The classes that carry an immediate operand.
pub open spec fn is_immediate_class(instruction: InstructionType) -> bool {
    instruction == InstructionType::ImmediateToRegisterMemory || instruction
        == InstructionType::ImmediateToRegisterMOV || is_accumulator_class(instruction)
}

/// The conditional jumps and loops: every class that neither moves nor computes.
pub open spec fn is_jump_class(instruction: InstructionType) -> bool {
    instruction != InstructionType::RegisterMemory && !is_immediate_class(instruction)
}

/// The classes whose second byte holds the MOD, REG and R/M fields.
pub open spec fn has_mod_field(instruction: InstructionType) -> bool {
    instruction == InstructionType::RegisterMemory || instruction
        == InstructionType::ImmediateToRegisterMemory
}

/// Whether the class is a conditional jump or a loop.
pub fn instruction_is_conditional_jump(instruction: InstructionType) -> (r: bool)
    ensures
        r == is_jump_class(instruction),
{
    match instruction {
        InstructionType::JE_JUMP => true,
        InstructionType::JL_JUMP => true,
        InstructionType::JLE_JUMP => true,
        InstructionType::JB_JUMP => true,
        InstructionType::JBE_JUMP => true,
        InstructionType::JP_JUMP => true,
        InstructionType::JO_JUMP => true,
        InstructionType::JS_JUMP => true,
        InstructionType::JNE_JUMP => true,
        InstructionType::JNL_JUMP => true,
        InstructionType::JNLE_JUMP => true,
        InstructionType::JNB_JUMP => true,
        InstructionType::JNBE_JUMP => true,
        InstructionType::JNP_JUMP => true,
        InstructionType::JNO_JUMP => true,
        InstructionType::JNS => true,
        InstructionType::LOOP => true,
        InstructionType::LOOPZ => true,
        InstructionType::LOOPNZ => true,
        InstructionType::JCXZ => true,
        _ => false,
    }
}

/// Whether the class carries an immediate operand.
pub fn instruction_is_immediate_to_register(instruction: InstructionType) -> (r: bool)
    ensures
        r == is_immediate_class(instruction),
{
    match instruction {
        InstructionType::ImmediateToRegisterMemory => true,
        InstructionType::ImmediateToRegisterMOV => true,
        InstructionType::ImmediateToAccumulatorADD => true,
        InstructionType::ImmediateToAccumulatorSUB => true,
        InstructionType::ImmediateToAccumulatorCMP => true,
        _ => false,
    }
}

/// The class that a first byte selects, if any.
pub open spec fn classify(first_byte: u8) -> Option<InstructionType> {
    let b = first_byte;
    if b <= 0x03 || 0x28 <= b <= 0x2B || 0x38 <= b <= 0x3B || 0x88 <= b <= 0x8B {
        Some(InstructionType::RegisterMemory)
    } else if 0x80 <= b <= 0x83 || b == 0xC6 || b == 0xC7 {
        Some(InstructionType::ImmediateToRegisterMemory)
    } else if 0xB0 <= b <= 0xBF {
        Some(InstructionType::ImmediateToRegisterMOV)
    } else if b == 0x04 || b == 0x05 {
        Some(InstructionType::ImmediateToAccumulatorADD)
    } else if b == 0x2C || b == 0x2D {
        Some(InstructionType::ImmediateToAccumulatorSUB)
    } else if b == 0x3C || b == 0x3D {
        Some(InstructionType::ImmediateToAccumulatorCMP)
    } else if b == 0x70 {
        Some(InstructionType::JO_JUMP)
    } else if b == 0x71 {
        Some(InstructionType::JNO_JUMP)
    } else if b == 0x72 {
        Some(InstructionType::JB_JUMP)
    } else if b == 0x73 {
        Some(InstructionType::JNB_JUMP)
    } else if b == 0x74 {
        Some(InstructionType::JE_JUMP)
    } else if b == 0x75 {
        Some(InstructionType::JNE_JUMP)
    } else if b == 0x76 {
        Some(InstructionType::JBE_JUMP)
    } else if b == 0x77 {
        Some(InstructionType::JNBE_JUMP)
    } else if b == 0x78 {
        Some(InstructionType::JS_JUMP)
    } else if b == 0x79 {
        Some(InstructionType::JNS)
    } else if b == 0x7A {
        Some(InstructionType::JP_JUMP)
    } else if b == 0x7B {
        Some(InstructionType::JNP_JUMP)
    } else if b == 0x7C {
        Some(InstructionType::JL_JUMP)
    } else if b == 0x7D {
        Some(InstructionType::JNL_JUMP)
    } else if b == 0x7E {
        Some(InstructionType::JLE_JUMP)
    } else if b == 0x7F {
        Some(InstructionType::JNLE_JUMP)
    } else if b == 0xE0 {
        Some(InstructionType::LOOPNZ)
    } else if b == 0xE1 {
        Some(InstructionType::LOOPZ)
    } else if b == 0xE2 {
        Some(InstructionType::LOOP)
    } else if b == 0xE3 {
        Some(InstructionType::JCXZ)
    } else {
        None
    }
}

/// One entry of the opcode table: a first byte and the class it belongs to.
pub struct OpCode {
    pub bit_pattern: u8,
    pub t: InstructionType,
}

/// The class of the first entry at or after `from` whose pattern is `first_byte`.
pub open spec fn first_match(table: Seq<OpCode>, first_byte: u8, from: int) -> Option<
    InstructionType,
>
    decreases table.len() - from,
{
    if from < 0 || from >= table.len() {
        None
    } else if table[from].bit_pattern == first_byte {
        Some(table[from].t)
    } else {
        first_match(table, first_byte, from + 1)
    }
}

/// A table is sound when each entry holds the class that `classify` gives its pattern.
pub open spec fn table_sound(table: Seq<OpCode>) -> bool {
    forall|i: int|
        0 <= i < table.len() ==> classify(#[trigger] table[i].bit_pattern) == Some(table[i].t)
}

/// Every lookup in a sound table from `from` on finds nothing or the class of `classify`,
/// and it finds something if an entry at or after `from` has the pattern.
proof fn lemma_first_match_sound(table: Seq<OpCode>, first_byte: u8, from: int)
    requires
        table_sound(table),
        0 <= from,
    ensures
        first_match(table, first_byte, from) is Some ==> first_match(table, first_byte, from)
            == classify(first_byte),
        forall|k: int|
            from <= k < table.len() && table[k].bit_pattern == first_byte ==> first_match(
                table,
                first_byte,
                from,
            ) is Some,
    decreases table.len() - from,
{
    if from < table.len() && table[from].bit_pattern != first_byte {
        lemma_first_match_sound(table, first_byte, from + 1);
    }
}

/// The table entries that give each of `patterns` the class `t`, in order.
pub open spec fn entries(patterns: Seq<u8>, t: InstructionType) -> Seq<OpCode> {
    Seq::new(patterns.len(), |i: int| OpCode { bit_pattern: patterns[i], t: t })
}

/// Appends one entry of class `t` for each of `patterns`.
fn push_patterns(op_codes: &mut Vec<OpCode>, patterns: &[u8], t: InstructionType)
    ensures
        final(op_codes)@ == old(op_codes)@ + entries(patterns@, t),
{
    let mut i: usize = 0;
    while i < patterns.len()
        invariant
            i <= patterns@.len(),
            op_codes@ == old(op_codes)@ + entries(patterns@.take(i as int), t),
        decreases patterns@.len() - i,
    {
        op_codes.push(OpCode { bit_pattern: patterns[i], t: t });
        assert(op_codes@ =~= old(op_codes)@ + entries(patterns@.take(i + 1), t));
        i += 1;
    }
    assert(patterns@.take(i as int) =~= patterns@);
}

/// First bytes of `mov`, `cmp`, `sub` and `add` between a register and a register or memory.
pub open spec fn register_memory_patterns() -> Seq<u8> {
    seq![
        0b10001011, 0b10001001, 0b10001010, 0b10001000, 0b00111000, 0b00111001, 0b00111010,
        0b00111011, 0b00101000, 0b00101001, 0b00101010, 0b00101011, 0b00101000, 0b00101001,
        0b00101010, 0b00101011, 0b00000000, 0b00000001, 0b00000010, 0b00000011,
    ]
}

/// First bytes of `mov`, `add`, `sub` and `cmp` with an immediate and a register or memory.
pub open spec fn immediate_to_register_or_memory_patterns() -> Seq<u8> {
    seq![
        0b11000111, 0b11000110, 0b10000000, 0b10000011, 0b10000001, 0b10000010, 0b10000000,
    ]
}

/// First bytes of `mov` of an immediate to the register named in that byte.
pub open spec fn immediate_to_register_mov_patterns() -> Seq<u8> {
    seq![
        0b10110000, 0b10110001, 0b10110010, 0b10110011, 0b10110100, 0b10110101, 0b10110110,
        0b10110111, 0b10111000, 0b10111001, 0b10111010, 0b10111011, 0b10111100, 0b10111101,
        0b10111110, 0b10111111,
    ]
}

/// The entries of the conditional jumps and loops, one pattern each.
pub open spec fn jump_entries() -> Seq<OpCode> {
    seq![
        OpCode { bit_pattern: 0b01110100, t: InstructionType::JE_JUMP },
        OpCode { bit_pattern: 0b01111100, t: InstructionType::JL_JUMP },
        OpCode { bit_pattern: 0b01111110, t: InstructionType::JLE_JUMP },
        OpCode { bit_pattern: 0b01110010, t: InstructionType::JB_JUMP },
        OpCode { bit_pattern: 0b01110110, t: InstructionType::JBE_JUMP },
        OpCode { bit_pattern: 0b01111010, t: InstructionType::JP_JUMP },
        OpCode { bit_pattern: 0b01110000, t: InstructionType::JO_JUMP },
        OpCode { bit_pattern: 0b01111000, t: InstructionType::JS_JUMP },
        OpCode { bit_pattern: 0b01110101, t: InstructionType::JNE_JUMP },
        OpCode { bit_pattern: 0b01111101, t: InstructionType::JNL_JUMP },
        OpCode { bit_pattern: 0b01111111, t: InstructionType::JNLE_JUMP },
        OpCode { bit_pattern: 0b01110011, t: InstructionType::JNB_JUMP },
        OpCode { bit_pattern: 0b01110111, t: InstructionType::JNBE_JUMP },
        OpCode { bit_pattern: 0b01111011, t: InstructionType::JNP_JUMP },
        OpCode { bit_pattern: 0b01110001, t: InstructionType::JNO_JUMP },
        OpCode { bit_pattern: 0b01111001, t: InstructionType::JNS },
        OpCode { bit_pattern: 0b11100010, t: InstructionType::LOOP },
        OpCode { bit_pattern: 0b11100001, t: InstructionType::LOOPZ },
        OpCode { bit_pattern: 0b11100000, t: InstructionType::LOOPNZ },
        OpCode { bit_pattern: 0b11100011, t: InstructionType::JCXZ },
    ]
}

/// The opcode table, in the order in which a lookup walks it.
pub open spec fn opcode_table() -> Seq<OpCode> {
    entries(register_memory_patterns(), InstructionType::RegisterMemory) + entries(
        immediate_to_register_or_memory_patterns(),
        InstructionType::ImmediateToRegisterMemory,
    ) + entries(immediate_to_register_mov_patterns(), InstructionType::ImmediateToRegisterMOV)
        + entries(seq![0b00000100u8, 0b00000101u8], InstructionType::ImmediateToAccumulatorADD)
        + entries(seq![0b00111100u8, 0b00111101u8], InstructionType::ImmediateToAccumulatorCMP)
        + entries(seq![0b00101100u8, 0b00101101u8], InstructionType::ImmediateToAccumulatorSUB)
        + jump_entries()
}

/// Whether some entry of `table` has the pattern `first_byte`.
pub open spec fn has_pattern(table: Seq<OpCode>, first_byte: u8) -> bool {
    exists|k: int| 0 <= k < table.len() && #[trigger] table[k].bit_pattern == first_byte
}

/// Two sound tables make a sound table.
proof fn lemma_sound_concat(a: Seq<OpCode>, b: Seq<OpCode>)
    requires
        table_sound(a),
        table_sound(b),
    ensures
        table_sound(a + b),
{
    assert forall|i: int| 0 <= i < (a + b).len() implies classify(
        #[trigger] (a + b)[i].bit_pattern,
    ) == Some((a + b)[i].t) by {
        if i < a.len() {
            assert((a + b)[i] == a[i]);
        } else {
            assert((a + b)[i] == b[i - a.len()]);
        }
    }
}

/// A pattern of either part is a pattern of the whole.
proof fn lemma_has_pattern_concat(a: Seq<OpCode>, b: Seq<OpCode>)
    ensures
        forall|p: u8| has_pattern(a, p) || has_pattern(b, p) ==> has_pattern(a + b, p),
{
    assert forall|p: u8| has_pattern(a, p) || has_pattern(b, p) implies has_pattern(a + b, p) by {
        if has_pattern(a, p) {
            let k = choose|k: int| 0 <= k < a.len() && #[trigger] a[k].bit_pattern == p;
            assert((a + b)[k].bit_pattern == p);
        } else {
            let k = choose|k: int| 0 <= k < b.len() && #[trigger] b[k].bit_pattern == p;
            assert((a + b)[a.len() + k].bit_pattern == p);
        }
    }
}

/// The register-or-memory entries are sound and hold every first byte of their class.
proof fn lemma_register_memory_entries()
    ensures
        table_sound(entries(register_memory_patterns(), InstructionType::RegisterMemory)),
        forall|p: u8|
            classify(p) == Some(InstructionType::RegisterMemory) ==> has_pattern(
                entries(register_memory_patterns(), InstructionType::RegisterMemory),
                p,
            ),
{
    let e = entries(register_memory_patterns(), InstructionType::RegisterMemory);
    assert(e[0].bit_pattern == 0x8B);
    assert(e[1].bit_pattern == 0x89);
    assert(e[2].bit_pattern == 0x8A);
    assert(e[3].bit_pattern == 0x88);
    assert(e[4].bit_pattern == 0x38);
    assert(e[5].bit_pattern == 0x39);
    assert(e[6].bit_pattern == 0x3A);
    assert(e[7].bit_pattern == 0x3B);
    assert(e[8].bit_pattern == 0x28);
    assert(e[9].bit_pattern == 0x29);
    assert(e[10].bit_pattern == 0x2A);
    assert(e[11].bit_pattern == 0x2B);
    assert(e[12].bit_pattern == 0x28);
    assert(e[13].bit_pattern == 0x29);
    assert(e[14].bit_pattern == 0x2A);
    assert(e[15].bit_pattern == 0x2B);
    assert(e[16].bit_pattern == 0x00);
    assert(e[17].bit_pattern == 0x01);
    assert(e[18].bit_pattern == 0x02);
    assert(e[19].bit_pattern == 0x03);
}

/// The immediate-to-register-or-memory entries are sound and hold every first byte of
/// their class.
proof fn lemma_immediate_to_register_or_memory_entries()
    ensures
        table_sound(
            entries(
                immediate_to_register_or_memory_patterns(),
                InstructionType::ImmediateToRegisterMemory,
            ),
        ),
        forall|p: u8|
            classify(p) == Some(InstructionType::ImmediateToRegisterMemory) ==> has_pattern(
                entries(
                    immediate_to_register_or_memory_patterns(),
                    InstructionType::ImmediateToRegisterMemory,
                ),
                p,
            ),
{
    let e = entries(
        immediate_to_register_or_memory_patterns(),
        InstructionType::ImmediateToRegisterMemory,
    );
    assert(e[0].bit_pattern == 0xC7);
    assert(e[1].bit_pattern == 0xC6);
    assert(e[2].bit_pattern == 0x80);
    assert(e[3].bit_pattern == 0x83);
    assert(e[4].bit_pattern == 0x81);
    assert(e[5].bit_pattern == 0x82);
    assert(e[6].bit_pattern == 0x80);
}

/// The entries of `mov` of an immediate to a register are sound and hold every first byte
/// of their class.
proof fn lemma_immediate_to_register_mov_entries()
    ensures
        table_sound(
            entries(immediate_to_register_mov_patterns(), InstructionType::ImmediateToRegisterMOV),
        ),
        forall|p: u8|
            classify(p) == Some(InstructionType::ImmediateToRegisterMOV) ==> has_pattern(
                entries(
                    immediate_to_register_mov_patterns(),
                    InstructionType::ImmediateToRegisterMOV,
                ),
                p,
            ),
{
    let e = entries(immediate_to_register_mov_patterns(), InstructionType::ImmediateToRegisterMOV);
    assert(e[0].bit_pattern == 0xB0);
    assert(e[1].bit_pattern == 0xB1);
    assert(e[2].bit_pattern == 0xB2);
    assert(e[3].bit_pattern == 0xB3);
    assert(e[4].bit_pattern == 0xB4);
    assert(e[5].bit_pattern == 0xB5);
    assert(e[6].bit_pattern == 0xB6);
    assert(e[7].bit_pattern == 0xB7);
    assert(e[8].bit_pattern == 0xB8);
    assert(e[9].bit_pattern == 0xB9);
    assert(e[10].bit_pattern == 0xBA);
    assert(e[11].bit_pattern == 0xBB);
    assert(e[12].bit_pattern == 0xBC);
    assert(e[13].bit_pattern == 0xBD);
    assert(e[14].bit_pattern == 0xBE);
    assert(e[15].bit_pattern == 0xBF);
}

/// The accumulator entries are sound and hold every first byte of their classes.
proof fn lemma_accumulator_entries()
    ensures
        table_sound(
            entries(seq![0b00000100u8, 0b00000101u8], InstructionType::ImmediateToAccumulatorADD),
        ),
        table_sound(
            entries(seq![0b00111100u8, 0b00111101u8], InstructionType::ImmediateToAccumulatorCMP),
        ),
        table_sound(
            entries(seq![0b00101100u8, 0b00101101u8], InstructionType::ImmediateToAccumulatorSUB),
        ),
        forall|p: u8|
            classify(p) == Some(InstructionType::ImmediateToAccumulatorADD) ==> has_pattern(
                entries(
                    seq![0b00000100u8, 0b00000101u8],
                    InstructionType::ImmediateToAccumulatorADD,
                ),
                p,
            ),
        forall|p: u8|
            classify(p) == Some(InstructionType::ImmediateToAccumulatorCMP) ==> has_pattern(
                entries(
                    seq![0b00111100u8, 0b00111101u8],
                    InstructionType::ImmediateToAccumulatorCMP,
                ),
                p,
            ),
        forall|p: u8|
            classify(p) == Some(InstructionType::ImmediateToAccumulatorSUB) ==> has_pattern(
                entries(
                    seq![0b00101100u8, 0b00101101u8],
                    InstructionType::ImmediateToAccumulatorSUB,
                ),
                p,
            ),
{
    let d = entries(seq![0b00000100u8, 0b00000101u8], InstructionType::ImmediateToAccumulatorADD);
    let e = entries(seq![0b00111100u8, 0b00111101u8], InstructionType::ImmediateToAccumulatorCMP);
    let f = entries(seq![0b00101100u8, 0b00101101u8], InstructionType::ImmediateToAccumulatorSUB);
    assert(d[0].bit_pattern == 0x04);
    assert(d[1].bit_pattern == 0x05);
    assert(e[0].bit_pattern == 0x3C);
    assert(e[1].bit_pattern == 0x3D);
    assert(f[0].bit_pattern == 0x2C);
    assert(f[1].bit_pattern == 0x2D);
}

/// The jump entries are sound and hold the first byte of every jump and loop.
proof fn lemma_jump_entries()
    ensures
        table_sound(jump_entries()),
        forall|p: u8|
            classify(p) is Some && is_jump_class(classify(p)->0) ==> has_pattern(jump_entries(), p),
{
    let e = jump_entries();
    assert(e[0].bit_pattern == 0x74);
    assert(e[1].bit_pattern == 0x7C);
    assert(e[2].bit_pattern == 0x7E);
    assert(e[3].bit_pattern == 0x72);
    assert(e[4].bit_pattern == 0x76);
    assert(e[5].bit_pattern == 0x7A);
    assert(e[6].bit_pattern == 0x70);
    assert(e[7].bit_pattern == 0x78);
    assert(e[8].bit_pattern == 0x75);
    assert(e[9].bit_pattern == 0x7D);
    assert(e[10].bit_pattern == 0x7F);
    assert(e[11].bit_pattern == 0x73);
    assert(e[12].bit_pattern == 0x77);
    assert(e[13].bit_pattern == 0x7B);
    assert(e[14].bit_pattern == 0x71);
    assert(e[15].bit_pattern == 0x79);
    assert(e[16].bit_pattern == 0xE2);
    assert(e[17].bit_pattern == 0xE1);
    assert(e[18].bit_pattern == 0xE0);
    assert(e[19].bit_pattern == 0xE3);
}

/// Looking a byte up in the opcode table gives the class of `classify`.
pub proof fn lemma_opcode_table_classifies()
    ensures
        table_sound(opcode_table()),
        forall|b: u8| first_match(opcode_table(), b, 0) == classify(b),
{
    let a = entries(register_memory_patterns(), InstructionType::RegisterMemory);
    let b = entries(
        immediate_to_register_or_memory_patterns(),
        InstructionType::ImmediateToRegisterMemory,
    );
    let c = entries(immediate_to_register_mov_patterns(), InstructionType::ImmediateToRegisterMOV);
    let d = entries(seq![0b00000100u8, 0b00000101u8], InstructionType::ImmediateToAccumulatorADD);
    let e = entries(seq![0b00111100u8, 0b00111101u8], InstructionType::ImmediateToAccumulatorCMP);
    let f = entries(seq![0b00101100u8, 0b00101101u8], InstructionType::ImmediateToAccumulatorSUB);
    let g = jump_entries();
    lemma_register_memory_entries();
    lemma_immediate_to_register_or_memory_entries();
    lemma_immediate_to_register_mov_entries();
    lemma_accumulator_entries();
    lemma_jump_entries();
    let t1 = a + b;
    let t2 = t1 + c;
    let t3 = t2 + d;
    let t4 = t3 + e;
    let t5 = t4 + f;
    let table = t5 + g;
    lemma_sound_concat(a, b);
    lemma_has_pattern_concat(a, b);
    lemma_sound_concat(t1, c);
    lemma_has_pattern_concat(t1, c);
    lemma_sound_concat(t2, d);
    lemma_has_pattern_concat(t2, d);
    lemma_sound_concat(t3, e);
    lemma_has_pattern_concat(t3, e);
    lemma_sound_concat(t4, f);
    lemma_has_pattern_concat(t4, f);
    lemma_sound_concat(t5, g);
    lemma_has_pattern_concat(t5, g);
    assert(table == opcode_table());
    assert forall|p: u8| first_match(table, p, 0) == classify(p) by {
        lemma_first_match_sound(table, p, 0);
        if classify(p) is Some {
            let class = classify(p)->0;
            if class == InstructionType::RegisterMemory {
                assert(has_pattern(a, p));
                assert(has_pattern(t1, p));
            } else if class == InstructionType::ImmediateToRegisterMemory {
                assert(has_pattern(b, p));
                assert(has_pattern(t1, p));
            }
            if class == InstructionType::ImmediateToRegisterMOV {
                assert(has_pattern(c, p));
            }
            if has_mod_field(class) || class == InstructionType::ImmediateToRegisterMOV {
                assert(has_pattern(t2, p));
            }
            if class == InstructionType::ImmediateToAccumulatorADD {
                assert(has_pattern(d, p));
            }
            if !is_jump_class(class) && class != InstructionType::ImmediateToAccumulatorCMP
                && class != InstructionType::ImmediateToAccumulatorSUB {
                assert(has_pattern(t3, p));
            }
            if class == InstructionType::ImmediateToAccumulatorCMP {
                assert(has_pattern(e, p));
            }
            if !is_jump_class(class) && class != InstructionType::ImmediateToAccumulatorSUB {
                assert(has_pattern(t4, p));
            }
            if class == InstructionType::ImmediateToAccumulatorSUB {
                assert(has_pattern(f, p));
            }
            if !is_jump_class(class) {
                assert(has_pattern(t5, p));
            } else {
                assert(has_pattern(g, p));
            }
            assert(has_pattern(table, p));
        }
    }
}

/// Builds the opcode table. Looking a byte up in it gives exactly the class of `classify`.
pub fn construct_opcodes() -> (op_codes: Vec<OpCode>)
    ensures
        op_codes@ == opcode_table(),
        table_sound(op_codes@),
        forall|b: u8| first_match(op_codes@, b, 0) == classify(b),
{
    let register_memory: [u8; 20] = [
        0b10001011, 0b10001001, 0b10001010, 0b10001000, 0b00111000, 0b00111001, 0b00111010,
        0b00111011, 0b00101000, 0b00101001, 0b00101010, 0b00101011, 0b00101000, 0b00101001,
        0b00101010, 0b00101011, 0b00000000, 0b00000001, 0b00000010, 0b00000011,
    ];
    let immediate_to_register_or_memory: [u8; 7] = [
        0b11000111, 0b11000110, 0b10000000, 0b10000011, 0b10000001, 0b10000010, 0b10000000,
    ];
    let immediate_to_register_mov: [u8; 16] = [
        0b10110000, 0b10110001, 0b10110010, 0b10110011, 0b10110100, 0b10110101, 0b10110110,
        0b10110111, 0b10111000, 0b10111001, 0b10111010, 0b10111011, 0b10111100, 0b10111101,
        0b10111110, 0b10111111,
    ];
    let accumulator_add: [u8; 2] = [0b00000100, 0b00000101];
    let accumulator_cmp: [u8; 2] = [0b00111100, 0b00111101];
    let accumulator_sub: [u8; 2] = [0b00101100, 0b00101101];
    proof {
        assert(register_memory@ =~= register_memory_patterns());
        assert(immediate_to_register_or_memory@ =~= immediate_to_register_or_memory_patterns());
        assert(immediate_to_register_mov@ =~= immediate_to_register_mov_patterns());
        assert(accumulator_add@ =~= seq![0b00000100u8, 0b00000101u8]);
        assert(accumulator_cmp@ =~= seq![0b00111100u8, 0b00111101u8]);
        assert(accumulator_sub@ =~= seq![0b00101100u8, 0b00101101u8]);
    }

    let mut op_codes: Vec<OpCode> = Vec::new();
    push_patterns(&mut op_codes, register_memory.as_slice(), InstructionType::RegisterMemory);
    push_patterns(
        &mut op_codes,
        immediate_to_register_or_memory.as_slice(),
        InstructionType::ImmediateToRegisterMemory,
    );
    push_patterns(
        &mut op_codes,
        immediate_to_register_mov.as_slice(),
        InstructionType::ImmediateToRegisterMOV,
    );
    push_patterns(
        &mut op_codes,
        accumulator_add.as_slice(),
        InstructionType::ImmediateToAccumulatorADD,
    );
    push_patterns(
        &mut op_codes,
        accumulator_cmp.as_slice(),
        InstructionType::ImmediateToAccumulatorCMP,
    );
    push_patterns(
        &mut op_codes,
        accumulator_sub.as_slice(),
        InstructionType::ImmediateToAccumulatorSUB,
    );
    let ghost before_jumps = op_codes@;
    op_codes.push(OpCode { bit_pattern: 0b01110100, t: InstructionType::JE_JUMP });
    op_codes.push(OpCode { bit_pattern: 0b01111100, t: InstructionType::JL_JUMP });
    op_codes.push(OpCode { bit_pattern: 0b01111110, t: InstructionType::JLE_JUMP });
    op_codes.push(OpCode { bit_pattern: 0b01110010, t: InstructionType::JB_JUMP });
    op_codes.push(OpCode { bit_pattern: 0b01110110, t: InstructionType::JBE_JUMP });
    op_codes.push(OpCode { bit_pattern: 0b01111010, t: InstructionType::JP_JUMP });
    op_codes.push(OpCode { bit_pattern: 0b01110000, t: InstructionType::JO_JUMP });
    op_codes.push(OpCode { bit_pattern: 0b01111000, t: InstructionType::JS_JUMP });
    op_codes.push(OpCode { bit_pattern: 0b01110101, t: InstructionType::JNE_JUMP });
    op_codes.push(OpCode { bit_pattern: 0b01111101, t: InstructionType::JNL_JUMP });
    op_codes.push(OpCode { bit_pattern: 0b01111111, t: InstructionType::JNLE_JUMP });
    op_codes.push(OpCode { bit_pattern: 0b01110011, t: InstructionType::JNB_JUMP });
    op_codes.push(OpCode { bit_pattern: 0b01110111, t: InstructionType::JNBE_JUMP });
    op_codes.push(OpCode { bit_pattern: 0b01111011, t: InstructionType::JNP_JUMP });
    op_codes.push(OpCode { bit_pattern: 0b01110001, t: InstructionType::JNO_JUMP });
    op_codes.push(OpCode { bit_pattern: 0b01111001, t: InstructionType::JNS });
    op_codes.push(OpCode { bit_pattern: 0b11100010, t: InstructionType::LOOP });
    op_codes.push(OpCode { bit_pattern: 0b11100001, t: InstructionType::LOOPZ });
    op_codes.push(OpCode { bit_pattern: 0b11100000, t: InstructionType::LOOPNZ });
    op_codes.push(OpCode { bit_pattern: 0b11100011, t: InstructionType::JCXZ });
    proof {
        assert(op_codes@ =~= before_jumps + jump_entries());
        assert(before_jumps =~= Seq::<OpCode>::empty() + entries(
            register_memory_patterns(),
            InstructionType::RegisterMemory,
        ) + entries(
            immediate_to_register_or_memory_patterns(),
            InstructionType::ImmediateToRegisterMemory,
        ) + entries(immediate_to_register_mov_patterns(), InstructionType::ImmediateToRegisterMOV)
            + entries(seq![0b00000100u8, 0b00000101u8], InstructionType::ImmediateToAccumulatorADD)
            + entries(seq![0b00111100u8, 0b00111101u8], InstructionType::ImmediateToAccumulatorCMP)
            + entries(seq![0b00101100u8, 0b00101101u8], InstructionType::ImmediateToAccumulatorSUB));
        assert(op_codes@ =~= opcode_table());
        lemma_opcode_table_classifies();
    }
    op_codes
}

/// Finds the class of a first byte: that of the first table entry with this pattern.
pub fn determine_instruction(op_codes: &Vec<OpCode>, first_byte: u8) -> (r: Result<
    InstructionType,
    DecodeError,
>)
    ensures
        match first_match(op_codes@, first_byte, 0) {
            Some(t) => r == Ok::<InstructionType, DecodeError>(t),
            None => r == Err::<InstructionType, DecodeError>(DecodeError::UnsupportedOpcode),
        },
{
    let mut i: usize = 0;
    while i < op_codes.len()
        invariant
            i <= op_codes@.len(),
            first_match(op_codes@, first_byte, 0) == first_match(op_codes@, first_byte, i as int),
        decreases op_codes@.len() - i,
    {
        if op_codes[i].bit_pattern == first_byte {
            return Ok(op_codes[i].t);
        }
        i += 1;
    }
    Err(DecodeError::UnsupportedOpcode)
}

/// How the second byte addresses the R/M operand.
#[derive(PartialEq, Eq, Clone, Copy, Debug, Structural)]
pub enum MemoryModeEnum {
    MemoryModeNoDisplacement,
    MemoryMode8Bit,
    MemoryMode16Bit,
    RegisterMode,
    DirectMemoryOperation,
}

/// The bit masks of the fields of the first two bytes.
#[allow(non_camel_case_types)]
#[derive(PartialEq, Eq, Clone, Copy, Debug, Structural)]
pub enum Masks {
    IMMEDIATE_TO_REG_MOV_W_BIT,
    MOD_BITS,
    W_BIT,
    RM_BITS,
    REG_BITS,
    D_BITS,
}

/// The sign-extend bit of an immediate instruction sits where the direction bit does.
pub const S_BIT_M: Masks = Masks::D_BITS;

/// The register of a `mov` of an immediate sits in the first byte where R/M does in the second.
pub const IMMEDIATE_TO_MOV_REG_BITS: Masks = Masks::RM_BITS;

impl Masks {
    /// The bits that the mask selects.
    pub open spec fn spec_bits(self) -> u8 {
        match self {
            Masks::IMMEDIATE_TO_REG_MOV_W_BIT => 0b0000_1000,
            Masks::MOD_BITS => 0b1100_0000,
            Masks::W_BIT => 0b0000_0001,
            Masks::RM_BITS => 0b0000_0111,
            Masks::REG_BITS => 0b0011_1000,
            Masks::D_BITS => 0b0000_0010,
        }
    }

    /// The bits that the mask selects.
    #[verifier::when_used_as_spec(spec_bits)]
    pub fn bits(self) -> (r: u8)
        ensures
            r == self.spec_bits(),
    {
        match self {
            Masks::IMMEDIATE_TO_REG_MOV_W_BIT => 0b0000_1000,
            Masks::MOD_BITS => 0b1100_0000,
            Masks::W_BIT => 0b0000_0001,
            Masks::RM_BITS => 0b0000_0111,
            Masks::REG_BITS => 0b0011_1000,
            Masks::D_BITS => 0b0000_0010,
        }
    }
}

/// The MOD field: the two highest bits of a second byte.
pub open spec fn spec_mod_field(byte: u8) -> u8 {
    byte / 64
}

/// The REG field: bits 3 to 5 of a second byte.
pub open spec fn spec_reg_field(byte: u8) -> u8 {
    (byte / 8) % 8
}

/// The R/M field: the three lowest bits of a second byte.
pub open spec fn spec_rm_field(byte: u8) -> u8 {
    byte % 8
}

/// The width bit W: bit 0 of a first byte.
pub open spec fn spec_width_bit(byte: u8) -> bool {
    byte % 2 == 1
}

/// Bit 1 of a first byte: the direction bit D, or the sign-extend bit S of an immediate form.
pub open spec fn spec_direction_bit(byte: u8) -> bool {
    (byte / 2) % 2 == 1
}

/// Bit 3 of a first byte: the width bit of a `mov` of an immediate to a register.
pub open spec fn spec_mov_width_bit(byte: u8) -> bool {
    (byte / 8) % 2 == 1
}

/// The MOD field of a second byte.
#[verifier::when_used_as_spec(spec_mod_field)]
pub fn mod_field(byte: u8) -> (r: u8)
    ensures
        r == spec_mod_field(byte),
        r < 4,
{
    let r = (byte & Masks::MOD_BITS.bits()) >> 6;
    assert((byte & 0b1100_0000) >> 6 == byte / 64) by (bit_vector);
    r
}

/// The REG field of a second byte.
#[verifier::when_used_as_spec(spec_reg_field)]
pub fn reg_field(byte: u8) -> (r: u8)
    ensures
        r == spec_reg_field(byte),
        r < 8,
{
    let r = (byte & Masks::REG_BITS.bits()) >> 3;
    assert((byte & 0b0011_1000) >> 3 == (byte / 8) % 8) by (bit_vector);
    r
}

/// The R/M field of a second byte.
#[verifier::when_used_as_spec(spec_rm_field)]
pub fn rm_field(byte: u8) -> (r: u8)
    ensures
        r == spec_rm_field(byte),
        r < 8,
{
    let r = byte & Masks::RM_BITS.bits();
    assert(byte & 0b0000_0111 == byte % 8) by (bit_vector);
    r
}

/// The width bit W of a first byte.
#[verifier::when_used_as_spec(spec_width_bit)]
pub fn width_bit(byte: u8) -> (r: bool)
    ensures
        r == spec_width_bit(byte),
{
    let r = byte & Masks::W_BIT.bits() != 0;
    assert((byte & 0b0000_0001 != 0) == (byte % 2 == 1)) by (bit_vector);
    r
}

/// The direction bit D of a first byte.
#[verifier::when_used_as_spec(spec_direction_bit)]
pub fn direction_bit(byte: u8) -> (r: bool)
    ensures
        r == spec_direction_bit(byte),
{
    let r = byte & Masks::D_BITS.bits() != 0;
    assert((byte & 0b0000_0010 != 0) == ((byte / 2) % 2 == 1)) by (bit_vector);
    r
}

/// The sign-extend bit S of an immediate form: the same bit as D.
#[verifier::when_used_as_spec(spec_direction_bit)]
pub fn sign_bit(byte: u8) -> (r: bool)
    ensures
        r == spec_direction_bit(byte),
{
    let r = byte & S_BIT_M.bits() == 0b0000_0010;
    assert((byte & 0b0000_0010 == 0b0000_0010) == ((byte / 2) % 2 == 1)) by (bit_vector);
    r
}

/// The width bit of a `mov` of an immediate to a register.
#[verifier::when_used_as_spec(spec_mov_width_bit)]
pub fn mov_width_bit(byte: u8) -> (r: bool)
    ensures
        r == spec_mov_width_bit(byte),
{
    let r = byte & Masks::IMMEDIATE_TO_REG_MOV_W_BIT.bits() != 0;
    assert((byte & 0b0000_1000 != 0) == ((byte / 8) % 2 == 1)) by (bit_vector);
    r
}

/// The 16-bit value with the given high and low byte.
pub open spec fn spec_combine_bytes(high: u8, low: u8) -> u16 {
    (high * 256 + low) as u16
}

/// Joins a high and a low byte to a 16-bit value.
#[verifier::when_used_as_spec(spec_combine_bytes)]
pub fn combine_bytes(high: u8, low: u8) -> (r: u16)
    ensures
        r == spec_combine_bytes(high, low),
        r == high * 256 + low,
{
    let r = ((high as u16) << 8) | (low as u16);
    assert(((high as u16) << 8) | (low as u16) == (high as u16) * 256 + (low as u16))
        by (bit_vector);
    r
}

/// The addressing mode that a second byte selects. MOD 00 with R/M 110 is no memory
/// operand without displacement: it is a direct 16-bit address.
pub open spec fn memory_mode_of(second_byte: u8) -> MemoryModeEnum {
    let mod_bits = spec_mod_field(second_byte);
    if mod_bits == 3 {
        MemoryModeEnum::RegisterMode
    } else if mod_bits == 2 {
        MemoryModeEnum::MemoryMode16Bit
    } else if mod_bits == 1 {
        MemoryModeEnum::MemoryMode8Bit
    } else if spec_rm_field(second_byte) == 6 {
        MemoryModeEnum::DirectMemoryOperation
    } else {
        MemoryModeEnum::MemoryModeNoDisplacement
    }
}

/// The addressing mode that a second byte selects.
pub fn determine_memory_mode(second_byte: u8) -> (r: MemoryModeEnum)
    ensures
        r == memory_mode_of(second_byte),
{
    let mod_bits = mod_field(second_byte);
    if mod_bits == 0 {
        if rm_field(second_byte) == 0b110 {
            MemoryModeEnum::DirectMemoryOperation
        } else {
            MemoryModeEnum::MemoryModeNoDisplacement
        }
    } else if mod_bits == 1 {
        MemoryModeEnum::MemoryMode8Bit
    } else if mod_bits == 2 {
        MemoryModeEnum::MemoryMode16Bit
    } else {
        MemoryModeEnum::RegisterMode
    }
}

/// A second byte with MOD 00 and R/M 110 selects the direct address, never a memory
/// operand without displacement, whatever its REG field is.
pub proof fn lemma_direct_address_for_every_reg(reg: u8)
    requires
        reg < 8,
    ensures
        spec_mod_field((reg * 8 + 6) as u8) == 0,
        spec_reg_field((reg * 8 + 6) as u8) == reg,
        spec_rm_field((reg * 8 + 6) as u8) == 6,
        memory_mode_of((reg * 8 + 6) as u8) == MemoryModeEnum::DirectMemoryOperation,
{
}

/// Among the second bytes with MOD 00, exactly those with R/M 110 select the direct
/// address; the others select a memory operand without displacement.
pub proof fn lemma_direct_address_only_for_rm_110(second_byte: u8)
    requires
        spec_mod_field(second_byte) == 0,
    ensures
        spec_rm_field(second_byte) == 6 <==> memory_mode_of(second_byte)
            == MemoryModeEnum::DirectMemoryOperation,
        spec_rm_field(second_byte) != 6 <==> memory_mode_of(second_byte)
            == MemoryModeEnum::MemoryModeNoDisplacement,
{
}

/// Whether the R/M operand of the mode lies in memory.
pub open spec fn uses_memory(memory_mode: MemoryModeEnum) -> bool {
    memory_mode != MemoryModeEnum::RegisterMode
}

/// Whether the R/M operand of the mode lies in memory.
pub fn instruction_uses_memory(memory_mode: MemoryModeEnum) -> (r: bool)
    ensures
        r == uses_memory(memory_mode),
{
    match memory_mode {
        MemoryModeEnum::RegisterMode => false,
        _ => true,
    }
}

/// The number of displacement bytes that follow the second byte.
pub open spec fn displacement_len(memory_mode: MemoryModeEnum) -> nat {
    match memory_mode {
        MemoryModeEnum::MemoryModeNoDisplacement => 0,
        MemoryModeEnum::RegisterMode => 0,
        MemoryModeEnum::MemoryMode8Bit => 1,
        MemoryModeEnum::MemoryMode16Bit => 2,
        MemoryModeEnum::DirectMemoryOperation => 2,
    }
}

/// The four mnemonics of the move and arithmetic classes.
pub open spec fn is_arithmetic_mnemonic(mnemonic: Seq<char>) -> bool {
    mnemonic == "mov"@ || mnemonic == "add"@ || mnemonic == "sub"@ || mnemonic == "cmp"@
}

/// Whether the immediate of an immediate-to-register-or-memory instruction has 16 bits.
/// `mov` goes by the width bit alone; for the others a set sign-extend bit means an
/// 8-bit immediate that is widened when it is used.
pub open spec fn immediate_is_word(mnemonic: Seq<char>, is_word_size: bool, s_bit_set: bool) -> bool {
    if mnemonic == "mov"@ {
        is_word_size
    } else {
        is_word_size && !s_bit_set
    }
}

/// The length of an instruction in bytes: the opcode byte, for the classes with a MOD field
/// the second byte and the displacement, then the immediate or the jump offset.
pub open spec fn instruction_byte_size(
    inst: InstructionType,
    is_word_size: bool,
    memory_mode: MemoryModeEnum,
    mnemonic: Seq<char>,
    s_bit_set: bool,
) -> Result<usize, DecodeError> {
    if inst == InstructionType::RegisterMemory {
        Ok((2 + displacement_len(memory_mode)) as usize)
    } else if inst == InstructionType::ImmediateToRegisterMemory {
        if is_arithmetic_mnemonic(mnemonic) {
            Ok(
                (2 + displacement_len(memory_mode) + if immediate_is_word(
                    mnemonic,
                    is_word_size,
                    s_bit_set,
                ) {
                    2nat
                } else {
                    1nat
                }) as usize,
            )
        } else {
            Err(DecodeError::InvariantViolation)
        }
    } else if inst == InstructionType::ImmediateToRegisterMOV || is_accumulator_class(inst) {
        Ok(
            if is_word_size {
                3usize
            } else {
                2usize
            },
        )
    } else {
        Ok(2usize)
    }
}

/// Every instruction is between two and six bytes long.
pub proof fn lemma_instruction_byte_size_bounds(
    inst: InstructionType,
    is_word_size: bool,
    memory_mode: MemoryModeEnum,
    mnemonic: Seq<char>,
    s_bit_set: bool,
)
    ensures
        instruction_byte_size(inst, is_word_size, memory_mode, mnemonic, s_bit_set) matches Ok(n)
            ==> 2 <= n <= 6,
{
}

/// The length of an instruction in bytes. Only an immediate to a register or memory
/// asks for its mnemonic, and fails on one that is none of `mov`, `add`, `sub`, `cmp`.
pub fn determine_instruction_byte_size(
    inst: InstructionType,
    is_word_size: bool,
    memory_mode: MemoryModeEnum,
    mnemonic: &'static str,
    s_bit_set: bool,
) -> (r: Result<usize, DecodeError>)
    ensures
        r == instruction_byte_size(inst, is_word_size, memory_mode, mnemonic@, s_bit_set),
{
    match inst {
        InstructionType::RegisterMemory => {
            match memory_mode {
                MemoryModeEnum::MemoryModeNoDisplacement => Ok(2),
                MemoryModeEnum::MemoryMode8Bit => Ok(3),
                MemoryModeEnum::MemoryMode16Bit => Ok(4),
                MemoryModeEnum::RegisterMode => Ok(2),
                MemoryModeEnum::DirectMemoryOperation => Ok(4),
            }
        },
        InstructionType::ImmediateToRegisterMemory => {
            let header: usize = match memory_mode {
                MemoryModeEnum::MemoryModeNoDisplacement => 2,
                MemoryModeEnum::RegisterMode => 2,
                MemoryModeEnum::MemoryMode8Bit => 3,
                MemoryModeEnum::MemoryMode16Bit => 4,
                MemoryModeEnum::DirectMemoryOperation => 4,
            };
            if str_eq(mnemonic, "mov") {
                if is_word_size {
                    Ok(header + 2)
                } else {
                    Ok(header + 1)
                }
            } else if str_eq(mnemonic, "add") || str_eq(mnemonic, "sub") || str_eq(
                mnemonic,
                "cmp",
            ) {
                if is_word_size && !s_bit_set {
                    Ok(header + 2)
                } else {
                    Ok(header + 1)
                }
            } else {
                Err(DecodeError::InvariantViolation)
            }
        },
        InstructionType::ImmediateToRegisterMOV
        | InstructionType::ImmediateToAccumulatorSUB
        | InstructionType::ImmediateToAccumulatorADD
        | InstructionType::ImmediateToAccumulatorCMP => {
            if is_word_size {
                Ok(3)
            } else {
                Ok(2)
            }
        },
        _ => Ok(2),
    }
}

} // verus!
