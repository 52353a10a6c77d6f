use vstd::prelude::*;
use vstd::string::*;
use crate::bits::{InstructionType, MemoryModeEnum};
use crate::errors::ExecError;
use crate::text::{decimal, find_separator, is_composite, push_decimal, str_eq};

verus! {

/// The contents of a register or of a memory operand: nothing yet, 8 bits or 16 bits.
#[derive(Copy, Clone, Debug, PartialEq, Eq, Structural)]
pub enum ValueEnum {
    ByteSize(u8),
    WordSize(u16),
    Uninitialized,
}

/// A value together with its sign: `is_signed` tells whether the highest bit is set.
#[derive(Copy, Clone, Debug, PartialEq, Eq, Structural)]
pub struct Value {
    pub value: ValueEnum,
    pub is_signed: bool,
}

impl ValueEnum {
    /// The stored bits as a number; nothing stored counts as 0.
    pub open spec fn spec_get_usize(self) -> usize {
        match self {
            ValueEnum::ByteSize(val) => val as usize,
            ValueEnum::WordSize(val) => val as usize,
            ValueEnum::Uninitialized => 0,
        }
    }

    /// The stored bits as a number.
    #[verifier::when_used_as_spec(spec_get_usize)]
    pub fn get_usize(self) -> (r: usize)
        ensures
            r == self.spec_get_usize(),
    {
        match self {
            ValueEnum::ByteSize(val) => val as usize,
            ValueEnum::WordSize(val) => val as usize,
            ValueEnum::Uninitialized => 0,
        }
    }

    /// Whether the highest bit is set: bit 7 of 8 bits, bit 15 of 16 bits.
    pub open spec fn spec_high_bit(self) -> bool {
        match self {
            ValueEnum::ByteSize(val) => val >= 0x80,
            ValueEnum::WordSize(val) => val >= 0x8000,
            ValueEnum::Uninitialized => false,
        }
    }

    /// The number of values of this width: 256 for 8 bits, 65536 for 16 bits.
    pub open spec fn modulus(self) -> nat {
        match self {
            ValueEnum::ByteSize(_) => 0x100,
            ValueEnum::WordSize(_) => 0x1_0000,
            ValueEnum::Uninitialized => 1,
        }
    }

    /// The value of the same width whose bits are `n` modulo the width.
    pub open spec fn with_bits(self, n: int) -> ValueEnum {
        match self {
            ValueEnum::ByteSize(_) => ValueEnum::ByteSize((n % 0x100) as u8),
            ValueEnum::WordSize(_) => ValueEnum::WordSize((n % 0x1_0000) as u16),
            ValueEnum::Uninitialized => ValueEnum::Uninitialized,
        }
    }
}

/// Whether the highest bit of the value is set.
pub fn number_is_signed(value: ValueEnum) -> (r: bool)
    ensures
        r == value.spec_high_bit(),
{
    match value {
        ValueEnum::ByteSize(val) => val >= 0x80,
        ValueEnum::WordSize(val) => val >= 0x8000,
        ValueEnum::Uninitialized => false,
    }
}

/// The value with these bits and the sign that they have.
pub open spec fn value_of(value: ValueEnum) -> Value {
    Value { value: value, is_signed: value.spec_high_bit() }
}

/// The value of a place that nothing was written to.
pub open spec fn no_value() -> Value {
    Value { value: ValueEnum::Uninitialized, is_signed: false }
}

impl Value {
    /// The sign flag agrees with the highest bit.
    pub open spec fn wf(self) -> bool {
        self.is_signed == self.value.spec_high_bit()
    }

    /// The value with these bits and the sign that they have.
    pub fn new(value: ValueEnum) -> (r: Value)
        ensures
            r == value_of(value),
            r.wf(),
    {
        Value { value, is_signed: number_is_signed(value) }
    }

    /// The sum modulo the width of `self`. Nothing stored stays nothing stored.
    pub open spec fn spec_wrap_add(self, value_src: ValueEnum) -> Value {
        if self.value is Uninitialized {
            self
        } else {
            value_of(self.value.with_bits(self.value.spec_get_usize() + value_src.spec_get_usize()))
        }
    }

    /// The difference modulo the width of `self`. Nothing stored stays nothing stored.
    pub open spec fn spec_wrap_sub(self, value_src: ValueEnum) -> Value {
        if self.value is Uninitialized {
            self
        } else {
            value_of(self.value.with_bits(self.value.spec_get_usize() - value_src.spec_get_usize()))
        }
    }

    /// Adds `value_src` in place, modulo the width of `self`.
    pub fn wrap_add(&mut self, value_src: ValueEnum)
        ensures
            *final(self) == old(self).spec_wrap_add(value_src),
            old(self).wf() ==> final(self).wf(),
    {
        *self = self.wrap_add_and_return_result(value_src);
    }

    /// Subtracts `value_src` in place, modulo the width of `self`.
    pub fn wrap_sub(&mut self, value_src: ValueEnum)
        ensures
            *final(self) == old(self).spec_wrap_sub(value_src),
            old(self).wf() ==> final(self).wf(),
    {
        *self = self.wrap_sub_and_return_result(value_src);
    }

    /// The sum of `self` and `value_src`, modulo the width of `self`.
    pub fn wrap_add_and_return_result(self, value_src: ValueEnum) -> (r: Value)
        ensures
            r == self.spec_wrap_add(value_src),
            self.wf() ==> r.wf(),
    {
        let source = value_src.get_usize();
        match self.value {
            ValueEnum::ByteSize(val) => {
                let low = (source % 0x100) as u8;
                Value::new(ValueEnum::ByteSize(val.wrapping_add(low)))
            },
            ValueEnum::WordSize(val) => {
                let low = (source % 0x1_0000) as u16;
                Value::new(ValueEnum::WordSize(val.wrapping_add(low)))
            },
            ValueEnum::Uninitialized => self,
        }
    }

    /// The difference of `self` and `value_src`, modulo the width of `self`.
    pub fn wrap_sub_and_return_result(self, value_src: ValueEnum) -> (r: Value)
        ensures
            r == self.spec_wrap_sub(value_src),
            self.wf() ==> r.wf(),
    {
        let source = value_src.get_usize();
        match self.value {
            ValueEnum::ByteSize(val) => {
                let low = (source % 0x100) as u8;
                Value::new(ValueEnum::ByteSize(val.wrapping_sub(low)))
            },
            ValueEnum::WordSize(val) => {
                let low = (source % 0x1_0000) as u16;
                Value::new(ValueEnum::WordSize(val.wrapping_sub(low)))
            },
            ValueEnum::Uninitialized => self,
        }
    }

    /// The distance of the signed reading from zero: for a set sign flag the two's
    /// complement of the bits, else the bits themselves.
    pub open spec fn magnitude(self) -> nat {
        if self.is_signed {
            (self.value.modulus() - self.value.spec_get_usize()) as nat
        } else {
            self.value.spec_get_usize() as nat
        }
    }

    /// The decimal text of the signed reading: a minus sign and the magnitude where the
    /// sign flag is set, the bits as a number where it is not.
    pub open spec fn rendering(self) -> Seq<char> {
        if self.is_signed {
            seq!['-'] + decimal(self.magnitude())
        } else {
            decimal(self.magnitude())
        }
    }

    /// The decimal text of the value, with a minus sign if its sign flag is set.
    pub fn get_string_number_from_bits(self) -> (r: String)
        requires
            self.wf(),
        ensures
            r@ == self.rendering(),
    {
        let mut out = String::new();
        if self.is_signed {
            out.append("-");
            proof {
                reveal_strlit("-");
                assert(out@ =~= seq!['-']);
            }
            match self.value {
                ValueEnum::ByteSize(val) => push_decimal(&mut out, 0x100 - val as usize),
                ValueEnum::WordSize(val) => push_decimal(&mut out, 0x1_0000 - val as usize),
                ValueEnum::Uninitialized => {},
            }
        } else {
            push_decimal(&mut out, self.value.get_usize());
            assert(out@ =~= decimal(self.magnitude()));
        }
        out
    }
}

/// Adding two 16-bit values gives their sum modulo 65536, and subtracting them their
/// difference modulo 65536.
pub proof fn lemma_word_arithmetic_wraps(a: u16, b: u16)
    ensures
        value_of(ValueEnum::WordSize(a)).spec_wrap_add(ValueEnum::WordSize(b)) == value_of(
            ValueEnum::WordSize(((a + b) % 65536) as u16),
        ),
        value_of(ValueEnum::WordSize(a)).spec_wrap_sub(ValueEnum::WordSize(b)) == value_of(
            ValueEnum::WordSize(((a - b) % 65536) as u16),
        ),
{
}

/// Adding two 8-bit values gives their sum modulo 256, and subtracting them their
/// difference modulo 256.
pub proof fn lemma_byte_arithmetic_wraps(a: u8, b: u8)
    ensures
        value_of(ValueEnum::ByteSize(a)).spec_wrap_add(ValueEnum::ByteSize(b)) == value_of(
            ValueEnum::ByteSize(((a + b) % 256) as u8),
        ),
        value_of(ValueEnum::ByteSize(a)).spec_wrap_sub(ValueEnum::ByteSize(b)) == value_of(
            ValueEnum::ByteSize(((a - b) % 256) as u8),
        ),
{
}

/// Arithmetic keeps the width of the left operand and yields a well-formed value
/// from a well-formed one.
pub proof fn lemma_wrap_keeps_width(v: Value, source: ValueEnum)
    ensures
        v.spec_wrap_add(source).value is ByteSize <==> v.value is ByteSize,
        v.spec_wrap_add(source).value is WordSize <==> v.value is WordSize,
        v.spec_wrap_sub(source).value is ByteSize <==> v.value is ByteSize,
        v.spec_wrap_sub(source).value is WordSize <==> v.value is WordSize,
        v.wf() ==> v.spec_wrap_add(source).wf() && v.spec_wrap_sub(source).wf(),
{
}

/// One register of the file: its name, its contents and the contents it had when the
/// last instruction had finished, for reporting what an instruction changed.
#[derive(Copy, Clone, Debug, PartialEq, Eq)]
pub struct Register {
    pub register: &'static str,
    pub updated_value: Value,
    pub original_value: Value,
}

/// A register that nothing was written to.
pub open spec fn empty_register(name: &'static str) -> Register {
    Register { register: name, updated_value: no_value(), original_value: no_value() }
}

/// The register file at the start: the eight 16-bit registers, then the eight 8-bit
/// ones, each a slot of its own and none written to.
pub open spec fn initial_registers() -> Seq<Register> {
    seq![
        empty_register("ax"),
        empty_register("cx"),
        empty_register("dx"),
        empty_register("bx"),
        empty_register("sp"),
        empty_register("bp"),
        empty_register("si"),
        empty_register("di"),
        empty_register("al"),
        empty_register("cl"),
        empty_register("dl"),
        empty_register("bl"),
        empty_register("ah"),
        empty_register("ch"),
        empty_register("dh"),
        empty_register("bh"),
    ]
}

/// The register file at the start.
pub fn construct_registers() -> (registers: Vec<Register>)
    ensures
        registers@ == initial_registers(),
        registers_wf(registers@),
{
    let names: [&'static str; 16] = [
        "ax", "cx", "dx", "bx", "sp", "bp", "si", "di", "al", "cl", "dl", "bl", "ah", "ch", "dh",
        "bh",
    ];
    let mut registers: Vec<Register> = Vec::with_capacity(16);
    let mut i: usize = 0;
    while i < 16
        invariant
            i <= 16,
            names@.len() == 16,
            registers@.len() == i,
            forall|k: int| 0 <= k < i ==> #[trigger] registers@[k] == empty_register(names@[k]),
        decreases 16 - i,
    {
        registers.push(
            Register {
                register: names[i],
                updated_value: Value { value: ValueEnum::Uninitialized, is_signed: false },
                original_value: Value { value: ValueEnum::Uninitialized, is_signed: false },
            },
        );
        i += 1;
    }
    assert(registers@ =~= initial_registers());
    registers
}

/// Whether the name joins registers with `+` or `-`.
pub fn register_contains_multiple_registers(register: &str) -> (r: bool)
    ensures
        r == is_composite(register@),
{
    find_separator(register, 0) < register.unicode_len()
}

/// The index of the first register at or after `from` that has the name `name`.
pub open spec fn find_register(registers: Seq<Register>, name: Seq<char>, from: int) -> Option<int>
    decreases registers.len() - from,
{
    if from < 0 || from >= registers.len() {
        None
    } else if registers[from].register@ == name {
        Some(from)
    } else {
        find_register(registers, name, from + 1)
    }
}

/// What `find_register` finds is an index of a register with that name.
pub proof fn lemma_find_register_in_range(registers: Seq<Register>, name: Seq<char>, from: int)
    requires
        0 <= from,
    ensures
        find_register(registers, name, from) matches Some(i) ==> from <= i < registers.len()
            && registers[i].register@ == name,
    decreases registers.len() - from,
{
    if from < registers.len() && registers[from].register@ != name {
        lemma_find_register_in_range(registers, name, from + 1);
    }
}

/// Replacing a register by one of the same name moves no name, so every search finds what
/// it found before.
pub proof fn lemma_update_keeps_names(
    registers: Seq<Register>,
    i: int,
    replacement: Register,
    name: Seq<char>,
    from: int,
)
    requires
        0 <= i < registers.len(),
        replacement.register == registers[i].register,
        0 <= from,
    ensures
        find_register(registers.update(i, replacement), name, from) == find_register(
            registers,
            name,
            from,
        ),
    decreases registers.len() - from,
{
    if from < registers.len() {
        lemma_update_keeps_names(registers, i, replacement, name, from + 1);
    }
}

/// The state of the register `name`: the first of that name in the file. A composite
/// name stands for no single register.
pub open spec fn register_state(registers: Seq<Register>, name: Seq<char>) -> Result<
    Register,
    ExecError,
> {
    if is_composite(name) {
        Err(ExecError::CompositeRegister)
    } else {
        match find_register(registers, name, 0) {
            Some(i) => Ok(registers[i]),
            None => Err(ExecError::UnknownRegister),
        }
    }
}

fn position_of_register(register: &str, registers: &Vec<Register>) -> (r: Option<usize>)
    ensures
        r matches Some(i) ==> i < registers@.len() && find_register(registers@, register@, 0)
            == Some(i as int),
        r is None ==> find_register(registers@, register@, 0) is None,
{
    let mut i: usize = 0;
    while i < registers.len()
        invariant
            i <= registers@.len(),
            find_register(registers@, register@, 0) == find_register(
                registers@,
                register@,
                i as int,
            ),
        decreases registers@.len() - i,
    {
        if str_eq(registers[i].register, register) {
            proof {
                lemma_find_register_in_range(registers@, register@, i as int);
            }
            return Some(i);
        }
        i += 1;
    }
    None
}

/// The register named `register`. Fails on a composite name and on a name that no
/// register has.
pub fn get_register_state(register: &str, registers: &Vec<Register>) -> (r: Result<
    Register,
    ExecError,
>)
    ensures
        r == register_state(registers@, register@),
{
    if register_contains_multiple_registers(register) {
        return Err(ExecError::CompositeRegister);
    }
    match position_of_register(register, registers) {
        Some(i) => Ok(registers[i]),
        None => Err(ExecError::UnknownRegister),
    }
}

/// The zero of the width.
pub open spec fn zero_value(is_word_size: bool) -> ValueEnum {
    if is_word_size {
        ValueEnum::WordSize(0)
    } else {
        ValueEnum::ByteSize(0)
    }
}

/// What a destination register holds after an instruction with the source `value`.
/// `mov` overwrites, and a source that nothing was written to moves a zero of the
/// operand width; `add` and `sub` compute in the width of the destination; `cmp`
/// and the jumps leave the register as it is. The accumulator classes add and subtract
/// whatever the mnemonic says.
pub open spec fn updated_value_after(
    current: Value,
    value: ValueEnum,
    instruction: InstructionType,
    mnemonic: Seq<char>,
    is_word_size: bool,
) -> Result<Value, ExecError> {
    match instruction {
        InstructionType::ImmediateToAccumulatorADD => Ok(current.spec_wrap_add(value)),
        InstructionType::ImmediateToAccumulatorSUB => Ok(current.spec_wrap_sub(value)),
        InstructionType::ImmediateToRegisterMemory | InstructionType::RegisterMemory => {
            if mnemonic == "mov"@ {
                if value is Uninitialized {
                    Ok(value_of(zero_value(is_word_size)))
                } else {
                    Ok(value_of(value))
                }
            } else if mnemonic == "add"@ {
                Ok(current.spec_wrap_add(value))
            } else if mnemonic == "sub"@ {
                Ok(current.spec_wrap_sub(value))
            } else if mnemonic == "cmp"@ {
                Ok(current)
            } else {
                Err(ExecError::UnknownMnemonic)
            }
        },
        InstructionType::ImmediateToRegisterMOV => Ok(value_of(value)),
        _ => Ok(current),
    }
}

/// The register file after the instruction has acted on the register `name`.
pub open spec fn registers_after_update(
    registers: Seq<Register>,
    name: Seq<char>,
    value: ValueEnum,
    instruction: InstructionType,
    mnemonic: Seq<char>,
    is_word_size: bool,
) -> Result<Seq<Register>, ExecError> {
    match find_register(registers, name, 0) {
        None => Err(ExecError::UnknownRegister),
        Some(i) => match updated_value_after(
            registers[i].updated_value,
            value,
            instruction,
            mnemonic,
            is_word_size,
        ) {
            Err(e) => Err(e),
            Ok(v) => Ok(
                registers.update(
                    i,
                    Register {
                        register: registers[i].register,
                        updated_value: v,
                        original_value: registers[i].original_value,
                    },
                ),
            ),
        },
    }
}

/// Applies an instruction to its destination register. The addressing mode plays no
/// part in it. On an error the file is unchanged.
#[allow(unused_variables)]
pub fn update_register_value(
    register_to_update: &str,
    value: ValueEnum,
    registers: &mut Vec<Register>,
    instruction: InstructionType,
    memory_mode: MemoryModeEnum,
    mnemonic: &'static str,
    is_word_size: bool,
) -> (r: Result<(), ExecError>)
    ensures
        match registers_after_update(
            old(registers)@,
            register_to_update@,
            value,
            instruction,
            mnemonic@,
            is_word_size,
        ) {
            Ok(after) => r is Ok && final(registers)@ == after,
            Err(e) => r == Err::<(), ExecError>(e) && final(registers)@ == old(registers)@,
        },
        registers_wf(old(registers)@) ==> registers_wf(final(registers)@),
{
    proof {
        if registers_wf(old(registers)@) {
            lemma_registers_stay_well_formed(
                old(registers)@,
                register_to_update@,
                value,
                instruction,
                mnemonic@,
                is_word_size,
            );
        }
    }
    let i = match position_of_register(register_to_update, registers) {
        Some(i) => i,
        None => {
            return Err(ExecError::UnknownRegister);
        },
    };
    let current = registers[i].updated_value;
    let updated = match instruction {
        InstructionType::ImmediateToAccumulatorADD => current.wrap_add_and_return_result(value),
        InstructionType::ImmediateToAccumulatorSUB => current.wrap_sub_and_return_result(value),
        InstructionType::ImmediateToRegisterMemory | InstructionType::RegisterMemory => {
            if str_eq(mnemonic, "mov") {
                if let ValueEnum::Uninitialized = value {
                    // A source that was never written moves a zero, not "nothing".
                    if is_word_size {
                        Value::new(ValueEnum::WordSize(0))
                    } else {
                        Value::new(ValueEnum::ByteSize(0))
                    }
                } else {
                    Value::new(value)
                }
            } else if str_eq(mnemonic, "add") {
                current.wrap_add_and_return_result(value)
            } else if str_eq(mnemonic, "sub") {
                current.wrap_sub_and_return_result(value)
            } else if str_eq(mnemonic, "cmp") {
                current
            } else {
                return Err(ExecError::UnknownMnemonic);
            }
        },
        InstructionType::ImmediateToRegisterMOV => Value::new(value),
        _ => current,
    };
    registers[i].updated_value = updated;
    assert(registers@ =~= registers_after_update(
        old(registers)@,
        register_to_update@,
        value,
        instruction,
        mnemonic@,
        is_word_size,
    )->Ok_0);
    Ok(())
}

/// The register file after every register named `name` has taken `value` as the contents
/// to report changes against. A value that nothing was written to changes nothing.
pub open spec fn registers_after_commit(registers: Seq<Register>, name: Seq<char>, value: ValueEnum) -> Seq<
    Register,
> {
    if value is Uninitialized {
        registers
    } else {
        Seq::new(
            registers.len(),
            |i: int|
                if registers[i].register@ == name {
                    Register {
                        register: registers[i].register,
                        updated_value: registers[i].updated_value,
                        original_value: value_of(value),
                    }
                } else {
                    registers[i]
                },
        )
    }
}

/// Makes `value` the contents that the next change of the register is reported
/// against. A value that nothing was written to is not taken.
pub fn update_original_register_value(
    register_to_update: &'static str,
    value: ValueEnum,
    registers: &mut Vec<Register>,
)
    ensures
        final(registers)@ == registers_after_commit(old(registers)@, register_to_update@, value),
        registers_wf(old(registers)@) ==> registers_wf(final(registers)@),
{
    if let ValueEnum::Uninitialized = value {
        return ;
    }
    let mut i: usize = 0;
    while i < registers.len()
        invariant
            i <= registers@.len(),
            registers@.len() == old(registers)@.len(),
            !(value is Uninitialized),
            forall|k: int|
                0 <= k < i ==> #[trigger] registers@[k] == registers_after_commit(
                    old(registers)@,
                    register_to_update@,
                    value,
                )[k],
            forall|k: int| i <= k < registers@.len() ==> #[trigger] registers@[k] == old(registers)@[k],
        decreases registers@.len() - i,
    {
        if str_eq(registers[i].register, register_to_update) {
            registers[i].original_value = Value::new(value);
        }
        i += 1;
    }
    assert(registers@ =~= registers_after_commit(old(registers)@, register_to_update@, value));
}

/// A register file is well formed if the sign flag of every value in it agrees with the
/// bits of the value.
pub open spec fn registers_wf(registers: Seq<Register>) -> bool {
    forall|i: int|
        0 <= i < registers.len() ==> (#[trigger] registers[i]).updated_value.wf()
            && registers[i].original_value.wf()
}

/// The register file at the start is well formed, and updating and committing keep it so.
pub proof fn lemma_registers_stay_well_formed(
    registers: Seq<Register>,
    name: Seq<char>,
    value: ValueEnum,
    instruction: InstructionType,
    mnemonic: Seq<char>,
    is_word_size: bool,
)
    requires
        registers_wf(registers),
    ensures
        registers_wf(initial_registers()),
        registers_after_update(registers, name, value, instruction, mnemonic, is_word_size)
            matches Ok(after) ==> registers_wf(after),
        registers_wf(registers_after_commit(registers, name, value)),
        register_state(registers, name) matches Ok(r) ==> r.updated_value.wf()
            && r.original_value.wf(),
{
    lemma_find_register_in_range(registers, name, 0);
    assert(registers_wf(initial_registers())) by {
        assert forall|i: int| 0 <= i < initial_registers().len() implies (
        #[trigger] initial_registers()[i]).updated_value.wf()
            && initial_registers()[i].original_value.wf() by {
            assert(initial_registers()[i].updated_value == no_value());
            assert(initial_registers()[i].original_value == no_value());
        }
    }
}

} // verus!
