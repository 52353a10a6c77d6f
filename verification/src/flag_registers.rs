use vstd::prelude::*;
use vstd::string::*;
use crate::errors::ExecError;
use crate::text::str_eq;

verus! {

/// One flag of the machine: its name and whether it is set.
#[derive(Copy, Clone, Debug, PartialEq, Eq)]
pub struct FlagRegister {
    pub register: &'static str,
    pub is_set: bool,
}

/// The two flags that the machine tracks, both clear: zero (`ZF`) and sign (`SF`).
pub open spec fn initial_flags() -> Seq<FlagRegister> {
    seq![
        FlagRegister { register: "ZF", is_set: false },
        FlagRegister { register: "SF", is_set: false },
    ]
}

/// The flags at the start: zero and sign, both clear.
pub fn construct_flag_registers() -> (flags: [FlagRegister; 2])
    ensures
        flags@ == initial_flags(),
        has_both_flags(flags@),
{
    let flags = [
        FlagRegister { register: "ZF", is_set: false },
        FlagRegister { register: "SF", is_set: false },
    ];
    proof {
        assert(flags@ =~= initial_flags());
        reveal_with_fuel(find_flag, 3);
    }
    flags
}

/// The index of the first flag at or after `from` that has the name `flag`.
pub open spec fn find_flag(flags: Seq<FlagRegister>, flag: Seq<char>, from: int) -> Option<int>
    decreases flags.len() - from,
{
    if from < 0 || from >= flags.len() {
        None
    } else if flags[from].register@ == flag {
        Some(from)
    } else {
        find_flag(flags, flag, from + 1)
    }
}

/// The flags after the first one named `flag` has been given `value`; unchanged if no
/// flag has that name.
pub open spec fn with_flag(flags: Seq<FlagRegister>, flag: Seq<char>, value: bool) -> Seq<
    FlagRegister,
> {
    match find_flag(flags, flag, 0) {
        Some(i) => flags.update(i, FlagRegister { register: flags[i].register, is_set: value }),
        None => flags,
    }
}

/// What `find_flag` finds is an index of a flag with that name.
pub proof fn lemma_find_flag_in_range(flags: Seq<FlagRegister>, flag: Seq<char>, from: int)
    requires
        0 <= from,
    ensures
        find_flag(flags, flag, from) matches Some(i) ==> from <= i < flags.len()
            && flags[i].register@ == flag,
    decreases flags.len() - from,
{
    if from < flags.len() && flags[from].register@ != flag {
        lemma_find_flag_in_range(flags, flag, from + 1);
    }
}

/// Giving a flag a value moves no name, so every later search finds what it found before.
pub proof fn lemma_with_flag_keeps_names(
    flags: Seq<FlagRegister>,
    flag: Seq<char>,
    value: bool,
    other: Seq<char>,
    from: int,
)
    requires
        0 <= from,
    ensures
        with_flag(flags, flag, value).len() == flags.len(),
        find_flag(with_flag(flags, flag, value), other, from) == find_flag(flags, other, from),
    decreases flags.len() - from,
{
    lemma_find_flag_in_range(flags, flag, 0);
    if from < flags.len() {
        lemma_with_flag_keeps_names(flags, flag, value, other, from + 1);
    }
}

/// Whether the first flag named `flag` is set; an error if no flag has that name.
pub open spec fn flag_state(flags: Seq<FlagRegister>, flag: Seq<char>) -> Result<bool, ExecError> {
    match find_flag(flags, flag, 0) {
        Some(i) => Ok(flags[i].is_set),
        None => Err(ExecError::UnknownFlag),
    }
}

/// Whether the flag named `flag` is set.
pub fn flag_register_is_set(flag: &'static str, flag_registers: &[FlagRegister]) -> (r: Result<
    bool,
    ExecError,
>)
    ensures
        r == flag_state(flag_registers@, flag@),
{
    let mut i: usize = 0;
    while i < flag_registers.len()
        invariant
            i <= flag_registers@.len(),
            find_flag(flag_registers@, flag@, 0) == find_flag(flag_registers@, flag@, i as int),
        decreases flag_registers@.len() - i,
    {
        if str_eq(flag_registers[i].register, flag) {
            return Ok(flag_registers[i].is_set);
        }
        i += 1;
    }
    Err(ExecError::UnknownFlag)
}

/// Gives the flag named `flag` the value `value`. Fails, and changes nothing, if no flag
/// has that name.
pub fn set_is_set_for_flag_register(
    flag: &'static str,
    flag_registers: &mut [FlagRegister],
    value: bool,
) -> (r: Result<(), ExecError>)
    ensures
        final(flag_registers)@ == with_flag(old(flag_registers)@, flag@, value),
        r is Ok <==> find_flag(old(flag_registers)@, flag@, 0) is Some,
        r is Err ==> r == Err::<(), ExecError>(ExecError::UnknownFlag),
        has_both_flags(old(flag_registers)@) ==> has_both_flags(final(flag_registers)@),
{
    let mut i: usize = 0;
    while i < flag_registers.len()
        invariant
            i <= flag_registers@.len(),
            flag_registers@ == old(flag_registers)@,
            find_flag(flag_registers@, flag@, 0) == find_flag(flag_registers@, flag@, i as int),
        decreases flag_registers@.len() - i,
    {
        if str_eq(flag_registers[i].register, flag) {
            flag_registers[i].is_set = value;
            proof {
                assert(flag_registers@ =~= with_flag(old(flag_registers)@, flag@, value));
                lemma_with_flag_keeps_names(old(flag_registers)@, flag@, value, "ZF"@, 0);
                lemma_with_flag_keeps_names(old(flag_registers)@, flag@, value, "SF"@, 0);
            }
            return Ok(());
        }
        i += 1;
    }
    Err(ExecError::UnknownFlag)
}

/// Bit 15 of the value for a 16-bit result, bit 7 for an 8-bit one.
pub open spec fn highest_bit(value: i64, is_word_size: bool) -> bool {
    if is_word_size {
        (value >> 15) & 1 == 1
    } else {
        (value >> 7) & 1 == 1
    }
}

/// For a value that fits the width, the highest bit is set from half the range on.
pub proof fn lemma_highest_bit_of_fitting_value(value: i64, is_word_size: bool)
    requires
        0 <= value,
        is_word_size ==> value < 0x1_0000,
        !is_word_size ==> value < 0x100,
    ensures
        highest_bit(value, is_word_size) == if is_word_size {
            value >= 0x8000
        } else {
            value >= 0x80
        },
{
    if is_word_size {
        assert(((value >> 15) & 1 == 1) == (value >= 0x8000)) by (bit_vector)
            requires
                0 <= value < 0x1_0000,
        ;
    } else {
        assert(((value >> 7) & 1 == 1) == (value >= 0x80)) by (bit_vector)
            requires
                0 <= value < 0x100,
        ;
    }
}

fn get_highest_bit(value: i64, is_word_size: bool) -> (r: usize)
    ensures
        r == if highest_bit(value, is_word_size) {
            1usize
        } else {
            0usize
        },
{
    let bit = if is_word_size {
        (value >> 15) & 1
    } else {
        (value >> 7) & 1
    };
    assert((value >> 15) & 1 == 0 || (value >> 15) & 1 == 1) by (bit_vector);
    assert((value >> 7) & 1 == 0 || (value >> 7) & 1 == 1) by (bit_vector);
    bit as usize
}

fn number_is_signed(value: i64, is_word_size: bool) -> (r: bool)
    ensures
        r == highest_bit(value, is_word_size),
{
    let highest_bit = get_highest_bit(value, is_word_size);
    highest_bit == 1
}

/// The flags after a result: zero is set if and only if the result is 0, sign if and only
/// if its highest bit is set.
pub open spec fn flags_after(flags: Seq<FlagRegister>, destination_value: i64, is_word_size: bool) -> Seq<
    FlagRegister,
> {
    with_flag(
        with_flag(flags, "ZF"@, destination_value == 0),
        "SF"@,
        highest_bit(destination_value, is_word_size),
    )
}

/// Whether the set has a zero flag and a sign flag.
pub open spec fn has_both_flags(flags: Seq<FlagRegister>) -> bool {
    find_flag(flags, "ZF"@, 0) is Some && find_flag(flags, "SF"@, 0) is Some
}

/// Derives both flags from a result. Fails, and changes nothing, if the set lacks `ZF` or `SF`.
pub fn set_flags(destination_value: i64, flag_registers: &mut [FlagRegister], is_word_size: bool) -> (r:
    Result<(), ExecError>)
    ensures
        r is Ok <==> has_both_flags(old(flag_registers)@),
        r is Ok ==> final(flag_registers)@ == flags_after(
            old(flag_registers)@,
            destination_value,
            is_word_size,
        ),
        r is Err ==> r == Err::<(), ExecError>(ExecError::UnknownFlag) && final(flag_registers)@
            == old(flag_registers)@,
        has_both_flags(old(flag_registers)@) ==> has_both_flags(final(flag_registers)@),
{
    let zero = flag_register_is_set("ZF", flag_registers);
    let sign = flag_register_is_set("SF", flag_registers);
    if zero.is_err() || sign.is_err() {
        return Err(ExecError::UnknownFlag);
    }
    proof {
        lemma_with_flag_keeps_names(flag_registers@, "ZF"@, destination_value == 0, "SF"@, 0);
    }
    let sign_is_set = number_is_signed(destination_value, is_word_size);
    set_is_set_for_flag_register("ZF", flag_registers, destination_value == 0)?;
    set_is_set_for_flag_register("SF", flag_registers, sign_is_set)
}

/// After the flags have been derived from a result, the zero flag reads as set if and only
/// if the result is 0, and the sign flag if and only if the highest bit of the result is set.
pub proof fn lemma_flags_follow_result(
    flags: Seq<FlagRegister>,
    destination_value: i64,
    is_word_size: bool,
)
    requires
        has_both_flags(flags),
    ensures
        flag_state(flags_after(flags, destination_value, is_word_size), "ZF"@) == Ok::<
            bool,
            ExecError,
        >(destination_value == 0),
        flag_state(flags_after(flags, destination_value, is_word_size), "SF"@) == Ok::<
            bool,
            ExecError,
        >(highest_bit(destination_value, is_word_size)),
{
    reveal_strlit("ZF");
    reveal_strlit("SF");
    assert("ZF"@[0] != "SF"@[0]);
    let zero = destination_value == 0;
    let sign = highest_bit(destination_value, is_word_size);
    let first = with_flag(flags, "ZF"@, zero);
    let second = with_flag(first, "SF"@, sign);
    lemma_find_flag_in_range(flags, "ZF"@, 0);
    lemma_find_flag_in_range(flags, "SF"@, 0);
    lemma_with_flag_keeps_names(flags, "ZF"@, zero, "SF"@, 0);
    lemma_with_flag_keeps_names(flags, "ZF"@, zero, "ZF"@, 0);
    lemma_with_flag_keeps_names(first, "SF"@, sign, "SF"@, 0);
    lemma_with_flag_keeps_names(first, "SF"@, sign, "ZF"@, 0);
}

/// The names of the flags that are set, in the order of the flags.
pub open spec fn set_flag_names(flags: Seq<FlagRegister>) -> Seq<&'static str>
    decreases flags.len(),
{
    if flags.len() == 0 {
        Seq::empty()
    } else if flags.last().is_set {
        set_flag_names(flags.drop_last()).push(flags.last().register)
    } else {
        set_flag_names(flags.drop_last())
    }
}

/// Clearing moves no name, so every search finds what it found before.
pub proof fn lemma_cleared_keeps_names(flags: Seq<FlagRegister>, flag: Seq<char>, from: int)
    requires
        0 <= from,
    ensures
        find_flag(flags_cleared(flags), flag, from) == find_flag(flags, flag, from),
    decreases flags.len() - from,
{
    if from < flags.len() {
        lemma_cleared_keeps_names(flags, flag, from + 1);
    }
}

/// A set with a zero flag and a sign flag keeps both when flags are derived from a
/// result and when they are cleared.
pub proof fn lemma_flags_stay_present(flags: Seq<FlagRegister>, destination_value: i64, is_word_size: bool)
    requires
        has_both_flags(flags),
    ensures
        has_both_flags(flags_after(flags, destination_value, is_word_size)),
        has_both_flags(flags_cleared(flags)),
{
    let zero = destination_value == 0;
    let sign = highest_bit(destination_value, is_word_size);
    let first = with_flag(flags, "ZF"@, zero);
    lemma_with_flag_keeps_names(flags, "ZF"@, zero, "SF"@, 0);
    lemma_with_flag_keeps_names(flags, "ZF"@, zero, "ZF"@, 0);
    lemma_with_flag_keeps_names(first, "SF"@, sign, "SF"@, 0);
    lemma_with_flag_keeps_names(first, "SF"@, sign, "ZF"@, 0);
    lemma_cleared_keeps_names(flags, "ZF"@, 0);
    lemma_cleared_keeps_names(flags, "SF"@, 0);
}

/// Cleared flags have no name to report.
pub proof fn lemma_no_names_of_cleared_flags(flags: Seq<FlagRegister>)
    ensures
        set_flag_names(flags_cleared(flags)) == Seq::<&'static str>::empty(),
    decreases flags.len(),
{
    if flags.len() > 0 {
        lemma_no_names_of_cleared_flags(flags.drop_last());
        assert(flags_cleared(flags).drop_last() =~= flags_cleared(flags.drop_last()));
    }
}

/// The names of the flags that are set.
pub fn get_all_currently_set_flags(flag_registers: [FlagRegister; 2]) -> (flags: Vec<&'static str>)
    ensures
        flags@ == set_flag_names(flag_registers@),
{
    let mut flags: Vec<&'static str> = Vec::with_capacity(flag_registers.len());
    let mut i: usize = 0;
    while i < 2
        invariant
            i <= 2,
            flag_registers@.len() == 2,
            flags@ == set_flag_names(flag_registers@.take(i as int)),
        decreases 2 - i,
    {
        assert(flag_registers@.take(i + 1).drop_last() =~= flag_registers@.take(i as int));
        if flag_registers[i].is_set {
            flags.push(flag_registers[i].register);
        }
        i += 1;
    }
    assert(flag_registers@.take(2) =~= flag_registers@);
    flags
}

/// The same flags, all clear.
pub open spec fn flags_cleared(flags: Seq<FlagRegister>) -> Seq<FlagRegister> {
    Seq::new(flags.len(), |i: int| FlagRegister { register: flags[i].register, is_set: false })
}

/// Clears every flag.
pub fn clear_flags_registers(flag_registers: &mut [FlagRegister])
    ensures
        final(flag_registers)@ == flags_cleared(old(flag_registers)@),
        has_both_flags(old(flag_registers)@) ==> has_both_flags(final(flag_registers)@),
{
    proof {
        lemma_cleared_keeps_names(old(flag_registers)@, "ZF"@, 0);
        lemma_cleared_keeps_names(old(flag_registers)@, "SF"@, 0);
    }
    let mut i: usize = 0;
    while i < flag_registers.len()
        invariant
            i <= flag_registers@.len(),
            flag_registers@.len() == old(flag_registers)@.len(),
            forall|k: int|
                0 <= k < i ==> #[trigger] flag_registers@[k] == (FlagRegister {
                    register: old(flag_registers)@[k].register,
                    is_set: false,
                }),
            forall|k: int|
                i <= k < flag_registers@.len() ==> #[trigger] flag_registers@[k] == old(
                    flag_registers,
                )@[k],
        decreases flag_registers@.len() - i,
    {
        flag_registers[i].is_set = false;
        i += 1;
    }
    assert(flag_registers@ =~= flags_cleared(old(flag_registers)@));
}

/// The two's complement of a byte, read as a signed number: the negation of `num`
/// modulo 256, in the range from -128 to 127.
pub open spec fn spec_twos_complement(num: u8) -> i8 {
    if num <= 128 {
        (-(num as int)) as i8
    } else {
        (256 - num) as i8
    }
}

/// The two's complement of a byte as a signed number.
#[verifier::when_used_as_spec(spec_twos_complement)]
pub fn twos_complement(num: u8) -> (r: i8)
    ensures
        r == spec_twos_complement(num),
        num <= 128 ==> r == -(num as int),
        num > 128 ==> r == 256 - num,
{
    let negated = (!num).wrapping_add(1);
    assert(negated == (256 - num) % 256) by {
        assert(!num == 255 - num) by (bit_vector);
    }
    let r = #[verifier::truncate] (negated as i8);
    assert(negated < 128 ==> (negated as i8) == negated) by (bit_vector);
    assert(negated >= 128 ==> (negated as i8) == negated - 256) by (bit_vector);
    r
}

} // verus!
