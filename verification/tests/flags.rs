use intel8086_decoder::errors::ExecError;
use intel8086_decoder::flag_registers::{
    clear_flags_registers, construct_flag_registers, flag_register_is_set,
    get_all_currently_set_flags, set_flags, set_is_set_for_flag_register, twos_complement,
    FlagRegister,
};

#[test]
fn the_flags_start_clear() {
    let flags = construct_flag_registers();
    assert_eq!(flags[0], FlagRegister { register: "ZF", is_set: false });
    assert_eq!(flags[1], FlagRegister { register: "SF", is_set: false });
    assert_eq!(flag_register_is_set("ZF", &flags), Ok(false));
    assert_eq!(flag_register_is_set("SF", &flags), Ok(false));
    assert_eq!(get_all_currently_set_flags(flags), Vec::<&str>::new());
}

#[test]
fn a_flag_is_set_and_read_by_name() {
    let mut flags = construct_flag_registers();
    assert_eq!(set_is_set_for_flag_register("SF", &mut flags, true), Ok(()));
    assert_eq!(flag_register_is_set("SF", &flags), Ok(true));
    assert_eq!(flag_register_is_set("ZF", &flags), Ok(false));
    assert_eq!(get_all_currently_set_flags(flags), vec!["SF"]);
    assert_eq!(set_is_set_for_flag_register("ZF", &mut flags, true), Ok(()));
    assert_eq!(get_all_currently_set_flags(flags), vec!["ZF", "SF"]);
    assert_eq!(set_is_set_for_flag_register("SF", &mut flags, false), Ok(()));
    assert_eq!(get_all_currently_set_flags(flags), vec!["ZF"]);
}

#[test]
fn an_unknown_flag_is_an_error() {
    let mut flags = construct_flag_registers();
    assert_eq!(flag_register_is_set("CF", &flags), Err(ExecError::UnknownFlag));
    assert_eq!(set_is_set_for_flag_register("OF", &mut flags, true), Err(ExecError::UnknownFlag));
    assert_eq!(flags, construct_flag_registers());
    let none: [FlagRegister; 0] = [];
    assert_eq!(flag_register_is_set("ZF", &none), Err(ExecError::UnknownFlag));
}

#[test]
fn the_first_flag_of_a_name_counts() {
    let mut flags = [
        FlagRegister { register: "ZF", is_set: true },
        FlagRegister { register: "ZF", is_set: false },
    ];
    assert_eq!(flag_register_is_set("ZF", &flags), Ok(true));
    assert_eq!(set_is_set_for_flag_register("ZF", &mut flags, false), Ok(()));
    assert_eq!(flags[0].is_set, false);
    assert_eq!(flags[1].is_set, false);
    assert_eq!(set_is_set_for_flag_register("ZF", &mut flags, true), Ok(()));
    assert_eq!(flags[0].is_set, true);
    assert_eq!(flags[1].is_set, false);
}

#[test]
fn zero_is_set_exactly_for_a_zero_result() {
    let mut flags = construct_flag_registers();
    for (value, is_word_size) in [(0i64, true), (0, false)] {
        set_flags(value, &mut flags, is_word_size).unwrap();
        assert_eq!(get_all_currently_set_flags(flags), vec!["ZF"]);
    }
    for (value, is_word_size) in [(1i64, true), (1, false), (127, false), (32767, true), (128, true)]
    {
        set_flags(value, &mut flags, is_word_size).unwrap();
        assert_eq!(get_all_currently_set_flags(flags), Vec::<&str>::new());
    }
}

#[test]
fn sign_is_the_highest_bit_of_the_result() {
    let mut flags = construct_flag_registers();
    for value in 0i64..256 {
        set_flags(value, &mut flags, false).unwrap();
        assert_eq!(flag_register_is_set("SF", &flags), Ok(value >= 128));
        assert_eq!(flag_register_is_set("ZF", &flags), Ok(value == 0));
    }
    for (value, sign) in
        [(0x7FFFi64, false), (0x8000, true), (0xFFFF, true), (57602, true), (255, false), (999, false)]
    {
        set_flags(value, &mut flags, true).unwrap();
        assert_eq!(flag_register_is_set("SF", &flags), Ok(sign));
    }
    // Bit 15 decides, whatever stands above it.
    set_flags(0x1_8000, &mut flags, true).unwrap();
    assert_eq!(flag_register_is_set("SF", &flags), Ok(true));
    set_flags(0x1_0000, &mut flags, true).unwrap();
    assert_eq!(get_all_currently_set_flags(flags), Vec::<&str>::new());
    set_flags(-1, &mut flags, false).unwrap();
    assert_eq!(get_all_currently_set_flags(flags), vec!["SF"]);
}

#[test]
fn deriving_flags_needs_both_flags() {
    let mut flags = [
        FlagRegister { register: "ZF", is_set: true },
        FlagRegister { register: "CF", is_set: true },
    ];
    assert_eq!(set_flags(5, &mut flags, true), Err(ExecError::UnknownFlag));
    assert_eq!(flags[0], FlagRegister { register: "ZF", is_set: true });
    assert_eq!(flags[1], FlagRegister { register: "CF", is_set: true });
    let mut flags = [
        FlagRegister { register: "SF", is_set: true },
        FlagRegister { register: "CF", is_set: true },
    ];
    assert_eq!(set_flags(0, &mut flags, true), Err(ExecError::UnknownFlag));
    assert_eq!(flags[0], FlagRegister { register: "SF", is_set: true });
}

#[test]
fn clearing_keeps_the_names() {
    let mut flags = construct_flag_registers();
    set_flags(0, &mut flags, true).unwrap();
    set_is_set_for_flag_register("SF", &mut flags, true).unwrap();
    assert_eq!(get_all_currently_set_flags(flags), vec!["ZF", "SF"]);
    clear_flags_registers(&mut flags);
    assert_eq!(flags, construct_flag_registers());
    let mut none: [FlagRegister; 0] = [];
    clear_flags_registers(&mut none);
}

#[test]
fn twos_complement_negates_modulo_256() {
    assert_eq!(twos_complement(0), 0);
    assert_eq!(twos_complement(1), -1);
    assert_eq!(twos_complement(2), -2);
    assert_eq!(twos_complement(127), -127);
    assert_eq!(twos_complement(128), -128);
    assert_eq!(twos_complement(129), 127);
    assert_eq!(twos_complement(244), 12);
    assert_eq!(twos_complement(254), 2);
    assert_eq!(twos_complement(255), 1);
    for num in 0u8..=255 {
        assert_eq!(twos_complement(num), (num as i8).wrapping_neg());
    }
}
