use intel8086_decoder::bits::{construct_opcodes, determine_instruction, InstructionType, MemoryModeEnum};
use intel8086_decoder::decode::{decode, DecodedInstruction};
use intel8086_decoder::errors::{DecodeError, ExecError};
use intel8086_decoder::execute::{decode_instruction, execute, instruction_data, perform_conditional_jump};
use intel8086_decoder::flag_registers::{
    construct_flag_registers, get_all_currently_set_flags, set_is_set_for_flag_register,
    FlagRegister,
};
use intel8086_decoder::memory::{bits_struct, memory_contents, memory_struct};
use intel8086_decoder::registers::{
    construct_registers, get_register_state, Register, Value, ValueEnum,
};

struct Machine {
    registers: Vec<Register>,
    flags: [FlagRegister; 2],
    memory: Vec<memory_struct>,
    instruction_pointer: usize,
}

fn empty_cell() -> memory_struct {
    memory_struct {
        address_contents: memory_contents {
            modified_bits: bits_struct { bits: 0, initialized: false },
            original_bits: bits_struct { bits: 0, initialized: false },
        },
    }
}

fn machine(cells: usize) -> Machine {
    Machine {
        registers: construct_registers(),
        flags: construct_flag_registers(),
        memory: vec![empty_cell(); cells],
        instruction_pointer: 0,
    }
}

fn uninit() -> Value {
    Value { value: ValueEnum::Uninitialized, is_signed: false }
}

fn word(bits: u16) -> Value {
    Value::new(ValueEnum::WordSize(bits))
}

fn byte(bits: u8) -> Value {
    Value::new(ValueEnum::ByteSize(bits))
}

/// Runs the program at the front of `bytes` until the instruction pointer leaves it.
fn run(m: &mut Machine, bytes: &Vec<u8>) -> Vec<instruction_data> {
    let op_codes = construct_opcodes();
    let mut steps = Vec::new();
    m.instruction_pointer = 0;
    while m.instruction_pointer < bytes.len() {
        let class = determine_instruction(&op_codes, bytes[m.instruction_pointer]).unwrap();
        steps.push(
            decode_instruction(
                bytes,
                class,
                &mut m.registers,
                &mut m.flags,
                &mut m.memory,
                &mut m.instruction_pointer,
                true,
            )
            .unwrap(),
        );
    }
    steps
}

fn step(m: &mut Machine, bytes: &Vec<u8>) -> Result<instruction_data, ExecError> {
    let op_codes = construct_opcodes();
    let class = determine_instruction(&op_codes, bytes[m.instruction_pointer]).unwrap();
    decode_instruction(
        bytes,
        class,
        &mut m.registers,
        &mut m.flags,
        &mut m.memory,
        &mut m.instruction_pointer,
        true,
    )
}

fn register(m: &Machine, name: &str) -> Value {
    get_register_state(name, &m.registers).unwrap().updated_value
}

fn flags(m: &Machine) -> Vec<&'static str> {
    get_all_currently_set_flags(m.flags)
}

fn read_word(m: &Machine, address: usize) -> u16 {
    let low = m.memory[address].address_contents.modified_bits;
    let high = m.memory[address + 1].address_contents.modified_bits;
    assert!(low.initialized && high.initialized);
    (high.bits as u16) << 8 | low.bits as u16
}

#[test]
fn an_8_bit_immediate_of_a_16_bit_operation_is_widened_with_its_sign() {
    let mut m = machine(16);
    // mov si, 10 ; add si, -2 ; sub si, -3 ; cmp si, -1
    let steps = run(
        &mut m,
        &vec![0xBE, 0x0A, 0x00, 0x83, 0xC6, 0xFE, 0x83, 0xEE, 0xFD, 0x83, 0xFE, 0xFF],
    );
    assert_eq!(steps[1].formatted_instruction, "add si, -2");
    assert_eq!(steps[1].decoded.reg_immediate, byte(0xFE));
    assert_eq!(steps[1].original_value, word(10));
    assert_eq!(steps[1].updated_value, word(8));
    assert_eq!(steps[1].flags, Vec::<&str>::new());
    assert_eq!(steps[2].formatted_instruction, "sub si, -3");
    assert_eq!(steps[2].updated_value, word(11));
    assert_eq!(steps[3].formatted_instruction, "cmp si, -1");
    assert_eq!(steps[3].updated_value, word(11));
    // 11 - (-1) = 12
    assert_eq!(steps[3].flags, Vec::<&str>::new());
    assert_eq!(register(&m, "si"), word(11));
}

#[test]
fn an_8_bit_operation_takes_its_immediate_as_it_is() {
    let mut m = machine(16);
    // mov cl, 200 ; add cl, 100 ; sub cl, 44
    let steps = run(&mut m, &vec![0xB1, 0xC8, 0x80, 0xC1, 0x64, 0x80, 0xE9, 0x2C]);
    assert_eq!(steps[1].formatted_instruction, "add cl, 100");
    assert_eq!(steps[1].original_value, byte(200));
    assert_eq!(steps[1].updated_value, byte(44));
    assert_eq!(steps[1].flags, Vec::<&str>::new());
    assert_eq!(steps[2].updated_value, byte(0));
    assert_eq!(steps[2].flags, vec!["ZF"]);
}

#[test]
fn immediate_to_the_accumulator() {
    let mut m = machine(16);
    // mov ax, 5 ; add ax, 1000 ; sub ax, 2000 ; cmp ax, 64541 ; mov al, 9 ; cmp al, 9 ; sub al, 10
    let steps = run(
        &mut m,
        &vec![
            0xB8, 0x05, 0x00, 0x05, 0xE8, 0x03, 0x2D, 0xD0, 0x07, 0x3D, 0x1D, 0xFC, 0xB0, 0x09,
            0x3C, 0x09, 0x2C, 0x0A,
        ],
    );
    assert_eq!(steps[1].formatted_instruction, "add ax, 1000");
    assert_eq!((steps[1].original_value, steps[1].updated_value), (word(5), word(1005)));
    assert_eq!(steps[1].flags, Vec::<&str>::new());
    assert_eq!(steps[2].formatted_instruction, "sub ax, 2000");
    assert_eq!((steps[2].original_value, steps[2].updated_value), (word(1005), word(64541)));
    assert_eq!(steps[2].flags, vec!["SF"]);
    assert_eq!(steps[3].formatted_instruction, "cmp ax, -995");
    assert_eq!((steps[3].original_value, steps[3].updated_value), (word(64541), word(64541)));
    assert_eq!(steps[3].flags, vec!["ZF"]);
    assert_eq!(steps[4].flags, Vec::<&str>::new());
    assert_eq!(steps[5].formatted_instruction, "cmp al, 9");
    assert_eq!(steps[5].flags, vec!["ZF"]);
    assert_eq!(steps[6].formatted_instruction, "sub al, 10");
    assert_eq!((steps[6].original_value, steps[6].updated_value), (byte(9), byte(255)));
    assert_eq!(steps[6].flags, vec!["SF"]);
    assert_eq!(register(&m, "ax"), word(64541));
    assert_eq!(register(&m, "al"), byte(255));
}

#[test]
fn arithmetic_on_a_register_that_was_never_written_leaves_it_so() {
    let mut m = machine(16);
    // add al, 9 ; add bx, cx
    let steps = run(&mut m, &vec![0x04, 0x09, 0x01, 0xCB]);
    assert_eq!((steps[0].original_value, steps[0].updated_value), (uninit(), uninit()));
    // Nothing stored reads as zero bits.
    assert_eq!(steps[0].flags, vec!["ZF"]);
    assert_eq!((steps[1].original_value, steps[1].updated_value), (uninit(), uninit()));
    assert_eq!(register(&m, "al"), uninit());
    assert_eq!(register(&m, "bx"), uninit());
}

#[test]
fn the_direction_bit_picks_the_destination() {
    let mut m = machine(16);
    // mov bx, 7 ; mov cx, 9 ; add bx, cx (01 CB) ; add bx, cx (03 D9) ; sub cx, bx (29 D9) ; sub cx, bx (2B CB)
    let steps = run(
        &mut m,
        &vec![0xBB, 0x07, 0x00, 0xB9, 0x09, 0x00, 0x01, 0xCB, 0x03, 0xD9, 0x29, 0xD9, 0x2B, 0xCB],
    );
    for index in [2, 3] {
        assert_eq!(steps[index].formatted_instruction, "add bx, cx");
    }
    assert!(!steps[2].decoded.reg_is_dest);
    assert!(steps[3].decoded.reg_is_dest);
    assert_eq!(steps[3].updated_value, word(25));
    for index in [4, 5] {
        assert_eq!(steps[index].formatted_instruction, "sub cx, bx");
    }
    assert_eq!(steps[4].updated_value, word(65520));
    assert_eq!(steps[5].updated_value, word(65495));
    assert_eq!(register(&m, "bx"), word(25));
    assert_eq!(register(&m, "cx"), word(65495));
}

#[test]
fn a_register_takes_what_memory_held() {
    let mut m = machine(2048);
    // mov bp, 1000 ; mov word [bp + 4], 500 ; mov bx, 7 ; add bx, [bp + 4] ; sub bx, [bp + 4] ; cmp bx, [bp + 4]
    let steps = run(
        &mut m,
        &vec![
            0xBD, 0xE8, 0x03, 0xC7, 0x46, 0x04, 0xF4, 0x01, 0xBB, 0x07, 0x00, 0x03, 0x5E, 0x04,
            0x2B, 0x5E, 0x04, 0x3B, 0x5E, 0x04,
        ],
    );
    assert_eq!(steps[1].formatted_instruction, "mov word [bp + 4], 500");
    assert_eq!(read_word(&m, 1004), 500);
    assert_eq!(steps[3].formatted_instruction, "add bx, [bp + 4]");
    assert_eq!((steps[3].original_value, steps[3].updated_value), (word(7), word(507)));
    assert_eq!(steps[4].formatted_instruction, "sub bx, [bp + 4]");
    assert_eq!((steps[4].original_value, steps[4].updated_value), (word(507), word(7)));
    assert_eq!(steps[5].formatted_instruction, "cmp bx, [bp + 4]");
    assert_eq!((steps[5].original_value, steps[5].updated_value), (word(7), word(7)));
    // 7 - 500 is negative.
    assert_eq!(steps[5].flags, vec!["SF"]);
}

#[test]
fn memory_takes_what_a_register_held() {
    let mut m = machine(2048);
    // mov bx, 1000 ; mov si, 20 ; mov cx, 300 ; mov [bx + si], cx ; add [bx + si], cx ;
    // sub [bx + si], cx ; sub [bx + si], cx ; cmp [bx + si], cx
    let steps = run(
        &mut m,
        &vec![
            0xBB, 0xE8, 0x03, 0xBE, 0x14, 0x00, 0xB9, 0x2C, 0x01, 0x89, 0x08, 0x01, 0x08, 0x29,
            0x08, 0x29, 0x08, 0x39, 0x08,
        ],
    );
    assert_eq!(steps[3].formatted_instruction, "mov word [bx + si], cx");
    assert_eq!((steps[3].original_value, steps[3].updated_value), (uninit(), word(300)));
    assert_eq!(steps[4].formatted_instruction, "add [bx + si], cx");
    assert_eq!((steps[4].original_value, steps[4].updated_value), (word(300), word(600)));
    assert_eq!(steps[4].flags, Vec::<&str>::new());
    assert_eq!(steps[5].formatted_instruction, "sub [bx + si], cx");
    assert_eq!((steps[5].original_value, steps[5].updated_value), (word(600), word(300)));
    assert_eq!((steps[6].original_value, steps[6].updated_value), (word(300), word(0)));
    assert_eq!(steps[6].flags, vec!["ZF"]);
    assert_eq!(steps[7].formatted_instruction, "cmp [bx + si], cx");
    assert_eq!((steps[7].original_value, steps[7].updated_value), (word(0), word(0)));
    // 0 - 300 is negative, and nothing is written.
    assert_eq!(steps[7].flags, vec!["SF"]);
    assert_eq!(read_word(&m, 1020), 0);
    assert_eq!(register(&m, "cx"), word(300));
}

#[test]
fn an_immediate_is_applied_to_memory() {
    let mut m = machine(2048);
    // mov byte [600], 250 ; add byte [600], 10 ; mov word [700], 1 ; sub word [700], 2 ; cmp word [700], -1
    let steps = run(
        &mut m,
        &vec![
            0xC6, 0x06, 0x58, 0x02, 0xFA, 0x80, 0x06, 0x58, 0x02, 0x0A, 0xC7, 0x06, 0xBC, 0x02,
            0x01, 0x00, 0x83, 0x2E, 0xBC, 0x02, 0x02, 0x83, 0x3E, 0xBC, 0x02, 0xFF,
        ],
    );
    assert_eq!(steps[0].formatted_instruction, "mov byte [600], -6");
    assert_eq!((steps[0].original_value, steps[0].updated_value), (uninit(), byte(250)));
    assert_eq!(steps[1].formatted_instruction, "add byte [600], 10");
    assert_eq!((steps[1].original_value, steps[1].updated_value), (byte(250), byte(4)));
    assert_eq!(steps[1].flags, Vec::<&str>::new());
    assert!(!m.memory[601].address_contents.modified_bits.initialized);
    assert_eq!(steps[3].formatted_instruction, "sub word [700], 2");
    assert_eq!((steps[3].original_value, steps[3].updated_value), (word(1), word(65535)));
    assert_eq!(steps[3].flags, vec!["SF"]);
    assert_eq!(steps[4].formatted_instruction, "cmp word [700], -1");
    assert_eq!((steps[4].original_value, steps[4].updated_value), (word(65535), word(65535)));
    assert_eq!(steps[4].flags, vec!["ZF"]);
}

#[test]
fn a_direct_address_has_no_base() {
    let mut m = machine(2048);
    // mov si, 50 ; mov bx, 77 ; mov [1000], bx ; mov cx, [1000]
    let steps = run(&mut m, &vec![0xBE, 0x32, 0x00, 0xBB, 0x4D, 0x00, 0x89, 0x1E, 0xE8, 0x03, 0x8B, 0x0E, 0xE8, 0x03]);
    assert_eq!(steps[2].formatted_instruction, "mov word [1000], bx");
    assert_eq!(read_word(&m, 1000), 77);
    assert!(!m.memory[1050].address_contents.modified_bits.initialized);
    assert_eq!(steps[3].formatted_instruction, "mov cx, word [1000]");
    assert_eq!(steps[3].updated_value, word(77));
}

#[test]
fn mov_clears_the_flags_and_a_jump_leaves_them() {
    let mut m = machine(16);
    // mov cx, 1 ; sub cx, 1 ; jnz 0 (not taken) ; mov cx, 1
    let steps = run(&mut m, &vec![0xB9, 0x01, 0x00, 0x83, 0xE9, 0x01, 0x75, 0x00, 0xB9, 0x01, 0x00]);
    assert_eq!(steps[1].flags, vec!["ZF"]);
    assert_eq!(steps[2].flags, vec!["ZF"]);
    assert_eq!((steps[2].original_value, steps[2].updated_value), (uninit(), uninit()));
    assert_eq!(steps[3].flags, Vec::<&str>::new());
    assert_eq!(flags(&m), Vec::<&str>::new());
}

#[test]
fn which_jumps_are_taken() {
    let every_jump = [
        InstructionType::JE_JUMP,
        InstructionType::JL_JUMP,
        InstructionType::JLE_JUMP,
        InstructionType::JB_JUMP,
        InstructionType::JBE_JUMP,
        InstructionType::JP_JUMP,
        InstructionType::JO_JUMP,
        InstructionType::JS_JUMP,
        InstructionType::JNE_JUMP,
        InstructionType::JNL_JUMP,
        InstructionType::JNLE_JUMP,
        InstructionType::JNB_JUMP,
        InstructionType::JNBE_JUMP,
        InstructionType::JNP_JUMP,
        InstructionType::JNO_JUMP,
        InstructionType::JNS,
        InstructionType::LOOP,
        InstructionType::LOOPZ,
        InstructionType::LOOPNZ,
        InstructionType::JCXZ,
    ];
    for zero in [false, true] {
        for sign in [false, true] {
            let mut flags = construct_flag_registers();
            set_is_set_for_flag_register("ZF", &mut flags, zero).unwrap();
            set_is_set_for_flag_register("SF", &mut flags, sign).unwrap();
            for class in every_jump {
                let taken = match class {
                    InstructionType::JE_JUMP
                    | InstructionType::JLE_JUMP
                    | InstructionType::JBE_JUMP => zero,
                    InstructionType::JNE_JUMP => !zero,
                    InstructionType::JS_JUMP => sign,
                    InstructionType::JNS => !sign,
                    _ => false,
                };
                let mut instruction_pointer: usize = 100;
                perform_conditional_jump(&flags, 2, &mut instruction_pointer, 0xF0, class).unwrap();
                assert_eq!(instruction_pointer, if taken { 86 } else { 102 });
                // The flags are read, never written.
                assert_eq!(flags[0].is_set, zero);
                assert_eq!(flags[1].is_set, sign);
            }
        }
    }
}

#[test]
fn a_jump_goes_forward_and_backward_from_the_end_of_the_instruction() {
    let flags = construct_flag_registers();
    for (offset, target) in [
        (0x00u8, 102usize),
        (0x01, 103),
        (0x04, 106),
        (0x7E, 228),
        (0x7F, 229),
        (0x80, 0),
        (0x81, 1),
        (0xF8, 94),
        (0xFE, 100),
        (0xFF, 101),
    ] {
        let mut instruction_pointer: usize = 100;
        if offset == 0x80 {
            instruction_pointer = 126;
        } else if offset == 0x81 {
            instruction_pointer = 126;
        }
        perform_conditional_jump(&flags, 2, &mut instruction_pointer, offset, InstructionType::JNE_JUMP)
            .unwrap();
        assert_eq!(instruction_pointer, target, "offset {:#x}", offset);
    }
}

#[test]
fn a_jump_that_leaves_the_range_of_the_pointer_fails() {
    let flags = construct_flag_registers();
    let mut instruction_pointer: usize = 3;
    assert_eq!(
        perform_conditional_jump(&flags, 2, &mut instruction_pointer, 0xFA, InstructionType::JNE_JUMP),
        Err(ExecError::JumpOutOfBounds)
    );
    assert_eq!(instruction_pointer, 3);
    assert_eq!(
        perform_conditional_jump(&flags, 2, &mut instruction_pointer, 0xFB, InstructionType::JNE_JUMP),
        Ok(())
    );
    assert_eq!(instruction_pointer, 0);
    let mut instruction_pointer = usize::MAX - 1;
    assert_eq!(
        perform_conditional_jump(&flags, 2, &mut instruction_pointer, 0x00, InstructionType::JE_JUMP),
        Err(ExecError::JumpOutOfBounds)
    );
    assert_eq!(instruction_pointer, usize::MAX - 1);
    assert_eq!(
        perform_conditional_jump(&flags, 2, &mut instruction_pointer, 0xFE, InstructionType::JNE_JUMP),
        Ok(())
    );
    assert_eq!(instruction_pointer, usize::MAX - 1);

    // jnz -6 as the first instruction
    let mut m = machine(4);
    let bytes: Vec<u8> = vec![0x75, 0xF8];
    assert_eq!(step(&mut m, &bytes), Err(ExecError::JumpOutOfBounds));
    assert_eq!(m.instruction_pointer, 0);
}

#[test]
fn a_jump_needs_the_flag_that_it_asks() {
    let flags = [
        FlagRegister { register: "ZF", is_set: false },
        FlagRegister { register: "CF", is_set: false },
    ];
    let mut instruction_pointer: usize = 10;
    assert_eq!(
        perform_conditional_jump(&flags, 2, &mut instruction_pointer, 0xFE, InstructionType::JS_JUMP),
        Err(ExecError::UnknownFlag)
    );
    assert_eq!(
        perform_conditional_jump(&flags, 2, &mut instruction_pointer, 0xFE, InstructionType::JNS),
        Err(ExecError::UnknownFlag)
    );
    assert_eq!(instruction_pointer, 10);
    assert_eq!(
        perform_conditional_jump(&flags, 2, &mut instruction_pointer, 0xFE, InstructionType::JNE_JUMP),
        Ok(())
    );
    assert_eq!(instruction_pointer, 10);
    assert_eq!(
        perform_conditional_jump(&flags, 2, &mut instruction_pointer, 0xFE, InstructionType::LOOP),
        Ok(())
    );
    assert_eq!(instruction_pointer, 12);
}

#[test]
fn decoding_alone_moves_only_the_instruction_pointer() {
    let mut m = machine(16);
    run(&mut m, &vec![0xBB, 0x07, 0x00, 0x83, 0xEB, 0x08]);
    assert_eq!(flags(&m), vec!["SF"]);
    let registers = m.registers.clone();
    let memory = m.memory.clone();
    // mov bx, 1 ; jnz -2 ; mov [bx], bx
    let bytes: Vec<u8> = vec![0xBB, 0x01, 0x00, 0x75, 0xFE, 0x89, 0x1F];
    m.instruction_pointer = 0;
    let mut texts = Vec::new();
    let op_codes = construct_opcodes();
    while m.instruction_pointer < bytes.len() {
        let class = determine_instruction(&op_codes, bytes[m.instruction_pointer]).unwrap();
        let data = decode_instruction(
            &bytes,
            class,
            &mut m.registers,
            &mut m.flags,
            &mut m.memory,
            &mut m.instruction_pointer,
            false,
        )
        .unwrap();
        assert_eq!((data.original_value, data.updated_value), (uninit(), uninit()));
        assert_eq!(data.flags, vec!["SF"]);
        texts.push(data.formatted_instruction);
    }
    assert_eq!(texts, vec!["mov bx, 1", "jnz 0", "mov word [bx], bx"]);
    assert_eq!(m.instruction_pointer, 7);
    assert_eq!(m.registers, registers);
    assert_eq!(m.memory, memory);
    assert_eq!(flags(&m), vec!["SF"]);
}

#[test]
fn a_failed_step_changes_nothing() {
    let mut m = machine(100);
    run(&mut m, &vec![0xBB, 0x60, 0x00, 0x83, 0xEB, 0x00]);
    assert_eq!(register(&m, "bx"), word(96));
    let registers = m.registers.clone();
    let memory = m.memory.clone();
    let flag_state = m.flags;

    // mov word [bx + 3], 1 needs the cells 99 and 100.
    for bytes in [
        vec![0xC7, 0x47, 0x03, 0x01, 0x00],
        // add [bx + 3], bx ; cmp [bx + 3], bx ; mov bx, [bx + 3]
        vec![0x01, 0x5F, 0x03],
        vec![0x39, 0x5F, 0x03],
        vec![0x8B, 0x5F, 0x03],
        // mov word [100], 1 ; mov [2000], bl
        vec![0xC7, 0x06, 0x64, 0x00, 0x01, 0x00],
        vec![0x88, 0x1E, 0xD0, 0x07],
    ] {
        m.instruction_pointer = 0;
        assert_eq!(step(&mut m, &bytes), Err(ExecError::MemoryOutOfBounds));
        assert_eq!(m.instruction_pointer, 0);
        assert_eq!(m.registers, registers);
        assert_eq!(m.memory, memory);
        assert_eq!(m.flags, flag_state);
    }
    // The byte at 99 is within memory.
    m.instruction_pointer = 0;
    assert!(step(&mut m, &vec![0xC6, 0x47, 0x03, 0x01]).is_ok());
    assert_eq!(m.memory[99].address_contents.modified_bits, bits_struct { bits: 1, initialized: true });

    for (bytes, error) in [
        (vec![0x80u8, 0xC8, 0x01], DecodeError::InvariantViolation),
        (vec![0x81, 0xC3], DecodeError::OutOfBounds),
        (vec![0x75], DecodeError::OutOfBounds),
    ] {
        let mut m = machine(4);
        assert_eq!(step(&mut m, &bytes), Err(ExecError::Decode(error)));
        assert_eq!(m.instruction_pointer, 0);
        assert_eq!(m.registers, construct_registers());
    }
}

#[test]
fn a_step_needs_its_registers_and_flags() {
    let bytes: Vec<u8> = vec![0x01, 0xCB];
    let d = decode(&bytes, 0, InstructionType::RegisterMemory).unwrap();
    let mut memory = vec![empty_cell(); 4];
    let mut flags = construct_flag_registers();
    let mut instruction_pointer: usize = 0;
    // Without cx, the source is missing; without bx, the destination.
    for missing in ["cx", "bx"] {
        let mut registers: Vec<Register> =
            construct_registers().into_iter().filter(|r| r.register != missing).collect();
        let before = registers.clone();
        assert_eq!(
            execute(&d, &mut registers, &mut flags, &mut memory, &mut instruction_pointer),
            Err(ExecError::UnknownRegister)
        );
        assert_eq!(registers, before);
        assert_eq!(instruction_pointer, 0);
    }
    // add derives flags, so both must be there; mov only clears.
    let mut registers = construct_registers();
    let mut other_flags = [
        FlagRegister { register: "ZF", is_set: true },
        FlagRegister { register: "CF", is_set: true },
    ];
    assert_eq!(
        execute(&d, &mut registers, &mut other_flags, &mut memory, &mut instruction_pointer),
        Err(ExecError::UnknownFlag)
    );
    assert_eq!(registers, construct_registers());
    assert_eq!(other_flags[0].is_set, true);
    let mov = decode(&vec![0x89, 0xCB], 0, InstructionType::RegisterMemory).unwrap();
    assert_eq!(
        execute(&mov, &mut registers, &mut other_flags, &mut memory, &mut instruction_pointer),
        Ok((uninit(), word(0)))
    );
    assert_eq!(other_flags[0].is_set, false);
    assert_eq!(other_flags[1].is_set, false);
    assert_eq!(instruction_pointer, 2);
}

#[test]
fn a_record_with_an_unknown_mnemonic_is_not_executed() {
    let d = decode(&vec![0x01, 0xCB], 0, InstructionType::RegisterMemory).unwrap();
    let odd = DecodedInstruction { mnemonic: "xor", ..d };
    let mut registers = construct_registers();
    let mut flags = construct_flag_registers();
    let mut memory = vec![empty_cell(); 4];
    let mut instruction_pointer: usize = 0;
    assert_eq!(
        execute(&odd, &mut registers, &mut flags, &mut memory, &mut instruction_pointer),
        Err(ExecError::UnknownMnemonic)
    );
    let to_memory = DecodedInstruction {
        mnemonic: "xor",
        memory_mode: MemoryModeEnum::MemoryModeNoDisplacement,
        rm_register: "bx",
        ..d
    };
    assert_eq!(
        execute(&to_memory, &mut registers, &mut flags, &mut memory, &mut instruction_pointer),
        Err(ExecError::UnknownMnemonic)
    );
    assert_eq!(registers, construct_registers());
    assert_eq!(memory, vec![empty_cell(); 4]);
    assert_eq!(instruction_pointer, 0);
}
