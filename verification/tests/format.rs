use intel8086_decoder::bits::{construct_opcodes, determine_instruction};
use intel8086_decoder::decode::decode;
use intel8086_decoder::format::{effective_address_string, format_instruction, trace_line};
use intel8086_decoder::registers::{Value, ValueEnum};

fn text(bytes: &[u8]) -> String {
    let bytes = bytes.to_vec();
    let class = determine_instruction(&construct_opcodes(), bytes[0]).unwrap();
    let d = decode(&bytes, 0, class).unwrap();
    assert_eq!(d.instruction_size, bytes.len());
    format_instruction(&d)
}

fn address(bytes: &[u8]) -> String {
    let bytes = bytes.to_vec();
    let class = determine_instruction(&construct_opcodes(), bytes[0]).unwrap();
    effective_address_string(&decode(&bytes, 0, class).unwrap())
}

#[test]
fn register_to_register() {
    assert_eq!(text(&[0x89, 0xD9]), "mov cx, bx");
    assert_eq!(text(&[0x8B, 0xD9]), "mov bx, cx");
    assert_eq!(text(&[0x88, 0xE5]), "mov ch, ah");
    assert_eq!(text(&[0x00, 0xE0]), "add al, ah");
    assert_eq!(text(&[0x29, 0xD8]), "sub ax, bx");
    assert_eq!(text(&[0x3B, 0xC3]), "cmp ax, bx");
}

#[test]
fn register_and_memory() {
    assert_eq!(text(&[0x8A, 0x00]), "mov al, [bx + si]");
    assert_eq!(text(&[0x8B, 0x1B]), "mov bx, [bp + di]");
    assert_eq!(text(&[0x8B, 0x56, 0x00]), "mov dx, [bp + 0]");
    assert_eq!(text(&[0x8A, 0x60, 0x04]), "mov ah, [bx + si + 4]");
    assert_eq!(text(&[0x8A, 0x80, 0x87, 0x13]), "mov al, [bx + si + 4999]");
    // The displacement is shown as it is stored, without a sign.
    assert_eq!(text(&[0x8B, 0x41, 0xDB]), "mov ax, [bx + di + 219]");
    assert_eq!(text(&[0x8B, 0x97, 0xE0, 0xFF]), "mov dx, [bx + 65504]");
    // A 16-bit mov to memory without displacement names its size.
    assert_eq!(text(&[0x89, 0x09]), "mov word [bx + di], cx");
    assert_eq!(text(&[0x88, 0x0A]), "mov [bp + si], cl");
    assert_eq!(text(&[0x88, 0x6E, 0x00]), "mov [bp + 0], ch");
    assert_eq!(text(&[0x89, 0x4F, 0x02]), "mov [bx + 2], cx");
    assert_eq!(text(&[0x01, 0x18]), "add [bx + si], bx");
    assert_eq!(text(&[0x29, 0x1C]), "sub [si], bx");
    assert_eq!(text(&[0x39, 0x1D]), "cmp [di], bx");
    assert_eq!(text(&[0x3B, 0x1F]), "cmp bx, [bx]");
}

#[test]
fn a_direct_address_names_its_size() {
    assert_eq!(text(&[0x8B, 0x1E, 0xE8, 0x03]), "mov bx, word [1000]");
    assert_eq!(text(&[0x8A, 0x1E, 0xE8, 0x03]), "mov bl, byte [1000]");
    assert_eq!(text(&[0x89, 0x1E, 0xE8, 0x03]), "mov word [1000], bx");
    assert_eq!(text(&[0x88, 0x1E, 0xE8, 0x03]), "mov byte [1000], bl");
    assert_eq!(text(&[0x03, 0x06, 0x00, 0x00]), "add ax, word [0]");
    assert_eq!(text(&[0x39, 0x06, 0xFF, 0xFF]), "cmp word [65535], ax");
    assert_eq!(text(&[0xC7, 0x06, 0xE8, 0x03, 0x01, 0x00]), "mov word [1000], 1");
    assert_eq!(text(&[0xC6, 0x06, 0xE8, 0x03, 0x01]), "mov byte [1000], 1");
    assert_eq!(text(&[0x81, 0x06, 0xE8, 0x03, 0xF4, 0x01]), "add word [1000], 500");
    assert_eq!(text(&[0x80, 0x2E, 0xE8, 0x03, 0x05]), "sub byte [1000], 5");
    assert_eq!(text(&[0x83, 0x3E, 0xE2, 0x12, 0x1D]), "cmp word [4834], 29");
}

#[test]
fn immediates() {
    assert_eq!(text(&[0xB1, 0x0C]), "mov cl, 12");
    assert_eq!(text(&[0xB5, 0xF4]), "mov ch, -12");
    assert_eq!(text(&[0xB9, 0xF4, 0xFF]), "mov cx, -12");
    assert_eq!(text(&[0xBA, 0x6C, 0x0F]), "mov dx, 3948");
    assert_eq!(text(&[0xB8, 0x00, 0x80]), "mov ax, -32768");
    assert_eq!(text(&[0xB0, 0x80]), "mov al, -128");
    assert_eq!(text(&[0x83, 0xC6, 0x02]), "add si, 2");
    assert_eq!(text(&[0x81, 0xC5, 0x03, 0x04]), "add bp, 1027");
    assert_eq!(text(&[0x80, 0xC3, 0x22]), "add bl, 34");
    assert_eq!(text(&[0xC7, 0xC3, 0x22, 0x00]), "mov bx, 34");
    assert_eq!(text(&[0x80, 0x07, 0x22]), "add byte [bx], 34");
    assert_eq!(text(&[0x83, 0x29, 0x1D]), "sub word [bx + di], 29");
    assert_eq!(text(&[0x83, 0x82, 0xE8, 0x03, 0x1D]), "add word [bp + si + 1000], 29");
    assert_eq!(text(&[0xC7, 0x47, 0x04, 0x0A, 0x00]), "mov word [bx + 4], 10");
    assert_eq!(text(&[0xC6, 0x47, 0x04, 0x0A]), "mov byte [bx + 4], 10");
    assert_eq!(text(&[0x05, 0xE8, 0x03]), "add ax, 1000");
    assert_eq!(text(&[0x04, 0xE2]), "add al, -30");
    assert_eq!(text(&[0x2D, 0xE8, 0x03]), "sub ax, 1000");
    assert_eq!(text(&[0x3C, 0x09]), "cmp al, 9");
}

#[test]
fn jumps_show_their_offset_from_the_start_of_the_instruction() {
    assert_eq!(text(&[0x75, 0xFE]), "jnz 0");
    assert_eq!(text(&[0x75, 0xFC]), "jnz -2");
    assert_eq!(text(&[0x75, 0xF8]), "jnz -6");
    assert_eq!(text(&[0xE3, 0xD8]), "jcxz -38");
    assert_eq!(text(&[0x74, 0x80]), "je -126");
    assert_eq!(text(&[0x74, 0x81]), "je -125");
    // Forward: the byte less two.
    assert_eq!(text(&[0x75, 0x02]), "jnz 0");
    assert_eq!(text(&[0x75, 0x03]), "jnz 1");
    assert_eq!(text(&[0x7F, 0x7F]), "jg 125");
    assert_eq!(text(&[0xE2, 0x10]), "loop 14");
    // The three offsets that point into the jump itself.
    assert_eq!(text(&[0x75, 0x00]), "jnz 254");
    assert_eq!(text(&[0x75, 0x01]), "jnz 255");
    assert_eq!(text(&[0x75, 0xFF]), "jnz --1");
}

#[test]
fn the_address_expression_alone() {
    assert_eq!(address(&[0x8A, 0x5E, 0x04]), "bp + 4");
    assert_eq!(address(&[0x8A, 0x00]), "bx + si");
    assert_eq!(address(&[0x8A, 0x80, 0x87, 0x13]), "bx + si + 4999");
    assert_eq!(address(&[0x8B, 0x1E, 0xE8, 0x03]), "1000");
    assert_eq!(address(&[0x89, 0xD9]), "cx");
    assert_eq!(address(&[0xC7, 0x47, 0x04, 0x0A, 0x00]), "bx + 4");
}

#[test]
fn a_step_is_reported_on_one_line() {
    let nothing = Value { value: ValueEnum::Uninitialized, is_signed: false };
    let word = |bits: u16| Value::new(ValueEnum::WordSize(bits));
    assert_eq!(
        trace_line("add si, 2", word(0), word(2), &vec![], 4, 6),
        "add si, 2 | 0 -> 2 | flags: [], IP: 4 -> 6"
    );
    assert_eq!(
        trace_line("sub bx, cx", word(61443), word(57602), &vec!["SF"], 6, 8),
        "sub bx, cx | -4093 -> -7934 | flags: [\"SF\"], IP: 6 -> 8"
    );
    assert_eq!(
        trace_line("mov word [1000], 1", nothing, word(1), &vec!["ZF", "SF"], 0, 6),
        "mov word [1000], 1 | 0 -> 1 | flags: [\"ZF\", \"SF\"], IP: 0 -> 6"
    );
    assert_eq!(
        trace_line("jnz -6", nothing, nothing, &vec!["ZF", "SF", "CF"], 12, 6),
        format!("jnz -6 | 0 -> 0 | flags: {:?}, IP: 12 -> 6", vec!["ZF", "SF", "CF"])
    );
}
