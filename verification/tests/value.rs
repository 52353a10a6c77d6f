use intel8086_decoder::registers::{number_is_signed, Value, ValueEnum};

fn word(bits: u16) -> Value {
    Value::new(ValueEnum::WordSize(bits))
}

fn byte(bits: u8) -> Value {
    Value::new(ValueEnum::ByteSize(bits))
}

#[test]
fn get_usize_reads_the_stored_bits() {
    assert_eq!(ValueEnum::ByteSize(200).get_usize(), 200);
    assert_eq!(ValueEnum::WordSize(65535).get_usize(), 65535);
    assert_eq!(ValueEnum::Uninitialized.get_usize(), 0);
}

#[test]
fn the_sign_is_the_highest_bit() {
    assert!(!number_is_signed(ValueEnum::ByteSize(127)));
    assert!(number_is_signed(ValueEnum::ByteSize(128)));
    assert!(!number_is_signed(ValueEnum::WordSize(32767)));
    assert!(number_is_signed(ValueEnum::WordSize(32768)));
    assert!(!number_is_signed(ValueEnum::Uninitialized));
    assert_eq!(word(61443), Value { value: ValueEnum::WordSize(61443), is_signed: true });
    assert_eq!(byte(12), Value { value: ValueEnum::ByteSize(12), is_signed: false });
}

#[test]
fn word_addition_wraps_at_65536() {
    assert_eq!(word(65535).wrap_add_and_return_result(ValueEnum::WordSize(1)), word(0));
    assert_eq!(word(40000).wrap_add_and_return_result(ValueEnum::WordSize(40000)), word(14464));
    assert_eq!(word(1000).wrap_add_and_return_result(ValueEnum::WordSize(10)), word(1010));
    let mut v = word(65000);
    v.wrap_add(ValueEnum::WordSize(1000));
    assert_eq!(v, word(464));
}

#[test]
fn byte_addition_wraps_at_256() {
    assert_eq!(byte(200).wrap_add_and_return_result(ValueEnum::ByteSize(100)), byte(44));
    assert_eq!(byte(255).wrap_add_and_return_result(ValueEnum::ByteSize(1)), byte(0));
    let mut v = byte(127);
    v.wrap_add(ValueEnum::ByteSize(1));
    assert_eq!(v, Value { value: ValueEnum::ByteSize(128), is_signed: true });
}

#[test]
fn subtraction_wraps_below_zero() {
    assert_eq!(word(0).wrap_sub_and_return_result(ValueEnum::WordSize(1)), word(65535));
    assert_eq!(word(61443).wrap_sub_and_return_result(ValueEnum::WordSize(3841)), word(57602));
    assert_eq!(byte(0).wrap_sub_and_return_result(ValueEnum::ByteSize(1)), byte(255));
    assert_eq!(byte(12).wrap_sub_and_return_result(ValueEnum::ByteSize(12)), byte(0));
    let mut v = word(2);
    v.wrap_sub(ValueEnum::WordSize(6));
    assert_eq!(v, Value { value: ValueEnum::WordSize(65532), is_signed: true });
    let mut b = byte(5);
    b.wrap_sub(ValueEnum::ByteSize(10));
    assert_eq!(b, Value { value: ValueEnum::ByteSize(251), is_signed: true });
}

#[test]
fn arithmetic_keeps_the_width_of_the_left_operand() {
    // An 8-bit destination takes the operand modulo 256, whatever the width of the source.
    assert_eq!(byte(1).wrap_add_and_return_result(ValueEnum::WordSize(0x1234)), byte(0x35));
    assert_eq!(byte(1).wrap_sub_and_return_result(ValueEnum::WordSize(0x1202)), byte(0xFF));
    assert_eq!(word(1).wrap_add_and_return_result(ValueEnum::ByteSize(255)), word(256));
    assert_eq!(word(1).wrap_sub_and_return_result(ValueEnum::ByteSize(2)), word(65535));
}

#[test]
fn nothing_stored_takes_no_part_in_arithmetic() {
    let nothing = Value { value: ValueEnum::Uninitialized, is_signed: false };
    assert_eq!(nothing.wrap_add_and_return_result(ValueEnum::WordSize(5)), nothing);
    assert_eq!(nothing.wrap_sub_and_return_result(ValueEnum::ByteSize(5)), nothing);
    let mut v = nothing;
    v.wrap_add(ValueEnum::WordSize(7));
    assert_eq!(v, nothing);
    v.wrap_sub(ValueEnum::WordSize(7));
    assert_eq!(v, nothing);
    // As a source it counts as zero.
    assert_eq!(word(9).wrap_add_and_return_result(ValueEnum::Uninitialized), word(9));
    assert_eq!(byte(9).wrap_sub_and_return_result(ValueEnum::Uninitialized), byte(9));
}

#[test]
fn values_render_as_signed_decimal_numbers() {
    assert_eq!(word(0).get_string_number_from_bits(), "0");
    assert_eq!(word(3948).get_string_number_from_bits(), "3948");
    assert_eq!(word(32767).get_string_number_from_bits(), "32767");
    assert_eq!(word(61588).get_string_number_from_bits(), "-3948");
    assert_eq!(word(65524).get_string_number_from_bits(), "-12");
    assert_eq!(word(65535).get_string_number_from_bits(), "-1");
    assert_eq!(word(32768).get_string_number_from_bits(), "-32768");
    assert_eq!(byte(12).get_string_number_from_bits(), "12");
    assert_eq!(byte(127).get_string_number_from_bits(), "127");
    assert_eq!(byte(244).get_string_number_from_bits(), "-12");
    assert_eq!(byte(226).get_string_number_from_bits(), "-30");
    assert_eq!(byte(128).get_string_number_from_bits(), "-128");
    assert_eq!(byte(255).get_string_number_from_bits(), "-1");
    let nothing = Value { value: ValueEnum::Uninitialized, is_signed: false };
    assert_eq!(nothing.get_string_number_from_bits(), "0");
}
