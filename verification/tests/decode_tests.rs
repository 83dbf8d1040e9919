use chip8::decode::{decode_bytes, Instr};
use chip8::font::font_table;
use chip8::max_rom_len;

#[test]
fn rom_capacity_is_memory_minus_load_address() {
    assert_eq!(max_rom_len(), 3584);
}

#[test]
fn font_table_is_eighty_bytes_of_glyphs() {
    let f = font_table();
    assert_eq!(f.len(), 80);
    assert_eq!(f[0], 0xF0); // digit 0 starts solid
    assert_eq!(&f[50..55], &[0xF0, 0x90, 0xF0, 0x90, 0x90]); // digit A
    assert_eq!(f[79], 0x80); // last row of digit F
}

#[test]
fn decode_clear_and_return() {
    assert_eq!(decode_bytes(0x00, 0xE0), Instr::Cls);
    assert_eq!(decode_bytes(0x00, 0xEE), Instr::Ret);
}

#[test]
fn decode_extracts_operand_fields() {
    assert_eq!(decode_bytes(0x1A, 0xBC), Instr::Jump { nnn: 0xABC });
    assert_eq!(decode_bytes(0x2F, 0xFF), Instr::Call { nnn: 0xFFF });
    assert_eq!(decode_bytes(0x63, 0x42), Instr::LoadImm { x: 3, nn: 0x42 });
    assert_eq!(decode_bytes(0x75, 0x01), Instr::AddImm { x: 5, nn: 1 });
    assert_eq!(decode_bytes(0x8A, 0xB4), Instr::AddReg { x: 0xA, y: 0xB });
    assert_eq!(decode_bytes(0x8A, 0xB5), Instr::SubReg { x: 0xA, y: 0xB });
    assert_eq!(decode_bytes(0xD1, 0x25), Instr::Draw { x: 1, y: 2, n: 5 });
    assert_eq!(decode_bytes(0xF3, 0x0A), Instr::WaitKey { x: 3 });
    assert_eq!(decode_bytes(0xF3, 0x33), Instr::StoreBcd { x: 3 });
    assert_eq!(decode_bytes(0xE1, 0x9E), Instr::SkipKey { x: 1 });
    assert_eq!(decode_bytes(0xE1, 0xA1), Instr::SkipNoKey { x: 1 });
    assert_eq!(decode_bytes(0xC7, 0x0F), Instr::Random { x: 7, nn: 0x0F });
    assert_eq!(decode_bytes(0xAB, 0xCD), Instr::LoadIndex { nnn: 0xBCD });
    assert_eq!(decode_bytes(0xB1, 0x23), Instr::JumpOffset { nnn: 0x123 });
}

#[test]
fn decode_rejects_unknown_patterns() {
    assert_eq!(decode_bytes(0x00, 0x00), Instr::Illegal);
    assert_eq!(decode_bytes(0x01, 0x23), Instr::Illegal); // machine-code call
    assert_eq!(decode_bytes(0x58, 0x21), Instr::Illegal); // 5XY1
    assert_eq!(decode_bytes(0x88, 0x88), Instr::Illegal); // 8XY8
    assert_eq!(decode_bytes(0xE0, 0x00), Instr::Illegal);
    assert_eq!(decode_bytes(0xF0, 0xFF), Instr::Illegal);
}

#[test]
fn decode_is_pure_and_repeatable() {
    let a = decode_bytes(0x8A, 0xB6);
    let b = decode_bytes(0x8A, 0xB6);
    assert_eq!(a, b);
    assert_eq!(a, Instr::ShiftRight { x: 0xA, y: 0xB });
}
