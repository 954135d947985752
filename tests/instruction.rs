use chip8::hardware::instruction::{Instruction, Opcode};

#[test]
fn test_get_nibble() {
    let instruction = Instruction::new(0x4739 as u16);
    assert_eq!(instruction.get_nibble(), 9 as u8);
}

#[test]
fn test_get_addr() {
    let instruction = Instruction::new(0x4739 as u16);
    assert_eq!(instruction.get_addr(), 0x0739 as u16);
}

#[test]
fn test_get_x() {
    let instruction = Instruction::new(0x4739 as u16);
    assert_eq!(instruction.get_x(), 7 as u8);
}

#[test]
fn test_get_y() {
    let instruction = Instruction::new(0x4739 as u16);
    assert_eq!(instruction.get_y(), 3 as u8);
}

#[test]
fn test_get_kk() {
    let instruction = Instruction::new(0x4739 as u16);
    assert_eq!(instruction.get_kk(), 0x39 as u8);
}

#[test]
fn test_get_top_nib() {
    let instruction = Instruction::new(0x4739 as u16);
    assert_eq!(instruction.get_top_nib(), 4 as u8);
}

#[test]
fn decode_names_each_instruction() {
    let cases: Vec<(u16, Opcode)> = vec![
        (0x00E0, Opcode::Cls),
        (0x00EE, Opcode::Ret),
        (0x1ABC, Opcode::Jp(0xABC)),
        (0x2ABC, Opcode::Call(0xABC)),
        (0x3A12, Opcode::SeByte(0xA, 0x12)),
        (0x4A12, Opcode::SneByte(0xA, 0x12)),
        (0x5AB0, Opcode::SeReg(0xA, 0xB)),
        (0x6A12, Opcode::LdByte(0xA, 0x12)),
        (0x7A12, Opcode::AddByte(0xA, 0x12)),
        (0x8AB0, Opcode::LdReg(0xA, 0xB)),
        (0x8AB1, Opcode::Or(0xA, 0xB)),
        (0x8AB2, Opcode::And(0xA, 0xB)),
        (0x8AB3, Opcode::Xor(0xA, 0xB)),
        (0x8AB4, Opcode::Add(0xA, 0xB)),
        (0x8AB5, Opcode::Sub(0xA, 0xB)),
        (0x8AB6, Opcode::Shr(0xA)),
        (0x8AB7, Opcode::Subn(0xA, 0xB)),
        (0x8ABE, Opcode::Shl(0xA)),
        (0x9AB0, Opcode::SneReg(0xA, 0xB)),
        (0xAABC, Opcode::LdI(0xABC)),
        (0xBABC, Opcode::JpV0(0xABC)),
        (0xCA12, Opcode::Rnd(0xA, 0x12)),
        (0xDAB5, Opcode::Drw(0xA, 0xB, 5)),
        (0xEA9E, Opcode::Skp(0xA)),
        (0xEAA1, Opcode::Sknp(0xA)),
        (0xFA07, Opcode::LdVxDt(0xA)),
        (0xFA0A, Opcode::LdVxK(0xA)),
        (0xFA15, Opcode::LdDtVx(0xA)),
        (0xFA18, Opcode::LdStVx(0xA)),
        (0xFA1E, Opcode::AddIVx(0xA)),
        (0xFA29, Opcode::LdFVx(0xA)),
        (0xFA33, Opcode::LdBVx(0xA)),
        (0xFA55, Opcode::StoreRegs(0xA)),
        (0xFA65, Opcode::LoadRegs(0xA)),
    ];
    for (word, op) in cases {
        assert_eq!(Instruction::new(word).decode(), Some(op), "word {:#06x}", word);
    }
}

#[test]
fn decode_refuses_unknown_words() {
    for word in [0x0000u16, 0x00E1, 0x0123, 0x8008, 0x800F, 0xE000, 0xE09F, 0xF000, 0xF0FF, 0xF066] {
        assert_eq!(Instruction::new(word).decode(), None, "word {:#06x}", word);
    }
}
