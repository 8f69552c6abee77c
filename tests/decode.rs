use chip8::decode::{decode, select_opcode, Instruction, Opcode};

#[test]
fn decode_splits_nibbles_and_immediates() {
    let i = decode(0x8124);
    assert_eq!(
        i,
        Instruction { op: 0x8, x: 0x1, y: 0x2, n: 0x4, addr: 0x124, byte: 0x24 }
    );
    let j = decode(0xABCD);
    assert_eq!(j.op, 0xA);
    assert_eq!(j.x, 0xB);
    assert_eq!(j.y, 0xC);
    assert_eq!(j.n, 0xD);
    assert_eq!(j.addr, 0xBCD);
    assert_eq!(j.byte, 0xCD);
}

#[test]
fn decode_twice_gives_the_same_fields() {
    for w in [0x0000u16, 0x00EE, 0x2100, 0x8014, 0xFFFF, 0x1234] {
        assert_eq!(decode(w), decode(w));
    }
}

#[test]
fn decode_is_total_and_recomposes_every_word() {
    for w in 0..=u16::MAX {
        let i = decode(w);
        assert!(i.op < 16 && i.x < 16 && i.y < 16 && i.n < 16);
        let back = (i.op as u16) << 12 | (i.x as u16) << 8 | (i.y as u16) << 4 | i.n as u16;
        assert_eq!(back, w);
        assert_eq!(i.addr, w & 0x0FFF);
        assert_eq!(i.byte as u16, w & 0x00FF);
    }
}

#[test]
fn select_opcode_recognises_the_table() {
    assert_eq!(select_opcode(&decode(0x0000)), Some(Opcode::Halt));
    assert_eq!(select_opcode(&decode(0x00EE)), Some(Opcode::Return));
    assert_eq!(select_opcode(&decode(0x2100)), Some(Opcode::Call(0x100)));
    assert_eq!(select_opcode(&decode(0x2ABC)), Some(Opcode::Call(0xABC)));
    assert_eq!(select_opcode(&decode(0x8014)), Some(Opcode::AddXY(0, 1)));
    assert_eq!(select_opcode(&decode(0x8F34)), Some(Opcode::AddXY(0xF, 3)));
}

#[test]
fn select_opcode_rejects_undefined_words() {
    for w in [0x00E0u16, 0x0001, 0x00EF, 0x1200, 0x8015, 0x8010, 0xF00A, 0x0100] {
        assert_eq!(select_opcode(&decode(w)), None);
    }
}
