use chip8::instruction::{assemble, decode, Instruction};

#[test]
fn assemble_joins_high_and_low_byte() {
    assert_eq!(assemble(0xA2, 0x34), 0xA234);
}

#[test]
fn assemble_keeps_both_halves() {
    assert_eq!(assemble(0x00, 0x00), 0x0000);
    assert_eq!(assemble(0xFF, 0x00), 0xFF00);
    assert_eq!(assemble(0x00, 0xFF), 0x00FF);
    assert_eq!(assemble(0xFF, 0xFF), 0xFFFF);
    assert_eq!(assemble(0x12, 0xEF), 0x12EF);
}

#[test]
fn assemble_is_high_times_256_plus_low_for_every_pair() {
    let mut high: u16 = 0;
    while high < 256 {
        let mut low: u16 = 0;
        while low < 256 {
            assert_eq!(assemble(high as u8, low as u8), high * 256 + low);
            low += 1;
        }
        high += 1;
    }
}

#[test]
fn decode_splits_every_field() {
    let ins = decode(0xD12F);
    assert_eq!(ins.family, 0xD);
    assert_eq!(ins.nnn, 0x12F);
    assert_eq!(ins.kk, 0x2F);
    assert_eq!(ins.x, 0x1);
    assert_eq!(ins.y, 0x2);
    assert_eq!(ins.n, 0xF);
}

#[test]
fn decode_of_assembled_bytes() {
    let ins = decode(assemble(0xA2, 0x34));
    assert_eq!(
        ins,
        Instruction { family: 0xA, nnn: 0x234, kk: 0x34, x: 0x2, y: 0x3, n: 0x4 }
    );
}

#[test]
fn decode_extremes() {
    assert_eq!(
        decode(0x0000),
        Instruction { family: 0, nnn: 0, kk: 0, x: 0, y: 0, n: 0 }
    );
    assert_eq!(
        decode(0xFFFF),
        Instruction { family: 0xF, nnn: 0xFFF, kk: 0xFF, x: 0xF, y: 0xF, n: 0xF }
    );
}

#[test]
fn decode_recomposes_every_word() {
    let mut word: u32 = 0;
    while word <= 0xFFFF {
        let ins = decode(word as u16);
        assert!(ins.family < 16);
        assert!(ins.has_operands_in_range());
        assert_eq!(ins.family as u32 * 0x1000 + ins.nnn as u32, word);
        assert_eq!(ins.x as u16 * 0x100 + ins.kk as u16, ins.nnn);
        assert_eq!(ins.y * 0x10 + ins.n, ins.kk);
        word += 1;
    }
}

#[test]
fn operands_out_of_range_are_told() {
    let good = Instruction { family: 6, nnn: 0xFFF, kk: 0xFF, x: 15, y: 15, n: 15 };
    assert!(good.has_operands_in_range());
    assert!(!Instruction { x: 16, ..good }.has_operands_in_range());
    assert!(!Instruction { y: 16, ..good }.has_operands_in_range());
    assert!(!Instruction { n: 16, ..good }.has_operands_in_range());
    assert!(!Instruction { nnn: 0x1000, ..good }.has_operands_in_range());
}
