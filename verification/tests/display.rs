use chip8::cpu::CPU;
use chip8::instruction::decode;
use chip8::machine::{ExecutorError, Flow};

fn draw_setup(sprite: &[u8], x: u8, y: u8) -> CPU {
    let mut cpu = CPU::new();
    let mut k: u16 = 0;
    while (k as usize) < sprite.len() {
        cpu.write_memory(0x300 + k, sprite[k as usize]);
        k += 1;
    }
    assert_eq!(cpu.parse_instruction(0xA300), Ok(()));
    assert_eq!(cpu.parse_instruction(0x6000 | x as u16), Ok(()));
    assert_eq!(cpu.parse_instruction(0x6100 | y as u16), Ok(()));
    cpu
}

fn lit_pixels(cpu: &CPU) -> Vec<(u8, u8)> {
    let mut lit = Vec::new();
    let mut y: u8 = 0;
    while y < 32 {
        let mut x: u8 = 0;
        while x < 64 {
            if cpu.pixel(x, y) {
                lit.push((x, y));
            }
            x += 1;
        }
        y += 1;
    }
    lit
}

#[test]
fn drawing_a_full_row_twice_restores_the_blank_screen() {
    let mut cpu = draw_setup(&[0xFF], 0, 0);
    assert_eq!(cpu.parse_instruction(0xD011), Ok(()));
    assert_eq!(
        lit_pixels(&cpu),
        vec![(0, 0), (1, 0), (2, 0), (3, 0), (4, 0), (5, 0), (6, 0), (7, 0)]
    );
    assert_eq!(cpu.register(0xF), 0);
    assert!(cpu.is_dirty());
    assert_eq!(cpu.parse_instruction(0xD011), Ok(()));
    assert_eq!(lit_pixels(&cpu), vec![]);
    assert_eq!(cpu.register(0xF), 1);
    assert!(cpu.is_dirty());
}

#[test]
fn draw_reads_bits_from_the_most_significant() {
    let mut cpu = draw_setup(&[0b1010_0001], 10, 5);
    assert_eq!(cpu.execute_instruction(decode(0xD011), 0), Ok(Flow::Next));
    assert_eq!(lit_pixels(&cpu), vec![(10, 5), (12, 5), (17, 5)]);
    assert_eq!(cpu.register(0xF), 0);
    assert_eq!(cpu.pc(), 0x200);
    assert_eq!(cpu.index(), 0x300);
}

#[test]
fn draw_stacks_rows_downwards() {
    let mut cpu = draw_setup(&[0x80, 0x40, 0x20], 3, 4);
    assert_eq!(cpu.parse_instruction(0xD013), Ok(()));
    assert_eq!(lit_pixels(&cpu), vec![(3, 4), (4, 5), (5, 6)]);
}

#[test]
fn draw_uses_only_n_rows() {
    let mut cpu = draw_setup(&[0x80, 0x80, 0x80, 0x80], 0, 0);
    assert_eq!(cpu.parse_instruction(0xD012), Ok(()));
    assert_eq!(lit_pixels(&cpu), vec![(0, 0), (0, 1)]);
}

#[test]
fn draw_of_no_rows_marks_dirty_and_clears_vf() {
    let mut cpu = draw_setup(&[0xFF], 0, 0);
    assert_eq!(cpu.parse_instruction(0x6F09), Ok(()));
    assert_eq!(cpu.parse_instruction(0xD010), Ok(()));
    assert_eq!(lit_pixels(&cpu), vec![]);
    assert_eq!(cpu.register(0xF), 0);
    assert!(cpu.is_dirty());
}

#[test]
fn draw_wraps_columns_at_the_right_edge() {
    let mut cpu = draw_setup(&[0xFF], 60, 2);
    assert_eq!(cpu.parse_instruction(0xD011), Ok(()));
    assert_eq!(
        lit_pixels(&cpu),
        vec![(0, 2), (1, 2), (2, 2), (3, 2), (60, 2), (61, 2), (62, 2), (63, 2)]
    );
}

#[test]
fn draw_wraps_rows_at_the_bottom_edge() {
    let mut cpu = draw_setup(&[0x80, 0x80, 0x80], 7, 30);
    assert_eq!(cpu.parse_instruction(0xD013), Ok(()));
    assert_eq!(lit_pixels(&cpu), vec![(7, 0), (7, 30), (7, 31)]);
}

#[test]
fn draw_takes_the_corner_modulo_the_grid() {
    let mut cpu = draw_setup(&[0xC0], 64 + 5, 32 + 3);
    assert_eq!(cpu.parse_instruction(0xD011), Ok(()));
    assert_eq!(lit_pixels(&cpu), vec![(5, 3), (6, 3)]);
    let mut cpu = draw_setup(&[0xC0], 255, 255);
    assert_eq!(cpu.parse_instruction(0xD011), Ok(()));
    assert_eq!(lit_pixels(&cpu), vec![(0, 31), (63, 31)]);
}

#[test]
fn draw_reports_collision_only_for_pixels_turned_off() {
    let mut cpu = draw_setup(&[0xF0, 0x0F], 0, 0);
    assert_eq!(cpu.parse_instruction(0xD011), Ok(()));
    assert_eq!(cpu.register(0xF), 0);
    assert_eq!(cpu.parse_instruction(0xA301), Ok(()));
    assert_eq!(cpu.parse_instruction(0xD011), Ok(()));
    assert_eq!(cpu.register(0xF), 0);
    assert_eq!(lit_pixels(&cpu).len(), 8);
    assert_eq!(cpu.parse_instruction(0x6003), Ok(()));
    assert_eq!(cpu.parse_instruction(0xD011), Ok(()));
    assert_eq!(cpu.register(0xF), 1);
    assert_eq!(
        lit_pixels(&cpu),
        vec![(0, 0), (1, 0), (2, 0), (3, 0), (4, 0), (5, 0), (6, 0), (8, 0), (9, 0), (10, 0)]
    );
}

#[test]
fn draw_twice_restores_any_screen() {
    let mut cpu = draw_setup(&[0xA5, 0x3C, 0xFF, 0x81, 0x18], 61, 29);
    assert_eq!(cpu.parse_instruction(0xD015), Ok(()));
    let background = lit_pixels(&cpu);
    assert_eq!(cpu.parse_instruction(0x6003), Ok(()));
    assert_eq!(cpu.parse_instruction(0x6102), Ok(()));
    assert_eq!(cpu.parse_instruction(0xA302), Ok(()));
    assert_eq!(cpu.parse_instruction(0xD013), Ok(()));
    assert_ne!(lit_pixels(&cpu), background);
    assert_eq!(cpu.parse_instruction(0xD013), Ok(()));
    assert_eq!(lit_pixels(&cpu), background);
}

#[test]
fn draw_writes_vf_last() {
    let mut cpu = draw_setup(&[0x80], 0, 0);
    assert_eq!(cpu.parse_instruction(0x6F05), Ok(()));
    assert_eq!(cpu.parse_instruction(0x6003), Ok(()));
    assert_eq!(cpu.parse_instruction(0xDF01), Ok(()));
    assert_eq!(lit_pixels(&cpu), vec![(5, 3)]);
    assert_eq!(cpu.register(0xF), 0);
}

#[test]
fn draw_past_the_store_is_out_of_range() {
    let mut cpu = CPU::new();
    cpu.write_memory(0xFFE, 0xFF);
    cpu.write_memory(0xFFF, 0xFF);
    assert_eq!(cpu.parse_instruction(0xAFFE), Ok(()));
    assert_eq!(cpu.parse_instruction(0x6F07), Ok(()));
    assert_eq!(cpu.parse_instruction(0xD003), Err(ExecutorError::OutOfRange));
    assert_eq!(lit_pixels(&cpu), vec![]);
    assert!(!cpu.is_dirty());
    assert_eq!(cpu.register(0xF), 7);
    assert_eq!(cpu.parse_instruction(0xD002), Ok(()));
    assert_eq!(lit_pixels(&cpu).len(), 16);
    assert!(cpu.is_dirty());
}

#[test]
fn clear_blanks_the_screen_and_marks_dirty() {
    let mut cpu = draw_setup(&[0xFF, 0xFF], 20, 10);
    assert_eq!(cpu.parse_instruction(0xD012), Ok(()));
    assert_eq!(lit_pixels(&cpu).len(), 16);
    cpu.clear_dirty();
    assert!(!cpu.is_dirty());
    assert_eq!(cpu.execute_instruction(decode(0x00E0), 0), Ok(Flow::Next));
    assert_eq!(lit_pixels(&cpu), vec![]);
    assert!(cpu.is_dirty());
    assert_eq!(cpu.pc(), 0x200);
}

#[test]
fn only_the_renderer_clears_the_dirty_flag() {
    let mut cpu = draw_setup(&[0xFF], 0, 0);
    assert_eq!(cpu.parse_instruction(0xD011), Ok(()));
    assert!(cpu.is_dirty());
    for word in [0x6201u16, 0x7201, 0x8124, 0xA300, 0x1200, 0xF115] {
        assert_eq!(cpu.parse_instruction(word), Ok(()));
        assert!(cpu.is_dirty());
    }
    cpu.tick_timers();
    cpu.press_key(1);
    assert!(cpu.is_dirty());
    cpu.clear_dirty();
    assert!(!cpu.is_dirty());
    assert_eq!(lit_pixels(&cpu).len(), 8);
}
