use pocketemulator::cpu::{Cpu, Registers};
use pocketemulator::gameboy::GameBoy;

fn gb_with_code(code: &[u8]) -> GameBoy {
    let mut rom = vec![0u8; 0x8000];
    rom[0x100..0x100 + code.len()].copy_from_slice(code);
    GameBoy::from_rom(rom, None).expect("ROM-only image loads")
}

fn step(gb: &mut GameBoy) -> u8 {
    gb.cpu.step(&mut gb.bus)
}

#[test]
fn post_boot_registers() {
    let c = Cpu::new_post_boot(false);
    assert_eq!(c.regs.a, 0x01);
    assert_eq!(c.regs.f, 0xB0);
    assert_eq!(c.regs.bc(), 0x0013);
    assert_eq!(c.regs.de(), 0x00D8);
    assert_eq!(c.regs.hl(), 0x014D);
    assert_eq!(c.regs.sp, 0xFFFE);
    assert_eq!(c.regs.pc, 0x0100);
    assert!(!c.ime && !c.halted);
    assert_eq!(Cpu::new_post_boot(true).regs.a, 0x11);
}

#[test]
fn register_pairs_read_back() {
    let mut r = Registers::default();
    r.set_bc(0xBEEF);
    r.set_de(0x1234);
    r.set_hl(0xFFFF);
    r.set_af(0x12FF);
    assert_eq!(r.bc(), 0xBEEF);
    assert_eq!(r.de(), 0x1234);
    assert_eq!(r.hl(), 0xFFFF);
    assert_eq!(r.af(), 0x12F0);
    r.set_z(true);
    r.set_c(false);
    assert!(r.flag_z() && !r.flag_c());
}

#[test]
fn add_sets_all_flags() {
    let mut gb = gb_with_code(&[0x3E, 0x3A, 0xC6, 0xC6]);
    assert_eq!(step(&mut gb), 2);
    assert_eq!(step(&mut gb), 2);
    assert_eq!(gb.cpu.regs.a, 0x00);
    assert_eq!(gb.cpu.regs.f, 0xB0);
}

#[test]
fn sub_to_zero() {
    let mut gb = gb_with_code(&[0x3E, 0x3E, 0xD6, 0x3E]);
    step(&mut gb);
    step(&mut gb);
    assert_eq!(gb.cpu.regs.a, 0);
    assert_eq!(gb.cpu.regs.f, 0xC0);
}

#[test]
fn sbc_with_borrow_in() {
    let mut gb = gb_with_code(&[0x3E, 0x10, 0x37, 0xDE, 0x01]);
    step(&mut gb);
    step(&mut gb);
    step(&mut gb);
    assert_eq!(gb.cpu.regs.a, 0x0E);
    assert_eq!(gb.cpu.regs.f, 0x60);
}

#[test]
fn daa_after_bcd_add() {
    let mut gb = gb_with_code(&[0x3E, 0x15, 0xC6, 0x27, 0x27]);
    step(&mut gb);
    step(&mut gb);
    assert_eq!(gb.cpu.regs.a, 0x3C);
    step(&mut gb);
    assert_eq!(gb.cpu.regs.a, 0x42);
    assert_eq!(gb.cpu.regs.f & 0xF0, 0x00);
}

#[test]
fn cp_keeps_a() {
    let mut gb = gb_with_code(&[0x3E, 0x05, 0xFE, 0x07]);
    step(&mut gb);
    step(&mut gb);
    assert_eq!(gb.cpu.regs.a, 0x05);
    assert!(gb.cpu.regs.flag_c() && gb.cpu.regs.flag_n() && !gb.cpu.regs.flag_z());
}

#[test]
fn push_then_pop_restores_value_and_sp() {
    let mut gb = gb_with_code(&[0x01, 0x34, 0x12, 0xC5, 0xD1]);
    step(&mut gb);
    assert_eq!(step(&mut gb), 4);
    assert_eq!(gb.cpu.regs.sp, 0xFFFC);
    assert_eq!(step(&mut gb), 3);
    assert_eq!(gb.cpu.regs.de(), 0x1234);
    assert_eq!(gb.cpu.regs.sp, 0xFFFE);
}

#[test]
fn call_and_ret() {
    let mut code = vec![0u8; 0x20];
    code[0] = 0xCD;
    code[1] = 0x10;
    code[2] = 0x01;
    code[0x10] = 0xC9;
    let mut gb = gb_with_code(&code);
    assert_eq!(step(&mut gb), 6);
    assert_eq!(gb.cpu.regs.pc, 0x0110);
    assert_eq!(gb.cpu.regs.sp, 0xFFFC);
    assert_eq!(gb.bus.read(0xFFFD), 0x01);
    assert_eq!(gb.bus.read(0xFFFC), 0x03);
    step(&mut gb);
    assert_eq!(gb.cpu.regs.pc, 0x0103);
    assert_eq!(gb.cpu.regs.sp, 0xFFFE);
}

#[test]
fn jr_backwards() {
    let mut gb = gb_with_code(&[0x18, 0xFE]);
    assert_eq!(step(&mut gb), 3);
    assert_eq!(gb.cpu.regs.pc, 0x0100);
}

#[test]
fn conditional_jump_not_taken() {
    let mut gb = gb_with_code(&[0xAF, 0x20, 0x05]);
    step(&mut gb);
    assert!(gb.cpu.regs.flag_z());
    assert_eq!(step(&mut gb), 2);
    assert_eq!(gb.cpu.regs.pc, 0x0103);
}

#[test]
fn inc_dec_and_add_hl() {
    let mut gb = gb_with_code(&[0x06, 0xFF, 0x04, 0x21, 0xFF, 0x0F, 0x01, 0x01, 0x00, 0x09, 0x0B]);
    step(&mut gb);
    step(&mut gb);
    assert_eq!(gb.cpu.regs.b, 0);
    assert!(gb.cpu.regs.flag_z() && gb.cpu.regs.flag_h() && !gb.cpu.regs.flag_n());
    step(&mut gb);
    step(&mut gb);
    step(&mut gb);
    assert_eq!(gb.cpu.regs.hl(), 0x1000);
    assert!(gb.cpu.regs.flag_h() && !gb.cpu.regs.flag_c());
    step(&mut gb);
    assert_eq!(gb.cpu.regs.bc(), 0x0000);
}

#[test]
fn rotates_and_swap() {
    let mut gb = gb_with_code(&[0x3E, 0x85, 0x07, 0x3E, 0xF1, 0xCB, 0x37]);
    step(&mut gb);
    step(&mut gb);
    assert_eq!(gb.cpu.regs.a, 0x0B);
    assert!(gb.cpu.regs.flag_c());
    step(&mut gb);
    assert_eq!(step(&mut gb), 2);
    assert_eq!(gb.cpu.regs.a, 0x1F);
    assert_eq!(gb.cpu.regs.f & 0xF0, 0x00);
}

#[test]
fn bit_set_res() {
    let mut gb = gb_with_code(&[0x3E, 0x80, 0xCB, 0x7F, 0xCB, 0xBF, 0xCB, 0x7F, 0xCB, 0xC7]);
    step(&mut gb);
    step(&mut gb);
    assert!(!gb.cpu.regs.flag_z() && gb.cpu.regs.flag_h());
    step(&mut gb);
    assert_eq!(gb.cpu.regs.a, 0x00);
    step(&mut gb);
    assert!(gb.cpu.regs.flag_z());
    step(&mut gb);
    assert_eq!(gb.cpu.regs.a, 0x01);
}

#[test]
fn ei_takes_effect_after_next_instruction() {
    let mut gb = gb_with_code(&[0xFB, 0x00, 0x00]);
    step(&mut gb);
    assert!(!gb.cpu.ime);
    assert!(gb.cpu.ei_latch);
    step(&mut gb);
    assert!(gb.cpu.ime);
    assert!(!gb.cpu.ei_latch);
}

#[test]
fn interrupt_dispatch() {
    let mut gb = gb_with_code(&[0x00]);
    gb.cpu.ime = true;
    gb.bus.interrupts.ie = 0x05;
    gb.bus.interrupts.if_ = 0x04;
    assert_eq!(step(&mut gb), 5);
    assert_eq!(gb.cpu.regs.pc, 0x0050);
    assert_eq!(gb.bus.interrupts.if_, 0x00);
    assert!(!gb.cpu.ime);
    assert_eq!(gb.cpu.regs.sp, 0xFFFC);
}

#[test]
fn halt_waits_for_an_interrupt() {
    let mut gb = gb_with_code(&[0x76, 0x00]);
    step(&mut gb);
    assert!(gb.cpu.halted);
    assert_eq!(step(&mut gb), 1);
    assert_eq!(gb.cpu.regs.pc, 0x0101);
    gb.bus.interrupts.ie = 0x01;
    gb.bus.interrupts.if_ = 0x01;
    step(&mut gb);
    assert!(!gb.cpu.halted);
    assert_eq!(gb.cpu.regs.pc, 0x0102);
}

#[test]
fn ld_hl_sp_offset() {
    let mut gb = gb_with_code(&[0xF8, 0xFF]);
    step(&mut gb);
    assert_eq!(gb.cpu.regs.hl(), 0xFFFD);
    assert!(gb.cpu.regs.flag_h() && gb.cpu.regs.flag_c() && !gb.cpu.regs.flag_z());
}

#[test]
fn ei_takes_effect_after_cb_prefixed_instruction() {
    let mut gb = gb_with_code(&[0xFB, 0xCB, 0x37, 0x00]);
    gb.bus.interrupts.ie = 0;
    step(&mut gb);
    assert!(!gb.cpu.ime && gb.cpu.ei_latch);
    step(&mut gb);
    assert!(gb.cpu.ime && !gb.cpu.ei_latch);
}

#[test]
fn daa_gives_decimal_sum_and_difference() {
    // 45 + 38 = 83
    let mut gb = gb_with_code(&[0x3E, 0x45, 0xC6, 0x38, 0x27]);
    step(&mut gb);
    step(&mut gb);
    step(&mut gb);
    assert_eq!(gb.cpu.regs.a, 0x83);
    assert_eq!(gb.cpu.regs.f & 0xF0, 0x00);
    // 99 + 01 = 100: A holds 00, Z and C set
    let mut gb = gb_with_code(&[0x3E, 0x99, 0xC6, 0x01, 0x27]);
    step(&mut gb);
    step(&mut gb);
    step(&mut gb);
    assert_eq!(gb.cpu.regs.a, 0x00);
    assert_eq!(gb.cpu.regs.f & 0xF0, 0x90);
    // 12 - 25 = -13: A holds 87 with the borrow in C, N kept
    let mut gb = gb_with_code(&[0x3E, 0x12, 0xD6, 0x25, 0x27]);
    step(&mut gb);
    step(&mut gb);
    step(&mut gb);
    assert_eq!(gb.cpu.regs.a, 0x87);
    assert_eq!(gb.cpu.regs.f & 0xF0, 0x50);
}
