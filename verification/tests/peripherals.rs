use pocketemulator::apu::Apu;
use pocketemulator::gameboy::{GameBoy, FRAME_T_CYCLES};
use pocketemulator::host::set_button;
use pocketemulator::interrupts::{JOYPAD, TIMER, VBLANK};
use pocketemulator::joypad::BTN_START;
use pocketemulator::ppu::Ppu;
use pocketemulator::timer::Timer;

#[test]
fn timer_counts_at_sixteen_cycles() {
    let mut t = Timer::default();
    let mut if_ = 0u8;
    t.write_tac(0x05);
    t.step(16, &mut if_);
    assert_eq!(t.read_tima(), 1);
    assert_eq!(if_ & TIMER, 0);
    t.step(16 * 10, &mut if_);
    assert_eq!(t.read_tima(), 11);
}

#[test]
fn timer_overflow_reloads_and_interrupts() {
    let mut t = Timer::default();
    let mut if_ = 0u8;
    t.write_tma(0xF0);
    t.write_tima(0xFF);
    t.write_tac(0x05);
    t.step(16, &mut if_);
    assert_eq!(t.read_tima(), 0xF0);
    assert_eq!(if_ & TIMER, TIMER);
}

#[test]
fn div_counts_and_resets() {
    let mut t = Timer::default();
    let mut if_ = 0u8;
    t.step(512, &mut if_);
    assert_eq!(t.read_div(), 2);
    t.write_div();
    assert_eq!(t.read_div(), 0);
    assert_eq!(t.read_tac(), 0xF8);
}

#[test]
fn apu_powered_off_reads() {
    let mut apu = Apu::default();
    assert_eq!(apu.read(0xFF26), 0);
    assert_eq!(apu.read(0xFF11), 0xFF);
    assert_eq!(apu.read(0xFF30), 0xFF);
    apu.write(0xFF24, 0x77);
    apu.write(0xFF26, 0x80);
    assert_eq!(apu.read(0xFF26), 0x80);
    assert_eq!(apu.read(0xFF24), 0x88);
    apu.write(0xFF30, 0xAB);
    assert_eq!(apu.read(0xFF30), 0xAB);
}

#[test]
fn ppu_reaches_vblank() {
    let mut ppu = Ppu::default();
    let mut if_ = 0u8;
    for _ in 0..144 {
        ppu.step(456, &mut if_);
    }
    assert_eq!(ppu.ly, 144);
    assert_eq!(if_ & VBLANK, VBLANK);
    ppu.step(4, &mut if_);
    assert_eq!(ppu.mode, 1);
}

#[test]
fn frame_runs_and_returns_to_line_zero() {
    let mut rom = vec![0u8; 0x8000];
    rom[0x100] = 0x18;
    rom[0x101] = 0xFE;
    let mut gb = GameBoy::from_rom(rom, None).expect("loads");
    gb.run_frame();
    assert_eq!(gb.cpu.regs.pc, 0x100);
    assert_eq!(FRAME_T_CYCLES, 70224);
    assert_eq!(gb.serial_output(), "");
}

#[test]
fn button_press_requests_joypad_interrupt() {
    let mut gb = GameBoy::from_rom(vec![0u8; 0x8000], None).expect("loads");
    gb.bus.interrupts.if_ = 0;
    set_button(true, &mut gb, BTN_START);
    assert_eq!(gb.bus.interrupts.if_ & JOYPAD, JOYPAD);
    gb.bus.write(0xFF00, 0x10);
    assert_eq!(gb.bus.read(0xFF00) & 0x0F, 0x07);
    set_button(false, &mut gb, BTN_START);
    assert_eq!(gb.bus.read(0xFF00) & 0x0F, 0x0F);
}

#[test]
fn ppu_position_follows_the_clock() {
    let mut ppu = Ppu::default();
    let mut if_ = 0x04u8;
    ppu.step(1000, &mut if_);
    assert_eq!(ppu.ly as u32 * 456 + ppu.dot, 1000);
    assert_eq!(if_ & 0x04, 0x04);
    assert_eq!(if_ & VBLANK, 0);
    ppu.step(70224, &mut if_);
    assert_eq!(ppu.ly as u32 * 456 + ppu.dot, 1000);
    assert_eq!(if_ & VBLANK, VBLANK);
    assert_eq!(if_ & 0xFC, 0x04);
}

#[test]
fn ppu_counts_one_hblank_start_per_visible_line() {
    let mut ppu = Ppu::default();
    let mut if_ = 0u8;
    ppu.step(300, &mut if_);
    assert_eq!(ppu.take_hblank_dma_edges(), 1);
    ppu.step(70224, &mut if_);
    assert_eq!(ppu.take_hblank_dma_edges(), 144);
    ppu.step(456 * 10, &mut if_);
    assert_eq!(ppu.take_hblank_dma_edges(), 10);
}
