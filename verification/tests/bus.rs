use pocketemulator::bus::Bus;
use pocketemulator::cartridge::{from_rom, Cartridge};
use pocketemulator::joypad::DIR_RIGHT;

fn rom_only() -> Vec<u8> {
    vec![0u8; 0x8000]
}

fn bus_for(rom: Vec<u8>) -> Bus {
    Bus::new(from_rom(rom).expect("cartridge"))
}

#[test]
fn wram_echo_mirrors_work_ram() {
    let mut bus = bus_for(rom_only());
    bus.write(0xC123, 0x5A);
    assert_eq!(bus.read(0xE123), 0x5A);
    bus.write(0xFDFF, 0x77);
    assert_eq!(bus.read(0xDDFF), 0x77);
}

#[test]
fn high_ram_reads_back() {
    let mut bus = bus_for(rom_only());
    bus.write(0xFF90, 7);
    bus.write(0xFF91, 8);
    assert_eq!(bus.read(0xFF90), 7);
    assert_eq!(bus.read(0xFF91), 8);
}

#[test]
fn div_write_resets() {
    let mut bus = bus_for(rom_only());
    bus.timer.counter = 0x1234;
    assert_eq!(bus.read(0xFF04), 0x12);
    bus.write(0xFF04, 0x99);
    assert_eq!(bus.read(0xFF04), 0);
}

#[test]
fn interrupt_registers_masks() {
    let mut bus = bus_for(rom_only());
    bus.write(0xFFFF, 0xFF);
    assert_eq!(bus.read(0xFFFF), 0x1F);
    bus.write(0xFF0F, 0x21);
    assert_eq!(bus.read(0xFF0F), 0xE1);
}

#[test]
fn serial_transfer_prints_and_requests_interrupt() {
    let mut bus = bus_for(rom_only());
    bus.write(0xFF01, b'O');
    bus.write(0xFF02, 0x81);
    bus.write(0xFF01, b'K');
    bus.write(0xFF02, 0x81);
    assert_eq!(bus.serial.take_output(), "OK");
    assert_eq!(bus.interrupts.if_ & 0x08, 0x08);
    assert_eq!(bus.read(0xFF02), 0x7F);
}

#[test]
fn serial_link_exchanges_bytes() {
    let mut bus = bus_for(rom_only());
    bus.serial.attach_link();
    bus.serial.receive_link_byte(0x42);
    bus.write(0xFF01, 0x10);
    bus.write(0xFF02, 0x81);
    assert_eq!(bus.read(0xFF01), 0x42);
    bus.write(0xFF02, 0x81);
    assert_eq!(bus.read(0xFF01), 0xFF);
    assert_eq!(bus.serial.take_link_outbox(), vec![0x10, 0x42]);
}

#[test]
fn oam_dma_copies_a_page() {
    let mut bus = bus_for(rom_only());
    for i in 0..0xA0u16 {
        bus.write(0xC000 + i, i as u8);
    }
    bus.write(0xFF46, 0xC0);
    for i in 0..0xA0usize {
        assert_eq!(bus.ppu.oam[i], i as u8);
    }
    assert_eq!(bus.read(0xFF46), 0xC0);
}

#[test]
fn joypad_rows() {
    let mut bus = bus_for(rom_only());
    bus.write(0xFF00, 0x20);
    bus.joypad.set_direction_down(DIR_RIGHT, &mut bus.interrupts.if_);
    assert_eq!(bus.read(0xFF00), 0xEE);
    assert_eq!(bus.interrupts.if_ & 0x10, 0x10);
    bus.joypad.set_direction_up(DIR_RIGHT);
    assert_eq!(bus.read(0xFF00), 0xEF);
}

#[test]
fn unusable_area_reads_zero_and_io_gaps_ff() {
    let mut bus = bus_for(rom_only());
    assert_eq!(bus.read(0xFEA0), 0);
    assert_eq!(bus.read(0xFF4C), 0xFF);
    assert_eq!(bus.read(0xFF4D), 0xFF);
}

#[test]
fn mbc1_external_ram_reads_back_when_enabled() {
    let mut rom = vec![0u8; 0x8000];
    rom[0x147] = 0x03;
    rom[0x149] = 0x02;
    let mut bus = bus_for(rom);
    bus.write(0xA000, 0x42);
    assert_eq!(bus.read(0xA000), 0xFF);
    bus.write(0x0000, 0x0A);
    bus.write(0xA000, 0x42);
    assert_eq!(bus.read(0xA000), 0x42);
    bus.write(0x0000, 0x00);
    assert_eq!(bus.read(0xA000), 0xFF);
}

#[test]
fn mbc1_rom_bank_switching() {
    let mut rom = vec![0u8; 0x10000];
    for b in 0..4usize {
        rom[b * 0x4000 + 0x10] = b as u8;
    }
    rom[0x147] = 0x01;
    rom[0x148] = 0x01;
    let mut bus = bus_for(rom);
    assert_eq!(bus.read(0x4010), 1);
    bus.write(0x2000, 2);
    assert_eq!(bus.read(0x4010), 2);
    bus.write(0x2000, 0);
    assert_eq!(bus.read(0x4010), 1);
    assert_eq!(bus.read(0x0010), 0);
}

#[test]
fn cgb_wram_banks() {
    let mut rom = vec![0u8; 0x8000];
    rom[0x143] = 0x80;
    let mut bus = bus_for(rom);
    assert!(bus.cgb_mode);
    bus.write(0xD000, 1);
    bus.write(0xFF70, 2);
    bus.write(0xD000, 2);
    assert_eq!(bus.read(0xD000), 2);
    bus.write(0xFF70, 0);
    assert_eq!(bus.read(0xD000), 1);
    assert_eq!(bus.read(0xFF70), 0xF8);
}

#[test]
fn cgb_general_purpose_vram_dma() {
    let mut rom = vec![0u8; 0x8000];
    rom[0x143] = 0xC0;
    let mut bus = bus_for(rom);
    for i in 0..0x20u16 {
        bus.write(0xC000 + i, 0x80 + i as u8);
    }
    bus.write(0xFF51, 0xC0);
    bus.write(0xFF52, 0x00);
    bus.write(0xFF53, 0x00);
    bus.write(0xFF54, 0x10);
    bus.write(0xFF55, 0x01);
    assert_eq!(bus.ppu.vram[0x10], 0x80);
    assert_eq!(bus.ppu.vram[0x2F], 0x9F);
    assert!(bus.gdma_stall_active());
    assert_eq!(bus.consume_gdma_stall(100), 64);
    assert!(!bus.gdma_stall_active());
}

#[test]
fn cgb_hblank_dma_steps() {
    let mut rom = vec![0u8; 0x8000];
    rom[0x143] = 0xC0;
    let mut bus = bus_for(rom);
    for i in 0..0x20u16 {
        bus.write(0xC000 + i, 1 + i as u8);
    }
    bus.write(0xFF51, 0xC0);
    bus.write(0xFF52, 0x00);
    bus.write(0xFF53, 0x00);
    bus.write(0xFF54, 0x00);
    bus.write(0xFF55, 0x81);
    assert_eq!(bus.read(0xFF55), 0x01);
    bus.hdma_hblank_step();
    assert_eq!(bus.ppu.vram[0x0F], 16);
    assert_eq!(bus.ppu.vram[0x10], 0);
    assert_eq!(bus.read(0xFF55), 0x00);
    bus.hdma_hblank_step();
    assert_eq!(bus.ppu.vram[0x1F], 32);
    assert_eq!(bus.read(0xFF55), 0xFF);
}

#[test]
fn cgb_speed_switch() {
    let mut rom = vec![0u8; 0x8000];
    rom[0x143] = 0x80;
    let mut bus = bus_for(rom);
    bus.write(0xFF4D, 0x01);
    assert_eq!(bus.read(0xFF4D), 0x7F);
    bus.cgb_stop_speed_switch();
    assert!(bus.double_speed);
    assert_eq!(bus.read(0xFF4D), 0xFE);
}

#[test]
fn cartridge_enum_reads_rom() {
    let mut rom = vec![0u8; 0x8000];
    rom[0x200] = 0xAB;
    let c: Cartridge = from_rom(rom).expect("cartridge");
    assert_eq!(c.read_rom(0x200), 0xAB);
    assert!(!c.battery_backed());
}

#[test]
fn ram_keeps_write_across_other_writes() {
    let mut rom = vec![0u8; 0x8000];
    rom[0x143] = 0x80;
    let mut bus = bus_for(rom);
    bus.write(0xD123, 0x42);
    bus.write(0xFF70, 0);
    bus.write(0xD124, 0x01);
    bus.write(0xC123, 0x02);
    bus.write(0xFF70, 1);
    bus.write(0xFF44, 0x99);
    bus.write(0xFF85, 0x10);
    assert_eq!(bus.read(0xD123), 0x42);
    assert_eq!(bus.read(0xF123), 0x42);
    assert_eq!(bus.read(0xFF85), 0x10);
    assert_eq!(bus.read(0xFF44), 0);
    bus.write(0xFF0F, 0xFF);
    assert_eq!(bus.read(0xFF0F), 0xFF);
    bus.write(0xFF0F, 0x21);
    assert_eq!(bus.read(0xFF0F), 0xE1);
}

#[test]
fn banked_wram_keeps_write_while_bank_stays() {
    let mut rom = vec![0u8; 0x8000];
    rom[0x143] = 0x80;
    let mut bus = bus_for(rom);
    bus.write(0xFF70, 3);
    bus.write(0xD010, 0x33);
    bus.write(0xD011, 0x44);
    bus.write(0xC010, 0x55);
    bus.write(0xFF70, 0x0B);
    bus.write(0xFF90, 0x66);
    assert_eq!(bus.read(0xD010), 0x33);
    assert_eq!(bus.read(0xF010), 0x33);
    bus.write(0xFF70, 4);
    assert_ne!(bus.read(0xD010), 0x33);
    bus.write(0xFF70, 3);
    assert_eq!(bus.read(0xD010), 0x33);
}

#[test]
fn short_banked_rom_serves_reads_inside_its_image() {
    let mut rom = vec![0u8; 0x200];
    rom[0x147] = 0x01;
    rom[0x1FF] = 0x42;
    let mut bus = bus_for(rom);
    assert_eq!(bus.read(0x1FF), 0x42);
    bus.write(0xC000, 0x17);
    assert_eq!(bus.read(0xC000), 0x17);
}
