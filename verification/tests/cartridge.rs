use pocketemulator::cartridge::{
    from_rom, CartridgeError, CartridgeType, CgbSupport, Header, HeaderError,
};
use pocketemulator::gameboy::GameBoy;

fn header_rom(title: &[u8], ctype: u8) -> Vec<u8> {
    let mut rom = vec![0u8; 0x8000];
    rom[0x134..0x134 + title.len()].copy_from_slice(title);
    rom[0x147] = ctype;
    rom
}

#[test]
fn header_too_small() {
    assert_eq!(Header::parse(&[0u8; 0x14F]).unwrap_err(), HeaderError::TooSmall);
    assert!(matches!(from_rom(vec![0u8; 0x10]), Err(CartridgeError::Header(HeaderError::TooSmall))));
}

#[test]
fn header_fields() {
    let mut rom = header_rom(b"TETRIS", 0x01);
    rom[0x143] = 0xC0;
    rom[0x148] = 0x02;
    rom[0x149] = 0x03;
    rom[0x14E] = 0x12;
    rom[0x14F] = 0x34;
    let h = Header::parse(&rom).expect("header");
    assert_eq!(h.title, "TETRIS");
    assert_eq!(h.cgb_support, CgbSupport::GbcOnly);
    assert_eq!(h.cartridge_type, CartridgeType::Mbc1);
    assert_eq!(h.rom_banks, 8);
    assert_eq!(h.ram_size_bytes, 32768);
    assert_eq!(h.global_checksum, 0x1234);
}

#[test]
fn header_checksum() {
    // 25 zero bytes: 0 - 25 * 1 leaves 0xE7 as the expected checksum byte.
    let mut rom = header_rom(b"", 0x00);
    assert!(!Header::parse(&rom).unwrap().header_checksum_ok);
    rom[0x14D] = 0xE7;
    assert!(Header::parse(&rom).unwrap().header_checksum_ok);
    rom[0x14C] = 0xE7;
    assert!(!Header::parse(&rom).unwrap().header_checksum_ok);
    rom[0x14D] = 0x00;
    assert!(Header::parse(&rom).unwrap().header_checksum_ok);
}

#[test]
fn title_is_trimmed_and_lossy() {
    let rom = header_rom(b"  AB\xFF ", 0x00);
    assert_eq!(Header::parse(&rom).unwrap().title, "AB\u{FFFD}");
}

#[test]
fn cartridge_types() {
    assert_eq!(CartridgeType::from_byte(0x13), CartridgeType::Mbc3RamBattery);
    assert_eq!(CartridgeType::from_byte(0xFC), CartridgeType::Unknown(0xFC));
    assert!(CartridgeType::Mbc5RumbleRamBattery.has_battery());
    assert!(!CartridgeType::Mbc1.has_ram());
    assert_eq!(CgbSupport::from_header_byte(0x80), CgbSupport::Dual);
    assert_eq!(CgbSupport::from_header_byte(0x00), CgbSupport::NoCgb);
}

#[test]
fn unsupported_cartridge_type() {
    let rom = header_rom(b"", 0xFC);
    assert!(matches!(
        from_rom(rom),
        Err(CartridgeError::UnsupportedType(CartridgeType::Unknown(0xFC)))
    ));
}

#[test]
fn battery_ram_snapshot_and_reload() {
    let mut rom = header_rom(b"", 0x1B);
    rom[0x149] = 0x02;
    let save: Vec<u8> = (0..16u8).collect();
    let mut gb = GameBoy::from_rom(rom, Some(save.clone())).expect("loads");
    let snap = gb.save_data().expect("battery RAM");
    assert_eq!(snap.len(), 0x2000);
    assert_eq!(&snap[..16], &save[..]);
    assert_eq!(snap[16], 0);
    gb.load_cartridge_ram_snapshot(&[9, 9]);
    assert_eq!(&gb.cartridge_ram_snapshot().unwrap()[..3], &[9, 9, 2]);
}

#[test]
fn short_banked_rom_loads() {
    let rom = vec![0u8; 0x150];
    let mut banked = rom.clone();
    banked[0x147] = 0x01;
    assert!(GameBoy::from_rom(rom, None).is_ok());
    let gb = GameBoy::from_rom(banked, None).expect("a short banked image loads");
    assert!(!gb.bus.cartridge.is_rom_only());
    assert_eq!(gb.bus.cartridge.rom_len(), 0x150);
}

#[test]
fn header_error_messages() {
    assert!(!HeaderError::TooSmall.message().is_empty());
    assert_eq!(CartridgeType::Mbc1.as_str(), CartridgeType::Mbc1.as_str());
}

#[test]
fn cartridge_type_names_match_flags() {
    let mut names: Vec<&str> = Vec::new();
    for b in 0..=255u8 {
        let t = CartridgeType::from_byte(b);
        let name = t.as_str();
        assert_eq!(name.contains("BATTERY"), t.has_battery());
        if name.contains("RAM") {
            assert!(t.has_ram());
        }
        let unknown = matches!(t, CartridgeType::Unknown(_));
        assert_eq!(name == "Unknown MBC", unknown);
        if !unknown {
            assert!(!names.contains(&name));
            names.push(name);
        }
    }
    assert_eq!(names.len(), 17);
}
