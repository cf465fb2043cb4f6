//! Game Boy (DMG / CGB) emulator core.

pub mod bits;
pub mod clock;
pub mod cpu;
pub mod text;
pub mod cartridge;
pub mod interrupts;
pub mod joypad;
pub mod ppu;
pub mod apu;
pub mod timer;
pub mod serial;
pub mod bus;
pub mod gameboy;
pub mod platform;
pub mod theme;
pub mod cheats;
pub mod cli;
pub mod controls;
pub mod downloads;
pub mod framefx;
pub mod hud;
pub mod host;
pub mod launcher;
pub mod library;
pub mod session;
pub mod regression;
