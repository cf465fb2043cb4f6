# PocketEmulator

A Game Boy (DMG) and Game Boy Color emulator whose core is verified with Verus.

## Layout

- `src/` — the library, every function with a contract checked by Verus:
  - `cpu/` — the SM83 CPU: registers, the ALU and load/store helpers, the CB-prefixed
    instructions and the opcode dispatcher, interrupts and `HALT`/`EI` timing;
  - `bus.rs` — the memory map, I/O registers, OAM DMA and the CGB HDMA engine;
  - `cartridge/` — header parsing and the ROM-only, MBC1, MBC3 (with its clock) and MBC5
    controllers;
  - `ppu/`, `apu.rs`, `timer.rs`, `serial.rs`, `joypad.rs`, `interrupts.rs` — peripherals;
  - `gameboy.rs` — the console: stepping, frames, battery RAM;
  - `session.rs` — what a play session decides: autosave and rewind points, key actions,
    window title and HUD texts;
  - `hud.rs`, `framefx.rs`, `host.rs` — the HUD strip drawn below the picture, the smoothing
    filter, screenshots and key presses;
  - `controls.rs`, `cheats.rs`, `launcher.rs`, `library.rs`, `downloads.rs`, `theme.rs`,
    `platform.rs`, `regression.rs` — key bindings, cheat files, launcher texts, the game
    list's search and sort, the downloads-folder watcher, theme colours, ROM checks and the
    compatibility verdicts;
  - `bits.rs` — mask and shift facts shared by the proofs.
- `tests/` — tests of the library.
- `app/` — the command-line program: argument parsing, files, the UDP link cable, audio
  mixing and a game loop that runs without a window (keys are read as lines on stdin).
