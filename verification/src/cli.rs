//! Command-line options of the emulator binary.

use vstd::prelude::*;

verus! {

/// `std::path::PathBuf`, carried through as an opaque value.
#[verifier::external_type_specification]
#[verifier::external_body]
pub struct ExPathBuf(std::path::PathBuf);

/// Options: a ROM to run, the window scale, and the modes that replace the window.
#[derive(Debug)]
pub struct Args {
    /// Path to a ROM (`.gb` or `.gbc`).
    pub rom: Option<std::path::PathBuf>,
    /// Window scale (integer).
    pub scale: Option<u32>,
    /// Print the cartridge header and exit.
    pub info: bool,
    /// Show the launcher even when a ROM path is given.
    pub menu: bool,
    /// ROM directory for the launcher.
    pub rom_dir: Option<std::path::PathBuf>,
    /// Disable periodic autosave.
    pub no_autosave: bool,
    /// Build a release binary and copy it to ./dist.
    pub package: bool,
    /// Run the compatibility suite.
    pub regression: bool,
    /// ROM directory for the compatibility suite.
    pub regression_dir: Option<std::path::PathBuf>,
}

/// A save file found next to a ROM, as the launcher lists it.
#[derive(Debug, Clone)]
pub struct SaveFileSummary {
    pub rom_path: String,
    pub rom_name: String,
    pub save_path: String,
    pub kind: String,
    pub size_bytes: u64,
    pub modified_unix_secs: Option<u64>,
}

} // verus!
