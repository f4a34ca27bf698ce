//! The firmware-facing core of a pre-boot loader: protocol identifiers, the
//! memory map decoder, file-name and console text encoding for the
//! firmware's fixed-width character form, the text report of the memory
//! map, and the kernel's text-mode screen model.
pub mod console;
pub mod csv;
pub mod file;
pub mod guid;
pub mod memory_map;
pub mod utf16;
pub mod vga;
