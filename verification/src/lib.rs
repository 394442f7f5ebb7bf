//! Verified core of the elysium launcher: the pieces of its memory, linking,
//! disassembly and command-line logic that compute on plain values.

pub mod assembly;
pub mod command_line;
pub mod console;
pub mod console_macro;
pub mod dismal;
pub mod framework;
pub mod link;
pub mod maps;
pub mod mem;
pub mod modules;
pub mod paths;
pub mod pattern;
pub mod ptr;
pub mod ranges;
pub mod sdl;
pub mod text;
pub mod tier0;
pub mod traits;
