//! Dynamic linking: the errors the dynamic loader reports, and the modules
//! loaded into the process.

pub mod address;
pub mod error;
pub mod ffi;
pub mod module;
