//! Staging buffers for machine code and a cache of instruction templates
//! whose 4-byte marker can be patched with a runtime value.
pub mod bytes;
pub mod buffer;
pub mod cache;
pub mod entry;
pub mod error;
pub mod machina;
pub mod memory;
pub mod optimized_cache;
