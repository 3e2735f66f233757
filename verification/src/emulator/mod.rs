//! The emulated USB3 Vision device: its register memory and the decisions of
//! its modules.

pub mod abrm;
pub mod device;
pub mod memory;
pub mod stream_module;
