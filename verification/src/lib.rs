//! A userland emulator for statically linked RV64I programs.
//!
//! The crate is organised around four parts: the guest memory manager, the
//! ELF64 loader, the hart with its instruction decoders, and the controller
//! that drives free-running and debugged execution.
pub mod config;
pub mod debug;
pub mod elf;
pub mod emulator;
pub mod error;
pub mod front;
pub mod guest;
pub mod hart;
pub mod hostmem;
pub mod insn;
pub mod log;
pub mod state;
pub mod syscall;
pub mod utils;

pub use error::Error;
pub use log::Level;
pub use insn::InsnSet;
pub use syscall::{Minilib, Newlib, SyscallHandler};
