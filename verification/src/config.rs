//! Fixed parameters of the emulator.
use vstd::prelude::*;

verus! {

/// Default size of the guest stack in bytes (8 MiB).
pub const STACK_SIZE: usize = 0x00800000;

/// Guest address one past the highest byte of the stack.
pub const STACK_TOP: u64 = 0x8000_0000;

/// Number of instructions between two polls of the debug connection.
pub const POLL_INTERVAL: usize = 1024;

/// Default TCP endpoint number of the debug server.
pub const GDB_PORT: u16 = 3777;

/// Bad address, as an errno value.
pub const EFAULT: u8 = 14;

/// Size of a guest page in bytes.
pub const PAGE_SIZE: u64 = 4096;

} // verus!
