//! Keep execution engine: the in-keep program loader (frame allocation,
//! address-space construction, ELF segment loading, process stack layout)
//! and the host-side decisions of the keep control loop.

pub mod mem;
pub mod frame;
pub mod paging;
pub mod elf;
pub mod loader;
pub mod aslr;
pub mod stack;
pub mod launch;
pub mod channel;
pub mod keep;
pub mod attestation;
pub mod sign;
pub mod cli;
pub mod cet;

