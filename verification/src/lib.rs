//! Control core of a single-processor monolithic kernel, with verified logic.
//!
//! The crate owns the decision-making parts of the kernel: the physical frame
//! allocator, the virtual-memory mapping model, the interrupt-controller
//! remapping rules and exception diagnostics, the round-robin task scheduler,
//! and the shell's parser and built-in commands. Everything here is plain
//! computation on plain values; the surrounding hardware work (port I/O,
//! descriptor-table loads, the framebuffer, the boot handshake) lives outside
//! the library and hands values in and out.

pub mod builtins;
pub mod interrupts;
pub mod keyboard;
pub mod numfmt;
pub mod paging;
pub mod parser;
pub mod physical;
pub mod scheduler;
pub mod shell;
pub mod task;
pub mod text;
pub mod timer;
