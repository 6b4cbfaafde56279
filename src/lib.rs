//! Boot-time hardware bootstrap layer of a small x86_64 kernel: segment and
//! interrupt descriptor tables, the legacy interrupt controller's programming,
//! a bitmap physical frame allocator and a spin-wait lock, with the pieces
//! around them: the keyboard's scan-code buffer, the serial port and text
//! console, the heap's backing memory and the shell's command parser.
//!
//! Everything here computes; port I/O, table loads and memory-mapped writes
//! are left to the caller, which performs what these functions return.
use vstd::prelude::*;

pub mod limine;
pub mod frame_allocator;
pub mod spinlock;
pub mod gdt;
pub mod idt;
pub mod ring_buffer;
pub mod keyboard;
pub mod pic;
pub mod heap;
pub mod shell;
pub mod interrupts;
pub mod serial;
pub mod vga;
