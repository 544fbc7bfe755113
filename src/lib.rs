//! Interrupt-handling and console-output core of a small x86_64 kernel:
//! a pixel framebuffer text console, the keyboard decoding glue and the
//! hardware interrupt line numbering.

pub mod font;
pub mod interrupts;
pub mod keyboard;
pub mod writer;

pub use writer::printx;
