//! A verified emulator for a 16-bit instruction-set computer.
//!
//! The crate models a small machine: eight general-purpose registers, a
//! program counter, a three-valued condition flag, and a 65536-word memory
//! with two addresses mapped to a polled keyboard device. Programs are
//! loaded from a word image whose first word names the origin address, and
//! are executed by a fetch-decode-execute cycle covering all sixteen
//! opcodes, including a trap dispatcher for character I/O and halting.
//!
//! Host input is modelled as a queue of pending key bytes and host output
//! as a byte buffer, so the whole cycle is a deterministic, verified
//! transition on the machine state. An interactive front end feeds keys in
//! and drains output between steps.
pub mod bits;
pub mod isa;
pub mod registers;
pub mod vm;
