//! Remote telemetry extraction engine for a running game process.
//!
//! The engine locates a target process, resolves its module base address,
//! walks a fixed chain of pointers inside its address space, and decodes a
//! fixed binary schema into a structured statistics record, all under a
//! connect/poll/reconnect lifecycle.
//!
//! The raw operating-system primitives that touch another process live
//! outside this crate; everything here works on plain values. Memory is
//! modelled by [`memory::MemSnapshot`], an address-keyed collection of byte
//! regions, so the decoder and the lifecycle driver are verified against an
//! explicit model of the target's address space.

pub mod memory;
pub mod decode;
pub mod driver;
pub mod resolve;
pub mod stats;
