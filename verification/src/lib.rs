//! Core of a low-overhead sampling CPU profiler.
//!
//! On each sampling trigger the core reconstructs the call stack of the
//! sampled process from a compact, table-driven call-frame-information
//! representation, and aggregates repeated stacks into frequency counts.
//! Every control path is statically bounded: no allocation while sampling,
//! no unbounded loops, no panics.
//!
//! The pieces, leaves first:
//! - [`memory`]: a fallible read of 8 bytes from a snapshot of process memory;
//! - [`instruction`]: the three primitive unwind operations and their
//!   evaluation;
//! - [`table`]: the sorted unwind table, its bounded binary search, and the
//!   frame resolver that steps from one frame to its caller;
//! - [`walker`]: the depth-bounded walk that turns one register snapshot into
//!   a fixed-length sequence of program counters;
//! - [`filter`]: the single-slot allow-list that picks the table-driven or
//!   the fallback attribution path;
//! - [`aggregate`]: the fixed-capacity store mapping a stack identity to a
//!   64-bit count;
//! - [`sampler`]: the per-trigger entry point tying the pieces together.

pub mod aggregate;
pub mod filter;
pub mod instruction;
pub mod memory;
pub mod sampler;
pub mod table;
pub mod walker;
