//! Offline analyser for RISC-V syscall trace streams: record decoding,
//! per-thread pairing of entries and exits, signal framing, clone handoff
//! and rendering.

use vstd::prelude::*;

pub mod analysis;
pub mod event;
pub mod flow;
pub mod names;
pub mod render;
pub mod sysno;

verus! {

} // verus!
