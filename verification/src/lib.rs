//! A verified executable-image loader for a pre-operating-system boot
//! environment: it parses an image's header and segment table from a byte
//! stream, materializes the loadable segments into a page-granular memory
//! region, and decides the one-way handoff into the loaded code.
//!
//! All firmware interaction (file reads, physical allocation, terminating
//! boot services, the final jump) is the surrounding program's business; this
//! crate holds the logic those steps depend on, with proofs.

pub mod errors;
pub mod handoff;
pub mod image;
pub mod loader;

use vstd::prelude::*;

verus! {

} // verus!
