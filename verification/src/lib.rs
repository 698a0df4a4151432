//! Locating and patching fixed-width placeholder regions in compiled
//! contract bytecode.
//!
//! Compiled contract templates carry named sentinel byte patterns that mark
//! where per-instance values (addresses, quantities, timestamps, hashes) are
//! substituted later. This crate finds each sentinel's unique byte range,
//! fails loudly when a sentinel is missing or ambiguous, patches
//! self-referential header fields with lengths computed from the assembled
//! bytes, and reports every placeholder's byte range in declaration order.

pub mod codec;
pub mod config;
pub mod contract;
pub mod error;
pub mod fit;
pub mod hex;
pub mod locator;
pub mod report;

pub use error::Error;
