//! The placeholder configuration a contract template ships with, and the
//! metadata snapshot a compiled contract exposes.

use vstd::prelude::*;

use crate::locator::Placeholder;

verus! {

/// The ordered placeholder table of one contract template: a protocol name
/// and the placeholders in declaration order.
pub struct PlaceholderConfig {
    pub protocol_name: String,
    pub placeholders: Vec<Placeholder>,
}

impl PlaceholderConfig {
    /// Every configured sentinel pattern has at least one byte.
    pub open spec fn wf(&self) -> bool {
        forall|k: int|
            0 <= k < self.placeholders@.len() ==> (#[trigger] self.placeholders@[k]).pattern@.len()
                >= 1
    }
}

/// A read-only snapshot of a compiled contract: its protocol name and its
/// final bytes.
pub struct Metadata {
    pub protocol_name: String,
    pub contract: Vec<u8>,
}

} // verus!
