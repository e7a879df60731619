//! Mapping observed peer addresses to routable ones.

use vstd::prelude::*;

verus! {

/// Maps the address a peer was seen at to the address it can be reached at.
pub trait NatAddressProvider {
    /// The routable form of `raw`.
    fn translate(&self, raw: &str) -> String;
}

/// The mapping used when no NAT traversal is configured: every address maps
/// to itself.
#[derive(Debug, Default, Clone, Copy)]
pub struct IdentityNatProvider;

impl NatAddressProvider for IdentityNatProvider {
    fn translate(&self, raw: &str) -> (r: String)
        ensures
            r@ == raw@,
    {
        raw.to_owned()
    }
}

} // verus!
