//! The network identity of the local sandbox.

use vstd::prelude::*;

verus! {

/// The human-readable passphrase from which the sandbox's 32-byte network
/// identifier is derived.
pub const SANDBOX_NETWORK_PASSPHRASE: &'static str = "Local Sandbox Stellar Network ; September 2022";

} // verus!
