//! Chain-level identities: the Bitcoin network a wallet targets and the
//! master-key fingerprint that names a signing key.

use vstd::prelude::*;

verus! {

/// The network a wallet (or a network-locked device) targets.
#[derive(Clone, Copy, Debug, PartialEq, Eq, Structural)]
pub enum Network {
    Bitcoin,
    Testnet,
    Signet,
    Regtest,
}

/// A master-key fingerprint: the fixed-size (four byte) identifier derived
/// from a device's master public key, carried here as one 32-bit value. It is
/// the durable identity of a signing key across reconnections, and the join
/// key between a connected device and a wallet's registered keys.
#[derive(Clone, Copy, Debug, PartialEq, Eq, Structural)]
pub struct Fingerprint {
    pub value: u32,
}

impl Fingerprint {
    pub fn new(value: u32) -> (r: Fingerprint)
        ensures
            r == (Fingerprint { value }),
    {
        Fingerprint { value }
    }
}

} // verus!
