//! Key generation and signing parameters shared by every session of a group.

use vstd::prelude::*;

verus! {

/// Parameters used during key generation.
///
/// A group of `parties` clients holds key shares; any `threshold + 1`
/// of them can co-operate to sign.
#[derive(Debug, Clone, Copy, PartialEq, Eq, Structural)]
pub struct Parameters {
    /// Number of parties `n`.
    pub parties: u16,
    /// Threshold for signing `t`.
    ///
    /// The threshold must be crossed (`t + 1`) for signing to commence.
    pub threshold: u16,
}

impl Parameters {
    /// Parameters are acceptable when at least two parties take part,
    /// at least one co-signer is required, and the threshold leaves
    /// room for `t + 1` signers among the `n` parties.
    pub open spec fn valid(self) -> bool {
        self.parties >= 2 && self.threshold >= 1 && self.threshold < self.parties
    }
}

impl Default for Parameters {
    /// Three parties with a threshold of one.
    fn default() -> (r: Self)
        ensures
            r.parties == 3,
            r.threshold == 1,
    {
        Parameters { parties: 3, threshold: 1 }
    }
}

} // verus!
