//! The codec of the Fiat-Shamir transform: it absorbs the prover's messages
//! into a duplex sponge and squeezes the verifier's challenge out of it.

use vstd::prelude::*;

use crate::duplex_sponge::{KeccakDuplexSponge, SpongeModel};
use crate::field::{wide_reduction, Scalar, WIDE_LEN};

verus! {

/// The challenge that a sponge in the given state gives: 64 squeezed bytes,
/// read as a little-endian integer and reduced modulo the group order.
pub open spec fn challenge_of(sponge: SpongeModel) -> nat {
    wide_reduction(sponge.squeeze(WIDE_LEN as nat).1)
}

/// A codec over bytes: messages are absorbed as they are, and a challenge is
/// a scalar.
#[derive(Clone, Copy, Debug)]
pub struct ByteSchnorrCodec {
    sponge: KeccakDuplexSponge,
}

impl View for ByteSchnorrCodec {
    type V = SpongeModel;

    /// The state of the sponge.
    closed spec fn view(&self) -> SpongeModel {
        self.sponge@
    }
}

impl ByteSchnorrCodec {
    /// The codec that has absorbed the initialization vector and nothing
    /// else.
    pub fn new(iv: &[u8]) -> (codec: ByteSchnorrCodec)
        ensures
            codec@ == SpongeModel::fresh().absorb(iv@),
    {
        ByteSchnorrCodec { sponge: KeccakDuplexSponge::new(iv) }
    }

    /// Absorbs a message of the prover.
    pub fn prover_message(&mut self, data: &[u8]) -> (codec: &mut ByteSchnorrCodec)
        ensures
            codec@ == old(self)@.absorb(data@),
            *final(self) == *final(codec),
    {
        self.sponge.absorb(data);
        self
    }

    /// Squeezes the verifier's challenge.
    pub fn verifier_challenge(&mut self) -> (challenge: Scalar)
        ensures
            challenge@ == challenge_of(old(self)@),
            final(self)@ == old(self)@.squeeze(WIDE_LEN as nat).0,
    {
        let bytes = self.sponge.squeeze(WIDE_LEN);
        let mut wide = [0u8;64];
        let mut i: usize = 0;
        while i < 64
            invariant
                i <= 64,
                bytes@.len() == 64,
                forall|k: int| 0 <= k < i ==> wide@[k] == bytes@[k],
            decreases 64 - i,
        {
            wide[i] = bytes[i];
            i += 1;
        }
        assert(wide@ =~= bytes@);
        Scalar::from_bytes_wide(&wide)
    }
}

} // verus!
