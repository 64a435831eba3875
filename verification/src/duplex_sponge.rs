//! A duplex sponge over the Keccak-f[1600] permutation, in overwrite mode:
//! absorbed bytes replace the bytes of the rate part of the state, squeezed
//! bytes are read from it, and the permutation runs whenever the rate part is
//! used up or the direction changes.

use vstd::prelude::*;

verus! {

/// Number of bytes of the state that absorbing writes and squeezing reads.
pub const RATE: usize = 136;

/// Number of 64-bit lanes of the state.
pub const LANES: usize = 25;

/// The Keccak-f[1600] permutation of a state of 25 lanes.
pub uninterp spec fn keccak_f1600(lanes: Seq<u64>) -> Seq<u64>;

/// `keccak::f1600` replaces the state by its image under the permutation.
#[verifier::external_body]
fn permute(state: &mut [u64; 25])
    ensures
        final(state)@ == keccak_f1600(old(state)@),
{
    keccak::f1600(state)
}

/// Byte `k` of a lane, the least significant being byte 0.
pub open spec fn lane_byte(lane: u64, k: u64) -> u8 {
    ((lane >> (8 * k)) & 0xff) as u8
}

/// The lane with byte `k` replaced by `b`.
pub open spec fn lane_with_byte(lane: u64, k: u64, b: u8) -> u64 {
    (lane & !(0xffu64 << (8 * k))) | ((b as u64) << (8 * k))
}

/// Byte `i` of the state: the lanes in order, each least significant byte
/// first.
pub open spec fn state_byte(lanes: Seq<u64>, i: int) -> u8 {
    lane_byte(lanes[i / 8], (i % 8) as u64)
}

/// The state with byte `i` replaced by `b`.
pub open spec fn state_with_byte(lanes: Seq<u64>, i: int, b: u8) -> Seq<u64> {
    lanes.update(i / 8, lane_with_byte(lanes[i / 8], (i % 8) as u64, b))
}

/// The mathematical state of the sponge.
pub struct SpongeModel {
    /// The 25 lanes.
    pub lanes: Seq<u64>,
    /// Where the next absorbed byte goes; `RATE` when the permutation must
    /// run first.
    pub absorb_index: nat,
    /// Where the next squeezed byte comes from; `RATE` when the permutation
    /// must run first.
    pub squeeze_index: nat,
}

impl SpongeModel {
    /// The sponge that has absorbed nothing: a zero state.
    pub open spec fn fresh() -> SpongeModel {
        SpongeModel {
            lanes: Seq::new(LANES as nat, |i: int| 0u64),
            absorb_index: 0,
            squeeze_index: RATE as nat,
        }
    }

    /// The sponge after one byte has been absorbed.
    pub open spec fn absorb_byte(self, b: u8) -> SpongeModel {
        if self.absorb_index == RATE {
            SpongeModel {
                lanes: state_with_byte(keccak_f1600(self.lanes), 0, b),
                absorb_index: 1,
                squeeze_index: RATE as nat,
            }
        } else {
            SpongeModel {
                lanes: state_with_byte(self.lanes, self.absorb_index as int, b),
                absorb_index: self.absorb_index + 1,
                squeeze_index: RATE as nat,
            }
        }
    }

    /// The sponge after the first `n` of the bytes have been absorbed, in
    /// order.
    pub open spec fn absorb_prefix(self, bytes: Seq<u8>, n: nat) -> SpongeModel
        decreases n,
    {
        if n == 0 {
            self
        } else {
            self.absorb_prefix(bytes, (n - 1) as nat).absorb_byte(bytes[n - 1])
        }
    }

    /// The sponge after the bytes have been absorbed, in order.
    pub open spec fn absorb(self, bytes: Seq<u8>) -> SpongeModel {
        self.absorb_prefix(bytes, bytes.len())
    }

    /// The sponge after one byte has been squeezed, and that byte.
    pub open spec fn squeeze_byte(self) -> (SpongeModel, u8) {
        if self.squeeze_index == RATE {
            let lanes = keccak_f1600(self.lanes);
            (
                SpongeModel { lanes, absorb_index: RATE as nat, squeeze_index: 1 },
                state_byte(lanes, 0),
            )
        } else {
            (
                SpongeModel {
                    lanes: self.lanes,
                    absorb_index: RATE as nat,
                    squeeze_index: self.squeeze_index + 1,
                },
                state_byte(self.lanes, self.squeeze_index as int),
            )
        }
    }

    /// The sponge after `n` bytes have been squeezed, and those bytes.
    pub open spec fn squeeze(self, n: nat) -> (SpongeModel, Seq<u8>)
        decreases n,
    {
        if n == 0 {
            (self, Seq::empty())
        } else {
            let (before, out) = self.squeeze((n - 1) as nat);
            let (after, b) = before.squeeze_byte();
            (after, out.push(b))
        }
    }

    /// The model of a sponge that can exist.
    pub open spec fn wf(self) -> bool {
        &&& self.lanes.len() == LANES
        &&& self.absorb_index <= RATE
        &&& self.squeeze_index <= RATE
    }
}

/// Absorbing two byte strings in turn is absorbing their concatenation.
pub proof fn lemma_absorb_concat(sponge: SpongeModel, first: Seq<u8>, second: Seq<u8>)
    ensures
        sponge.absorb(first).absorb(second) == sponge.absorb(first + second),
{
    lemma_absorb_concat_prefix(sponge, first, second, second.len());
    assert((first + second).len() == first.len() + second.len());
}

/// Absorbing the first string and then a prefix of the second is absorbing
/// the corresponding prefix of their concatenation.
proof fn lemma_absorb_concat_prefix(sponge: SpongeModel, first: Seq<u8>, second: Seq<u8>, n: nat)
    requires
        n <= second.len(),
    ensures
        sponge.absorb(first).absorb_prefix(second, n) == sponge.absorb_prefix(
            first + second,
            first.len() + n,
        ),
    decreases n,
{
    if n == 0 {
        lemma_absorb_prefix_agrees(sponge, first, first + second, first.len());
    } else {
        lemma_absorb_concat_prefix(sponge, first, second, (n - 1) as nat);
        assert((first + second)[first.len() + n - 1] == second[n - 1]);
    }
}

/// Absorbing a prefix depends on that prefix only.
pub proof fn lemma_absorb_prefix_agrees(sponge: SpongeModel, a: Seq<u8>, b: Seq<u8>, n: nat)
    requires
        n <= a.len(),
        n <= b.len(),
        forall|i: int| 0 <= i < n ==> a[i] == b[i],
    ensures
        sponge.absorb_prefix(a, n) == sponge.absorb_prefix(b, n),
    decreases n,
{
    if n > 0 {
        lemma_absorb_prefix_agrees(sponge, a, b, (n - 1) as nat);
    }
}

/// A duplex sponge over Keccak-f[1600].
#[derive(Clone, Copy, Debug)]
pub struct KeccakDuplexSponge {
    state: [u64; 25],
    absorb_index: usize,
    squeeze_index: usize,
}

impl View for KeccakDuplexSponge {
    type V = SpongeModel;

    /// The lanes and the two positions.
    closed spec fn view(&self) -> SpongeModel {
        SpongeModel {
            lanes: self.state@,
            absorb_index: self.absorb_index as nat,
            squeeze_index: self.squeeze_index as nat,
        }
    }
}

impl KeccakDuplexSponge {
    /// Both positions stay within the rate part of the state.
    #[verifier::type_invariant]
    pub closed spec fn inv(self) -> bool {
        self.absorb_index <= RATE && self.squeeze_index <= RATE
    }

    /// The sponge that has absorbed the initialization vector and nothing
    /// else.
    pub fn new(iv: &[u8]) -> (sponge: KeccakDuplexSponge)
        ensures
            sponge@ == SpongeModel::fresh().absorb(iv@),
    {
        let mut sponge = KeccakDuplexSponge {
            state: [0u64;25],
            absorb_index: 0,
            squeeze_index: RATE,
        };
        assert(sponge@.lanes =~= SpongeModel::fresh().lanes);
        sponge.absorb(iv);
        sponge
    }

    /// Absorbs the bytes, in order.
    pub fn absorb(&mut self, input: &[u8])
        ensures
            final(self)@ == old(self)@.absorb(input@),
    {
        let mut i: usize = 0;
        while i < input.len()
            invariant
                i <= input@.len(),
                self@ == old(self)@.absorb_prefix(input@, i as nat),
            decreases input@.len() - i,
        {
            proof {
                use_type_invariant(&*self);
            }
            if self.absorb_index == RATE {
                let mut lanes = self.state;
                permute(&mut lanes);
                self.state = lanes;
                self.absorb_index = 0;
            }
            let at = self.absorb_index;
            let lane = self.state[at / 8];
            let shift: u64 = 8 * ((at % 8) as u64);
            self.state[at / 8] = (lane & !(0xffu64 << shift)) | ((input[i] as u64) << shift);
            self.absorb_index = at + 1;
            self.squeeze_index = RATE;
            i += 1;
        }
    }

    /// Squeezes `length` bytes.
    pub fn squeeze(&mut self, length: usize) -> (out: Vec<u8>)
        ensures
            final(self)@ == old(self)@.squeeze(length as nat).0,
            out@ == old(self)@.squeeze(length as nat).1,
            out@.len() == length,
    {
        let mut out: Vec<u8> = Vec::new();
        let mut i: usize = 0;
        while i < length
            invariant
                i <= length,
                self@ == old(self)@.squeeze(i as nat).0,
                out@ == old(self)@.squeeze(i as nat).1,
                out@.len() == i,
            decreases length - i,
        {
            proof {
                use_type_invariant(&*self);
            }
            if self.squeeze_index == RATE {
                let mut lanes = self.state;
                permute(&mut lanes);
                self.state = lanes;
                self.squeeze_index = 0;
            }
            let at = self.squeeze_index;
            let lane = self.state[at / 8];
            let shift: u64 = 8 * ((at % 8) as u64);
            out.push(((lane >> shift) & 0xff) as u8);
            self.squeeze_index = at + 1;
            self.absorb_index = RATE;
            i += 1;
        }
        out
    }
}

} // verus!
