//! The engine's pseudo-random number generator, seeded from the configuration
//! so that runs can be reproduced.
use vstd::prelude::*;

verus! {

/// The value of bytes read least significant first.
pub open spec fn le_value(b: Seq<u8>) -> int
    decreases b.len(),
{
    if b.len() == 0 {
        0
    } else {
        b[0] as int + 256 * le_value(b.drop_first())
    }
}

/// Relies on rand_core::le::read_u64_into: word `i` of `dst` is read from bytes
/// `8 * i` to `8 * i + 8` of `src`, least significant first. It panics unless
/// `src` holds eight bytes per word, which the array lengths settle here.
#[verifier::external_body]
fn read_seed_words(src: &[u8; 32], dst: &mut [u64; 4])
    ensures
        forall|i: int|
            0 <= i < 4 ==> #[trigger] final(dst)@[i] as int == le_value(src@.subrange(8 * i, 8 * i + 8)),
{
    rand_core::le::read_u64_into(&src[..], &mut dst[..]);
}

pub const GOLDEN_GAMMA: u64 = 0x9E37_79B9_7F4A_7C15;

pub open spec fn wrap(x: int) -> u64 {
    (x % 0x1_0000_0000_0000_0000) as u64
}

/// The output that the generator derives from its state.
pub open spec fn mix(z: u64) -> u64 {
    let a = wrap((z ^ (z >> 30u64)) * 0xBF58_476D_1CE4_E5B9);
    let b = wrap((a ^ (a >> 27u64)) * 0x94D0_49BB_1331_11EB);
    b ^ (b >> 31u64)
}

/// The state that `seed` gives: its four little-endian words folded together.
pub open spec fn seeded_state(seed: [u8; 32]) -> u64 {
    (wrap(le_value(seed@.subrange(0, 8))) ^ wrap(le_value(seed@.subrange(8, 16)))) ^ (wrap(
        le_value(seed@.subrange(16, 24)),
    ) ^ wrap(le_value(seed@.subrange(24, 32))))
}

/// A SplitMix64 generator.
#[derive(Clone, Copy, Debug)]
pub struct Rng {
    state: u64,
}

impl Rng {
    pub closed spec fn state_spec(&self) -> u64 {
        self.state
    }

    /// A generator whose state folds the four little-endian words of `seed`
    /// together.
    pub fn from_seed(seed: [u8; 32]) -> (r: Rng)
        ensures
            r.state_spec() == seeded_state(seed),
    {
        let mut words: [u64; 4] = [0u64; 4];
        read_seed_words(&seed, &mut words);
        proof {
            assert forall|i: int| 0 <= i < 4 implies #[trigger] words@[i] == wrap(
                le_value(seed@.subrange(8 * i, 8 * i + 8)),
            ) by {
                assert(words@[i] as int == le_value(seed@.subrange(8 * i, 8 * i + 8)));
            }
            assert(words@[0] == wrap(le_value(seed@.subrange(0, 8))));
            assert(words@[1] == wrap(le_value(seed@.subrange(8, 16))));
            assert(words@[2] == wrap(le_value(seed@.subrange(16, 24))));
            assert(words@[3] == wrap(le_value(seed@.subrange(24, 32))));
        }
        Rng { state: (words[0] ^ words[1]) ^ (words[2] ^ words[3]) }
    }

    /// Steps the state by the golden gamma and returns the mixed new state.
    pub fn next_u64(&mut self) -> (r: u64)
        ensures
            final(self).state_spec() == wrap(old(self).state_spec() + GOLDEN_GAMMA),
            r == mix(final(self).state_spec()),
    {
        self.state = self.state.wrapping_add(GOLDEN_GAMMA);
        let z = self.state;
        let a = (z ^ (z >> 30u64)).wrapping_mul(0xBF58_476D_1CE4_E5B9u64);
        let b = (a ^ (a >> 27u64)).wrapping_mul(0x94D0_49BB_1331_11EBu64);
        b ^ (b >> 31u64)
    }
}

} // verus!
