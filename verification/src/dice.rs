//! Random draws. A generator is a seed and a position in the stream that the
//! seed stands for, so that equal generators draw equal values.
use rand::{Rng, RngExt, SeedableRng};
use rand_chacha::ChaCha8Rng;
use vstd::prelude::*;

verus! {

/// A position in the stream of a seed.
#[derive(Debug, Clone, Copy, PartialEq, Eq, Structural)]
pub struct Dice {
    pub seed: u64,
    /// The position, in 32-bit words.
    pub word_pos: u128,
}

/// What `random_range(0..n)` draws from the stream of `seed` at `word_pos`,
/// and the position after the draw.
pub uninterp spec fn chacha8_below(seed: u64, word_pos: u128, n: usize) -> (usize, u128);

/// What `random_ratio` draws from the stream of `seed` at `word_pos`, and the
/// position after the draw.
pub uninterp spec fn chacha8_ratio(seed: u64, word_pos: u128, numerator: u32, denominator: u32) -> (bool, u128);

/// The `len` bytes that `fill_bytes` reads from the stream of `seed` at
/// `word_pos`, and the position after them.
pub uninterp spec fn chacha8_bytes(seed: u64, word_pos: u128, len: usize) -> (Seq<u8>, u128);

/// Calls `rand::RngExt::random_range` on the range from zero to `n`, on a
/// `ChaCha8Rng` seeded by `seed_from_u64` and set to `word_pos`. The draw lies
/// in the range and, like the position after it, depends on the seed, the
/// position and the range alone. An empty range would panic.
#[verifier::external_body]
fn random_below(seed: u64, word_pos: u128, n: usize) -> (drawn: (usize, u128))
    requires
        n > 0,
    ensures
        drawn == chacha8_below(seed, word_pos, n),
        drawn.0 < n,
{
    let mut rng = ChaCha8Rng::seed_from_u64(seed);
    rng.set_word_pos(word_pos);
    let value: usize = rng.random_range(0..n);
    (value, rng.get_word_pos())
}

/// Calls `rand::RngExt::random_ratio` on a `ChaCha8Rng` seeded by
/// `seed_from_u64` and set to `word_pos`. The draw and the position after it
/// depend on the seed, the position and the ratio alone. What has no chance
/// never happens, and what is certain always does. A ratio that is none would
/// panic.
#[verifier::external_body]
fn random_ratio(seed: u64, word_pos: u128, numerator: u32, denominator: u32) -> (drawn: (bool, u128))
    requires
        numerator <= denominator,
        denominator > 0,
    ensures
        drawn == chacha8_ratio(seed, word_pos, numerator, denominator),
        numerator == 0 ==> !drawn.0,
        numerator == denominator ==> drawn.0,
{
    let mut rng = ChaCha8Rng::seed_from_u64(seed);
    rng.set_word_pos(word_pos);
    let value: bool = rng.random_ratio(numerator, denominator);
    (value, rng.get_word_pos())
}

/// Calls `rand::Rng::fill_bytes` on a `ChaCha8Rng` seeded by `seed_from_u64`
/// and set to `word_pos`. It fills the whole buffer; the bytes and the
/// position after them depend on the seed, the position and the length alone.
#[verifier::external_body]
fn fill_bytes(seed: u64, word_pos: u128, len: usize) -> (drawn: (Vec<u8>, u128))
    ensures
        drawn.0@ == chacha8_bytes(seed, word_pos, len).0,
        drawn.1 == chacha8_bytes(seed, word_pos, len).1,
        drawn.0@.len() == len,
{
    let mut rng = ChaCha8Rng::seed_from_u64(seed);
    rng.set_word_pos(word_pos);
    let mut bytes: Vec<u8> = vec![0; len];
    rng.fill_bytes(&mut bytes);
    (bytes, rng.get_word_pos())
}

impl Dice {
    /// The generator at the start of the stream of a seed.
    pub open spec fn seeded(seed: u64) -> Dice {
        Dice { seed, word_pos: 0 }
    }

    /// The next draw of a number below `n`.
    pub open spec fn below_of(self, n: usize) -> usize {
        chacha8_below(self.seed, self.word_pos, n).0
    }

    /// The generator after that draw.
    pub open spec fn after_below(self, n: usize) -> Dice {
        Dice { word_pos: chacha8_below(self.seed, self.word_pos, n).1, ..self }
    }

    /// The next toss of a coin.
    pub open spec fn toss_of(self) -> bool {
        chacha8_ratio(self.seed, self.word_pos, 1, 2).0
    }

    /// The generator after that toss.
    pub open spec fn after_toss(self) -> Dice {
        Dice { word_pos: chacha8_ratio(self.seed, self.word_pos, 1, 2).1, ..self }
    }

    /// The next `len` bytes.
    pub open spec fn bytes_of(self, len: usize) -> Seq<u8> {
        chacha8_bytes(self.seed, self.word_pos, len).0
    }

    /// The generator after those bytes.
    pub open spec fn after_bytes(self, len: usize) -> Dice {
        Dice { word_pos: chacha8_bytes(self.seed, self.word_pos, len).1, ..self }
    }

    /// A generator at the start of the stream of a seed.
    pub fn new(seed: u64) -> (d: Self)
        ensures
            d == Dice::seeded(seed),
    {
        Dice { seed, word_pos: 0 }
    }

    /// Draws a number below `n`.
    pub fn below(&mut self, n: usize) -> (value: usize)
        requires
            n > 0,
        ensures
            value == old(self).below_of(n),
            value < n,
            *final(self) == old(self).after_below(n),
    {
        let (value, next): (usize, u128) = random_below(self.seed, self.word_pos, n);
        self.word_pos = next;
        value
    }

    /// Tosses a coin.
    pub fn toss(&mut self) -> (heads: bool)
        ensures
            heads == old(self).toss_of(),
            *final(self) == old(self).after_toss(),
    {
        let (heads, next): (bool, u128) = random_ratio(self.seed, self.word_pos, 1, 2);
        self.word_pos = next;
        heads
    }

    /// Draws `len` bytes.
    pub fn bytes(&mut self, len: usize) -> (drawn: Vec<u8>)
        ensures
            drawn@ == old(self).bytes_of(len),
            drawn@.len() == len,
            *final(self) == old(self).after_bytes(len),
    {
        let (drawn, next): (Vec<u8>, u128) = fill_bytes(self.seed, self.word_pos, len);
        self.word_pos = next;
        drawn
    }
}

} // verus!
