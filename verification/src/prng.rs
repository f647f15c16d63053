//! The interpreter's pseudo-random number generator.
//!
//! A deterministic 64-bit xorshift generator: the whole behaviour is a
//! function of the seed, so every draw is pinned down exactly by the
//! contracts. Reseeding with `None` restores the fixed default seed.

use vstd::prelude::*;

verus! {

/// Seed used when none is supplied.
pub const DEFAULT_SEED: u64 = 5489;

/// Observable generator state: the seed it was created with and the
/// current internal word.
#[derive(Clone, Copy, Debug, PartialEq, Eq, Structural)]
pub struct InternalState {
    pub seed: u64,
    pub state: u64,
}

/// One xorshift step of the internal word.
pub open spec fn spec_next(s: u64) -> u64 {
    let a = s ^ (s << 13);
    let b = a ^ (a >> 7);
    b ^ (b << 17)
}

/// Internal word after `n` steps from `s`.
pub open spec fn spec_state_after(s: u64, n: nat) -> u64
    decreases n,
{
    if n == 0 {
        s
    } else {
        spec_state_after(spec_next(s), (n - 1) as nat)
    }
}

/// The byte stream drawn by `n` successive steps from `s`.
pub open spec fn spec_byte_stream(s: u64, n: nat) -> Seq<u8>
    decreases n,
{
    if n == 0 {
        Seq::empty()
    } else {
        seq![(spec_next(s) % 256) as u8] + spec_byte_stream(spec_next(s), (n - 1) as nat)
    }
}

/// The value drawn by `rand_int` from internal word `s` with bound `max`.
pub open spec fn spec_rand_int(s: u64, max: i64) -> i64
    recommends
        max > 0,
{
    ((spec_next(s) % (max as u64)) as i64)
}

/// Pseudo-random number generator owned by the interpreter state.
pub struct Prng {
    /// Seed the generator was created with.
    pub seed: u64,
    /// Current internal word.
    pub state: u64,
}

impl Prng {
    /// A generator seeded with [`DEFAULT_SEED`].
    pub fn new() -> (r: Self)
        ensures
            r.seed == DEFAULT_SEED,
            r.state == DEFAULT_SEED,
    {
        Prng { seed: DEFAULT_SEED, state: DEFAULT_SEED }
    }

    /// A generator seeded with `seed`, or with [`DEFAULT_SEED`] when
    /// `seed` is `None`.
    pub fn from_seed(seed: Option<u64>) -> (r: Self)
        ensures
            r.seed == (match seed {
                Option::Some(s) => s,
                Option::None => DEFAULT_SEED,
            }),
            r.state == r.seed,
    {
        match seed {
            Option::Some(s) => Prng { seed: s, state: s },
            Option::None => Prng { seed: DEFAULT_SEED, state: DEFAULT_SEED },
        }
    }

    /// The seed this generator was created with.
    pub fn seed(&self) -> (r: u64)
        ensures
            r == self.seed,
    {
        self.seed
    }

    /// Replace the generator with a fresh one seeded by `new_seed`.
    pub fn reseed(&mut self, new_seed: Option<u64>)
        ensures
            final(self).seed == (match new_seed {
                Option::Some(s) => s,
                Option::None => DEFAULT_SEED,
            }),
            final(self).state == final(self).seed,
    {
        *self = Prng::from_seed(new_seed);
    }

    /// The observable internal state.
    pub fn internal_state(&self) -> (r: InternalState)
        ensures
            r == (InternalState { seed: self.seed, state: self.state }),
    {
        InternalState { seed: self.seed, state: self.state }
    }

    /// Advance one step and return the new internal word.
    pub fn step(&mut self) -> (r: u64)
        ensures
            final(self).seed == old(self).seed,
            final(self).state == spec_next(old(self).state),
            r == final(self).state,
    {
        let s = self.state;
        let a = s ^ (s << 13u64);
        let b = a ^ (a >> 7u64);
        let c = b ^ (b << 17u64);
        self.state = c;
        c
    }

    /// Overwrite `buf` with the next `buf.len()` bytes of the stream.
    pub fn bytes(&mut self, buf: &mut Vec<u8>)
        ensures
            final(self).seed == old(self).seed,
            final(self).state == spec_state_after(old(self).state, old(buf)@.len() as nat),
            final(buf)@ == spec_byte_stream(old(self).state, old(buf)@.len() as nat),
            final(buf)@.len() == old(buf)@.len(),
    {
        let n = buf.len();
        let mut out: Vec<u8> = Vec::new();
        let mut i: usize = 0;
        while i < n
            invariant
                i <= n,
                self.seed == old(self).seed,
                self.state == spec_state_after(old(self).state, i as nat),
                out@ == spec_byte_stream(old(self).state, i as nat),
                out@.len() == i,
            decreases n - i,
        {
            proof {
                lemma_stream_snoc(old(self).state, i as nat);
            }
            let w = self.step();
            out.push((w % 256) as u8);
            i = i + 1;
        }
        *buf = out;
    }

    /// Draw a value in `0 .. max`.
    pub fn rand_int(&mut self, max: i64) -> (r: i64)
        requires
            max > 0,
        ensures
            final(self).seed == old(self).seed,
            final(self).state == spec_next(old(self).state),
            r == spec_rand_int(old(self).state, max),
            0 <= r < max,
    {
        let w = self.step();
        let m = max as u64;
        let r = (w % m) as i64;
        proof {
            assert(w % m < m) by {
                assert(m > 0);
            }
        }
        r
    }
}

/// Appending one step to a byte stream extends it by the next byte.
proof fn lemma_stream_snoc(s: u64, n: nat)
    ensures
        spec_byte_stream(s, n + 1) == spec_byte_stream(s, n).push(
            (spec_next(spec_state_after(s, n)) % 256) as u8,
        ),
        spec_state_after(s, n + 1) == spec_next(spec_state_after(s, n)),
    decreases n,
{
    let b = (spec_next(spec_state_after(s, n)) % 256) as u8;
    if n == 0 {
        assert(spec_state_after(s, 0) == s);
        assert(spec_state_after(s, 1) == spec_next(s)) by {
            assert(spec_state_after(spec_next(s), 0) == spec_next(s));
        }
        assert(spec_byte_stream(s, 1) == seq![(spec_next(s) % 256) as u8] + spec_byte_stream(
            spec_next(s),
            0,
        ));
        assert(spec_byte_stream(spec_next(s), 0) =~= Seq::<u8>::empty());
        assert(spec_byte_stream(s, 1) =~= spec_byte_stream(s, 0).push(b));
    } else {
        lemma_stream_snoc(spec_next(s), (n - 1) as nat);
        assert(spec_byte_stream(s, n + 1) == seq![(spec_next(s) % 256) as u8] + spec_byte_stream(
            spec_next(s),
            n,
        ));
        assert(spec_byte_stream(s, n + 1) =~= spec_byte_stream(s, n).push(b));
    }
}

} // verus!
