//! The pseudo-random generator that sampling draws from: a PCG32 generator
//! whose state the library holds as plain values, stepped by `oorandom`.
use oorandom::Rand32;
use vstd::prelude::*;

verus! {

/// What one step of `oorandom`'s PCG32 generator gives from `(state, inc)`:
/// the 32-bit output and the next state. It depends on these values alone.
pub uninterp spec fn pcg_step(state: u64, inc: u64) -> (u32, u64);

/// The `(state, inc)` pair of `oorandom`'s PCG32 generator seeded with `seed`.
pub uninterp spec fn pcg_seed(seed: u64) -> (u64, u64);

/// Relies on `oorandom::Rand32::rand_u32`, run on a generator rebuilt from
/// `(state, inc)` by `Rand32::from_state`: its output and its next state,
/// read back by `Rand32::state`. The increment does not change.
#[verifier::external_body]
fn pcg_next(state: u64, inc: u64) -> (r: (u32, u64))
    ensures
        r == pcg_step(state, inc),
{
    let mut rng = Rand32::from_state((state, inc));
    let out = rng.rand_u32();
    (out, rng.state().0)
}

/// Relies on `oorandom::Rand32::new`: the state of a generator seeded with
/// `seed`, read by `Rand32::state`.
#[verifier::external_body]
fn pcg_seeded(seed: u64) -> (r: (u64, u64))
    ensures
        r == pcg_seed(seed),
{
    Rand32::new(seed).state()
}

/// A PCG32 generator's state; equal states give equal draws.
#[derive(Clone, Copy, Debug, PartialEq, Eq, Structural)]
pub struct Rng {
    pub state: u64,
    pub inc: u64,
}

impl Rng {
    pub open spec fn spec_new(seed: u64) -> Rng {
        Rng { state: pcg_seed(seed).0, inc: pcg_seed(seed).1 }
    }

    /// The next output and the generator after it.
    pub open spec fn spec_next(self) -> (u32, Rng) {
        (pcg_step(self.state, self.inc).0, Rng { state: pcg_step(self.state, self.inc).1, inc: self.inc })
    }

    /// The generator seeded with `seed`, as `oorandom::Rand32::new` seeds it.
    pub fn new(seed: u64) -> (r: Rng)
        ensures
            r == Rng::spec_new(seed),
    {
        let (state, inc) = pcg_seeded(seed);
        Rng { state, inc }
    }

    /// Draws the next 32-bit output.
    pub fn rand_u32(&mut self) -> (r: u32)
        ensures
            (r, *final(self)) == old(self).spec_next(),
    {
        let (out, next) = pcg_next(self.state, self.inc);
        self.state = next;
        out
    }
}

} // verus!
