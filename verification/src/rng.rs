//! Where random bytes come from.

use rand::rngs::OsRng;
use rand::{RngCore, TryRngCore};
use vstd::prelude::*;

verus! {

/// The byte strings that were drawn from a source, in their order.
pub type Draws = Seq<Seq<u8>>;

/// A source of random bytes.
///
/// Nothing is promised of the bytes: every function that draws some holds for
/// any bytes that may come. What was drawn is recorded, so that a contract can
/// say which draw went where.
pub trait RandomSource {
    /// What was drawn so far.
    spec fn drawn(&self) -> Draws;

    /// Draws `N` bytes.
    fn bytes<const N: usize>(&mut self) -> (r: [u8; N])
        ensures
            final(self).drawn() == old(self).drawn().push(r@),
    ;
}

/// The operating system's generator.
pub struct SystemRandom {
    history: Ghost<Draws>,
}

impl SystemRandom {
    /// The generator, with nothing drawn yet.
    pub fn new() -> (r: Self)
        ensures
            r.drawn() == Draws::empty(),
    {
        SystemRandom { history: Ghost(Seq::empty()) }
    }
}

impl RandomSource for SystemRandom {
    closed spec fn drawn(&self) -> Draws {
        self.history@
    }

    fn bytes<const N: usize>(&mut self) -> (r: [u8; N]) {
        let r = os_random::<N>();
        self.history = Ghost(self.history@.push(r@));
        r
    }
}

/// Fills an array by `rand::rngs::OsRng`, which takes its bytes from the
/// operating system. Nothing is claimed of them.
#[verifier::external_body]
pub(crate) fn os_random<const N: usize>() -> (r: [u8; N]) {
    let mut out = [0u8; N];
    OsRng.unwrap_err().fill_bytes(&mut out);
    out
}

} // verus!
