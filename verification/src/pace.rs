//! The score of a finished challenge.

use vstd::prelude::*;

verus! {

/// Nanoseconds in a minute.
pub const NANOS_PER_MINUTE: u64 = 60_000_000_000;

/// How a finished challenge went: the number of words typed and the time that
/// it took, in nanoseconds.
#[derive(Clone, Copy, Debug, PartialEq, Eq, Structural)]
pub struct Pace {
    pub words: usize,
    pub nanos: u64,
}

impl Pace {
    /// Words per minute, in hundredths: `words` divided by the minutes that
    /// `nanos` make, times 100, rounded to the nearest whole number (a half
    /// goes up). Meaningful where `nanos` is not 0.
    pub open spec fn hundredths(self) -> nat
        recommends
            self.nanos > 0,
    {
        ((2 * 100 * NANOS_PER_MINUTE * self.words + self.nanos) / (2 * self.nanos)) as nat
    }

    /// Words per minute, in hundredths; `None` where no time has passed, for
    /// then there is no rate to speak of.
    pub fn hundredths_per_minute(&self) -> (rate: Option<u128>)
        ensures
            rate == if self.nanos == 0 {
                None
            } else {
                Some(self.hundredths() as u128)
            },
    {
        if self.nanos == 0 {
            None
        } else {
            let words: u128 = self.words as u128;
            let nanos: u128 = self.nanos as u128;
            let per_word: u128 = 2 * 100 * (NANOS_PER_MINUTE as u128);
            assert(per_word * words <= 12_000_000_000_000 * 0xffff_ffff_ffff_ffff) by (nonlinear_arith)
                requires
                    per_word == 12_000_000_000_000,
                    words <= 0xffff_ffff_ffff_ffff,
            ;
            let twice: u128 = per_word * words;
            Some((twice + nanos) / (2 * nanos))
        }
    }
}

/// The rate is the nearest hundredth: it misses `words` per minute by half a
/// hundredth at most.
pub proof fn lemma_hundredths_is_nearest(pace: Pace)
    requires
        pace.nanos > 0,
    ensures
        -pace.nanos < 2 * pace.nanos * pace.hundredths() - 2 * 100 * NANOS_PER_MINUTE * pace.words
            <= pace.nanos,
{
    let n: int = 2 * 100 * NANOS_PER_MINUTE * pace.words + pace.nanos;
    let d: int = 2 * pace.nanos;
    vstd::arithmetic::div_mod::lemma_fundamental_div_mod(n, d);
    vstd::arithmetic::div_mod::lemma_mod_bound(n, d);
    vstd::arithmetic::div_mod::lemma_div_pos_is_pos(n, d);
    assert(d * (n / d) == 2 * pace.nanos * (n / d)) by (nonlinear_arith)
        requires
            d == 2 * pace.nanos,
    ;
}

} // verus!
