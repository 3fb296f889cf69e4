//! The noise field: a square grid of byte samples backing the planet's
//! surface-height perturbation.
//!
//! The grid itself is produced outside the library (a multi-octave coherent
//! noise generator seeded once); the field here is immutable after
//! construction, so identical queries return identical values for its whole
//! lifetime.  Out-of-range coordinates are a precondition violation.

use vstd::prelude::*;

use crate::world::NOISE_SIZE;

verus! {

/// An immutable square grid of noise samples, one byte per cell, with side
/// [`NOISE_SIZE`], stored row by row.
pub struct Noise {
    samples: Vec<u8>,
}

impl Noise {
    /// The samples as a flat sequence, row by row.
    pub closed spec fn grid(self) -> Seq<u8> {
        self.samples@
    }

    /// The grid holds exactly one sample per cell.
    pub open spec fn wf(self) -> bool {
        self.grid().len() == (NOISE_SIZE as int) * (NOISE_SIZE as int)
    }

    /// The sample at column `x`, row `y`.
    pub open spec fn sample_at(self, x: int, y: int) -> u8 {
        self.grid()[y * (NOISE_SIZE as int) + x]
    }

    /// Wraps a fully generated grid of `NOISE_SIZE * NOISE_SIZE` samples.
    pub fn new(samples: Vec<u8>) -> (r: Noise)
        requires
            samples@.len() == (NOISE_SIZE as int) * (NOISE_SIZE as int),
        ensures
            r.wf(),
            r.grid() == samples@,
    {
        Noise { samples }
    }

    /// Reads the sample at `(x, y)`.
    pub fn get_point(&self, x: u32, y: u32) -> (r: u8)
        requires
            self.wf(),
            x < NOISE_SIZE,
            y < NOISE_SIZE,
        ensures
            r == self.sample_at(x as int, y as int),
    {
        proof {
            assert((y as int) * (NOISE_SIZE as int) + (x as int) < (NOISE_SIZE as int) * (
            NOISE_SIZE as int)) by (nonlinear_arith)
                requires
                    0 <= x < NOISE_SIZE,
                    0 <= y < NOISE_SIZE,
            ;
        }
        let idx: usize = (y as usize) * (NOISE_SIZE as usize) + (x as usize);
        self.samples[idx]
    }
}

} // verus!
