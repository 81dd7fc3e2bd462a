//! Sample generators: pure functions from a pixel coordinate and a band to
//! a binary64 sample.

use crate::binary64::{
    from_nat, from_u128, lemma_from_nat_represents, lemma_nearest_small,
    lemma_represents_saturates, nearest, represents,
};
use crate::conversions::ConvertFromF64;
use vstd::prelude::*;

verus! {

/// A rule that assigns a sample to every pixel of every band.
///
/// The sample is a binary64 number, given by its encoding. A generator is a
/// pure function: what `generate` returns depends on the generator and the
/// coordinate alone, which `sample` states. The default body of `sample` is
/// a function of the generator and the coordinate of which nothing else is
/// known; an implementation that wants its samples known to callers gives
/// its own.
pub trait DataGenerator: Send + Sync {
    /// The encoding of the sample at column `x`, row `y` of band `band`.
    open spec fn sample(&self, x: usize, y: usize, band: usize) -> u64 {
        arbitrary::<spec_fn(&Self, usize, usize, usize) -> u64>()(self, x, y, band)
    }

    /// Computes the sample at column `x`, row `y` of band `band`.
    fn generate(&self, x: usize, y: usize, band: usize) -> (bits: u64)
        ensures
            bits == self.sample(x, y, band),
    ;
}

impl<G: DataGenerator + ?Sized> DataGenerator for Box<G> {
    open spec fn sample(&self, x: usize, y: usize, band: usize) -> u64 {
        (**self).sample(x, y, band)
    }

    fn generate(&self, x: usize, y: usize, band: usize) -> (bits: u64) {
        (**self).generate(x, y, band)
    }
}

/// A diagonal gradient: the sample is the sum of column, row and band.
pub struct GradientPattern;

/// An interference pattern of sine and cosine waves over column, row and band.
///
/// Its samples are `(sin(x / 50) + cos(y / 50) + sin(band * pi / 4)) * 128 + 128`.
/// This type only names the pattern: the trigonometry is not integer
/// arithmetic, so the samples are computed by the program that uses it.
pub struct SineWavePattern;

/// A noise-like pattern that is a fixed function of column, row and band.
///
/// Its samples are `sin(x * 12.9898 + y * 78.233 + band * 37.719) * 43758.5453`.
/// This type only names the pattern: the trigonometry is not integer
/// arithmetic, so the samples are computed by the program that uses it.
pub struct NoisePattern;

impl DataGenerator for GradientPattern {
    /// The binary64 number nearest to `x + y + band`.
    open spec fn sample(&self, x: usize, y: usize, band: usize) -> u64 {
        from_nat((x + y + band) as nat)
    }

    fn generate(&self, x: usize, y: usize, band: usize) -> (bits: u64) {
        from_u128(x as u128 + y as u128 + band as u128)
    }
}

/// Inside a grid of positive extents, the gradient's sample at `(x, y, band)`
/// is exactly `x + y + band`, wherever binary64 can hold that sum.
pub proof fn lemma_gradient_is_coordinate_sum(
    width: usize,
    height: usize,
    band_count: usize,
    x: usize,
    y: usize,
    band: usize,
)
    requires
        0 < width,
        0 < height,
        0 < band_count,
        x < width,
        y < height,
        band < band_count,
        nearest((x + y + band) as nat) == x + y + band,
    ensures
        represents(GradientPattern.sample(x, y, band), x + y + band),
{
    lemma_from_nat_represents((x + y + band) as nat);
}

/// An eight-bit pixel of the gradient is the coordinate sum itself, as long
/// as the sum fits eight bits.
pub proof fn lemma_gradient_byte(x: usize, y: usize, band: usize)
    requires
        x + y + band <= 0xff,
    ensures
        <u8 as ConvertFromF64>::converted(GradientPattern.sample(x, y, band)) == x + y + band,
{
    let sum = (x + y + band) as nat;
    lemma_nearest_small(sum);
    lemma_from_nat_represents(sum);
    lemma_represents_saturates(from_nat(sum), sum as int, 0, 0xff);
}

} // verus!
