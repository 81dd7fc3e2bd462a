//! Synthetic multi-band rasters for test fixtures.
//!
//! A raster is configured with [`FakeGeoTiffBuilder`], which yields a
//! [`FakeGeoTiff`]. The raster computes a sample for every pixel of every
//! band with its [`DataGenerator`], narrows each to the pixel type through
//! [`ConvertFromF64`], lays the pixels out band by band, and lists the
//! requests that put them into a GeoTIFF container.
//!
//! Samples and geotransform coefficients are IEEE 754 binary64 numbers. They
//! are carried as their 64-bit encodings, so that every rule about them is
//! stated and proved over integers: [`binary64`] reads the encodings,
//! [`binary32`] narrows them to single precision.
//!
//! The library performs no I/O. What is to be asked of the container
//! library is data ([`encoder::WriteStep`]); [`encoder::WriteSession`] keeps
//! track of a run of such requests and ends it at the first failure.

pub mod binary32;
pub mod binary64;
pub mod conversions;
pub mod encoder;
pub mod error;
pub mod geotiff;
pub mod parameters;
pub mod patterns;

pub use conversions::ConvertFromF64;
pub use error::{GeoTiffError, Result};
pub use geotiff::{FakeGeoTiff, FakeGeoTiffBuilder, GeoTransform};
pub use patterns::{DataGenerator, GradientPattern, NoisePattern, SineWavePattern};
