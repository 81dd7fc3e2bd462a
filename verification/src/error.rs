//! The failures that raster assembly and encoding can report.

use vstd::prelude::*;
use vstd::string::StringExecFns;

verus! {

/// Why a raster could not be configured or written.
///
/// Every variant carries the human-readable detail of the failure. A failure
/// reported by the raster I/O collaborator is held as the text it gave.
#[derive(Debug)]
pub enum GeoTiffError {
    /// The raster I/O collaborator refused an operation.
    Gdal(String),
    /// A width, height or band count of zero.
    InvalidDimensions(String),
    /// A setting without which no raster can be built.
    MissingField(String),
    /// An argument that does not have the expected shape.
    InvalidParameter(String),
}

/// The result of an operation that can fail with a [`GeoTiffError`].
pub type Result<T> = core::result::Result<T, GeoTiffError>;

impl GeoTiffError {
    /// The text this error was created with.
    pub open spec fn detail(&self) -> Seq<char> {
        match self {
            GeoTiffError::Gdal(s) => s@,
            GeoTiffError::InvalidDimensions(s) => s@,
            GeoTiffError::MissingField(s) => s@,
            GeoTiffError::InvalidParameter(s) => s@,
        }
    }

    /// The words that introduce the detail when the error is shown.
    pub open spec fn heading(&self) -> Seq<char> {
        match self {
            GeoTiffError::Gdal(_) => "GDAL error: "@,
            GeoTiffError::InvalidDimensions(_) => "Invalid dimensions: "@,
            GeoTiffError::MissingField(_) => "Missing required field: "@,
            GeoTiffError::InvalidParameter(_) => "Invalid parameter: "@,
        }
    }

    /// The error as one line of text: its heading followed by its detail.
    pub fn message(&self) -> (text: String)
        ensures
            text@ == self.heading() + self.detail(),
    {
        match self {
            GeoTiffError::Gdal(s) => String::from_str("GDAL error: ").concat(s.as_str()),
            GeoTiffError::InvalidDimensions(s) => String::from_str("Invalid dimensions: ").concat(
                s.as_str(),
            ),
            GeoTiffError::MissingField(s) => String::from_str("Missing required field: ").concat(
                s.as_str(),
            ),
            GeoTiffError::InvalidParameter(s) => String::from_str("Invalid parameter: ").concat(
                s.as_str(),
            ),
        }
    }
}

} // verus!
