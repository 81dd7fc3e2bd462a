//! Raster configuration: the affine geotransform, the builder that collects
//! and validates the settings, and the configured raster with its pixel
//! buffer.

use crate::binary64::{negate, negated, NEGATIVE_ONE, ONE, ZERO};
use crate::conversions::ConvertFromF64;
use crate::encoder::{step_views, SessionView, StepView, WriteSession, WriteStep};
use crate::error::GeoTiffError;
use crate::patterns::{DataGenerator, GradientPattern};
use core::marker::PhantomData;
use vstd::arithmetic::div_mod::{lemma_div_denominator, lemma_fundamental_div_mod_converse};
use vstd::prelude::*;
use vstd::string::StringExecFns;

verus! {

/// The affine map from pixel space to world space.
///
/// Each coefficient is a binary64 number, given by its encoding. Pixel
/// `(x, y)` lies at world coordinate
/// `(x_min + x * pixel_width + y * rotation_x, y_max + x * rotation_y + y * pixel_height)`.
/// No coefficient is restricted.
#[derive(Debug, Clone, Copy)]
pub struct GeoTransform {
    pub x_min: u64,
    pub pixel_width: u64,
    pub rotation_x: u64,
    pub y_max: u64,
    pub rotation_y: u64,
    pub pixel_height: u64,
}

impl GeoTransform {
    /// The coefficients in the order in which a raster container stores them.
    pub open spec fn coefficients(&self) -> Seq<u64> {
        seq![
            self.x_min,
            self.pixel_width,
            self.rotation_x,
            self.y_max,
            self.rotation_y,
            self.pixel_height,
        ]
    }

    /// The transform of a raster without rotation whose rows run downward:
    /// the upper-left corner at `(x_min, y_max)`, pixels `pixel_width` wide
    /// and `pixel_height` high. The height is stored with its sign flipped.
    pub fn north_up(x_min: u64, y_max: u64, pixel_width: u64, pixel_height: u64) -> (transform:
        Self)
        ensures
            transform == (GeoTransform {
                x_min,
                pixel_width,
                rotation_x: ZERO,
                y_max,
                rotation_y: ZERO,
                pixel_height: negated(pixel_height),
            }),
    {
        GeoTransform {
            x_min,
            pixel_width,
            rotation_x: ZERO,
            y_max,
            rotation_y: ZERO,
            pixel_height: negate(pixel_height),
        }
    }

    /// The origin at `(0, 0)`, pixels one unit wide and one unit high, rows
    /// running downward, no rotation.
    pub open spec fn unit() -> GeoTransform {
        GeoTransform {
            x_min: ZERO,
            pixel_width: ONE,
            rotation_x: ZERO,
            y_max: ZERO,
            rotation_y: ZERO,
            pixel_height: NEGATIVE_ONE,
        }
    }
}

impl Default for GeoTransform {
    fn default() -> (transform: Self)
        ensures
            transform == GeoTransform::unit(),
    {
        GeoTransform {
            x_min: ZERO,
            pixel_width: ONE,
            rotation_x: ZERO,
            y_max: ZERO,
            rotation_y: ZERO,
            pixel_height: NEGATIVE_ONE,
        }
    }
}

impl From<GeoTransform> for [u64; 6] {
    fn from(transform: GeoTransform) -> (coefficients: [u64; 6])
        ensures
            coefficients@ == transform.coefficients(),
    {
        [
            transform.x_min,
            transform.pixel_width,
            transform.rotation_x,
            transform.y_max,
            transform.rotation_y,
            transform.pixel_height,
        ]
    }
}

impl vstd::std_specs::convert::FromSpecImpl<GeoTransform> for [u64; 6] {
    open spec fn obeys_from_spec() -> bool {
        true
    }

    open spec fn from_spec(transform: GeoTransform) -> [u64; 6] {
        [
            transform.x_min,
            transform.pixel_width,
            transform.rotation_x,
            transform.y_max,
            transform.rotation_y,
            transform.pixel_height,
        ]
    }
}

/// What a builder has collected so far.
pub struct BuilderView<G> {
    pub width: usize,
    pub height: usize,
    pub bands: usize,
    pub projection: Option<Seq<char>>,
    pub geotransform: Option<GeoTransform>,
    pub output_path: Option<Seq<char>>,
    pub data_generator: G,
    pub cloud_optimized: bool,
}

/// Collects the settings of a raster, one at a time.
///
/// Extents and band count are checked when they are set, so a builder never
/// holds a zero among them, and it always holds a geotransform: the unit
/// one until another is set. That an output path was given is checked by
/// `build`. A builder starts out with the gradient as its generator, so a
/// raster that was given none gets the gradient.
pub struct FakeGeoTiffBuilder<G: DataGenerator = GradientPattern> {
    width: usize,
    height: usize,
    bands: usize,
    projection: Option<String>,
    geotransform: Option<GeoTransform>,
    output_path: Option<String>,
    data_generator: G,
    cloud_optimized: bool,
}

impl<G: DataGenerator> View for FakeGeoTiffBuilder<G> {
    type V = BuilderView<G>;

    closed spec fn view(&self) -> BuilderView<G> {
        BuilderView {
            width: self.width,
            height: self.height,
            bands: self.bands,
            projection: match self.projection {
                Some(p) => Some(p@),
                None => None,
            },
            geotransform: self.geotransform,
            output_path: match self.output_path {
                Some(p) => Some(p@),
                None => None,
            },
            data_generator: self.data_generator,
            cloud_optimized: self.cloud_optimized,
        }
    }
}

impl Default for FakeGeoTiffBuilder<GradientPattern> {
    fn default() -> (builder: Self)
        ensures
            builder@ == initial_settings(),
    {
        FakeGeoTiffBuilder {
            width: 256,
            height: 256,
            bands: 1,
            projection: None,
            geotransform: Some(GeoTransform::default()),
            output_path: None,
            data_generator: GradientPattern,
            cloud_optimized: false,
        }
    }
}

/// The settings of a fresh builder: one band of 256 by 256 pixels, the unit
/// geotransform, the gradient, no projection, no output path, a plain
/// container.
pub open spec fn initial_settings() -> BuilderView<GradientPattern> {
    BuilderView {
        width: 256,
        height: 256,
        bands: 1,
        projection: None,
        geotransform: Some(GeoTransform::unit()),
        output_path: None,
        data_generator: GradientPattern,
        cloud_optimized: false,
    }
}

impl FakeGeoTiffBuilder<GradientPattern> {
    /// A builder with the initial settings.
    pub fn new() -> (builder: Self)
        ensures
            builder@ == initial_settings(),
    {
        FakeGeoTiffBuilder::default()
    }
}

impl<G: DataGenerator> FakeGeoTiffBuilder<G> {
    #[verifier::type_invariant]
    spec fn well_formed(self) -> bool {
        self.width > 0 && self.height > 0 && self.bands > 0 && self.geotransform is Some
    }

    /// Sets the extents of the pixel grid. Neither may be zero.
    pub fn dimensions(self, width: usize, height: usize) -> (result: Result<Self, GeoTiffError>)
        ensures
            result is Err <==> width == 0 || height == 0,
            result matches Err(e) ==> e is InvalidDimensions
                && e.detail() == "Width and height must be greater than 0"@,
            result matches Ok(builder) ==> builder@ == (BuilderView { width, height, ..self@ }),
    {
        proof {
            use_type_invariant(&self);
        }
        if width == 0 || height == 0 {
            return Err(
                GeoTiffError::InvalidDimensions(
                    String::from_str("Width and height must be greater than 0"),
                ),
            );
        }
        Ok(
            FakeGeoTiffBuilder {
                width,
                height,
                bands: self.bands,
                projection: self.projection,
                geotransform: self.geotransform,
                output_path: self.output_path,
                data_generator: self.data_generator,
                cloud_optimized: self.cloud_optimized,
            },
        )
    }

    /// Sets the number of bands, which may not be zero.
    pub fn bands(self, bands: usize) -> (result: Result<Self, GeoTiffError>)
        ensures
            result is Err <==> bands == 0,
            result matches Err(e) ==> e is InvalidDimensions
                && e.detail() == "Number of bands must be greater than 0"@,
            result matches Ok(builder) ==> builder@ == (BuilderView { bands, ..self@ }),
    {
        proof {
            use_type_invariant(&self);
        }
        if bands == 0 {
            return Err(
                GeoTiffError::InvalidDimensions(
                    String::from_str("Number of bands must be greater than 0"),
                ),
            );
        }
        Ok(
            FakeGeoTiffBuilder {
                width: self.width,
                height: self.height,
                bands,
                projection: self.projection,
                geotransform: self.geotransform,
                output_path: self.output_path,
                data_generator: self.data_generator,
                cloud_optimized: self.cloud_optimized,
            },
        )
    }

    /// Sets the identifier of the coordinate reference system.
    pub fn projection(self, projection: &str) -> (builder: Self)
        ensures
            builder@ == (BuilderView { projection: Some(projection@), ..self@ }),
    {
        proof {
            use_type_invariant(&self);
        }
        FakeGeoTiffBuilder {
            width: self.width,
            height: self.height,
            bands: self.bands,
            projection: Some(String::from_str(projection)),
            geotransform: self.geotransform,
            output_path: self.output_path,
            data_generator: self.data_generator,
            cloud_optimized: self.cloud_optimized,
        }
    }

    /// Sets the geotransform.
    pub fn geotransform(self, transform: GeoTransform) -> (builder: Self)
        ensures
            builder@ == (BuilderView { geotransform: Some(transform), ..self@ }),
    {
        proof {
            use_type_invariant(&self);
        }
        FakeGeoTiffBuilder {
            width: self.width,
            height: self.height,
            bands: self.bands,
            projection: self.projection,
            geotransform: Some(transform),
            output_path: self.output_path,
            data_generator: self.data_generator,
            cloud_optimized: self.cloud_optimized,
        }
    }

    /// Sets the path that the raster will be written to.
    pub fn output_path(self, path: &str) -> (builder: Self)
        ensures
            builder@ == (BuilderView { output_path: Some(path@), ..self@ }),
    {
        proof {
            use_type_invariant(&self);
        }
        FakeGeoTiffBuilder {
            width: self.width,
            height: self.height,
            bands: self.bands,
            projection: self.projection,
            geotransform: self.geotransform,
            output_path: Some(String::from_str(path)),
            data_generator: self.data_generator,
            cloud_optimized: self.cloud_optimized,
        }
    }

    /// Sets the rule that assigns the samples, in place of the one held so
    /// far.
    pub fn data_generator<H: DataGenerator>(self, generator: H) -> (builder: FakeGeoTiffBuilder<H>)
        ensures
            builder@ == (BuilderView {
                width: self@.width,
                height: self@.height,
                bands: self@.bands,
                projection: self@.projection,
                geotransform: self@.geotransform,
                output_path: self@.output_path,
                data_generator: generator,
                cloud_optimized: self@.cloud_optimized,
            }),
    {
        proof {
            use_type_invariant(&self);
        }
        FakeGeoTiffBuilder {
            width: self.width,
            height: self.height,
            bands: self.bands,
            projection: self.projection,
            geotransform: self.geotransform,
            output_path: self.output_path,
            data_generator: generator,
            cloud_optimized: self.cloud_optimized,
        }
    }

    /// Chooses between a plain container and a tiled, compressed one with
    /// overviews.
    pub fn cloud_optimized(self, cloud_optimized: bool) -> (builder: Self)
        ensures
            builder@ == (BuilderView { cloud_optimized, ..self@ }),
    {
        proof {
            use_type_invariant(&self);
        }
        FakeGeoTiffBuilder {
            width: self.width,
            height: self.height,
            bands: self.bands,
            projection: self.projection,
            geotransform: self.geotransform,
            output_path: self.output_path,
            data_generator: self.data_generator,
            cloud_optimized,
        }
    }

    /// Finishes the configuration for pixels of type `T`.
    ///
    /// Fails if no output path was set.
    pub fn build<T: ConvertFromF64 + Copy>(self) -> (result: Result<
        FakeGeoTiff<T, G>,
        GeoTiffError,
    >)
        ensures
            result is Err <==> self@.output_path is None,
            result matches Err(e) ==> e is MissingField && e.detail()
                == "Output path must be specified"@,
            result matches Ok(raster) ==> raster@ == self@.finished(),
            result matches Ok(raster) ==> raster@.geotransform is Some,
    {
        proof {
            use_type_invariant(&self);
        }
        let output_path = match self.output_path {
            Some(path) => path,
            None => {
                return Err(
                    GeoTiffError::MissingField(String::from_str("Output path must be specified")),
                );
            },
        };
        Ok(
            FakeGeoTiff {
                width: self.width,
                height: self.height,
                bands: self.bands,
                projection: self.projection,
                geotransform: self.geotransform,
                output_path,
                data_generator: self.data_generator,
                cloud_optimized: self.cloud_optimized,
                _phantom: PhantomData,
            },
        )
    }
}

impl<G> BuilderView<G> {
    /// The configuration that `build` makes of these settings, once an
    /// output path is among them.
    pub open spec fn finished(&self) -> RasterConfig<G>
        recommends
            self.output_path is Some,
    {
        RasterConfig {
            width: self.width,
            height: self.height,
            bands: self.bands,
            projection: self.projection,
            geotransform: self.geotransform,
            output_path: self.output_path->Some_0,
            data_generator: self.data_generator,
            cloud_optimized: self.cloud_optimized,
        }
    }
}

/// A complete raster configuration.
pub struct RasterConfig<G> {
    pub width: usize,
    pub height: usize,
    pub bands: usize,
    pub projection: Option<Seq<char>>,
    pub geotransform: Option<GeoTransform>,
    pub output_path: Seq<char>,
    pub data_generator: G,
    pub cloud_optimized: bool,
}

impl<G: DataGenerator> RasterConfig<G> {
    /// Number of samples in one band.
    pub open spec fn band_len(&self) -> int {
        self.width * self.height
    }

    /// Number of samples in all bands together.
    pub open spec fn sample_count(&self) -> int {
        self.band_len() * self.bands
    }

    /// Where the sample of column `x`, row `y`, band `band` stands in the
    /// band-major buffer: bands one after the other, each row by row.
    pub open spec fn position(&self, x: int, y: int, band: int) -> int {
        band * self.band_len() + y * self.width + x
    }

    /// The sample that stands at position `i` of the band-major buffer.
    pub open spec fn sample_at(&self, i: int) -> u64 {
        self.data_generator.sample(
            (i % (self.width as int)) as usize,
            ((i / (self.width as int)) % (self.height as int)) as usize,
            (i / self.band_len()) as usize,
        )
    }

    /// The band-major buffer of pixels of type `T`.
    pub open spec fn pixel_buffer<T: ConvertFromF64>(&self) -> Seq<T> {
        Seq::new(self.sample_count() as nat, |i: int| T::converted(self.sample_at(i)))
    }

    /// The part of the buffer that holds band `band`, counted from zero.
    pub open spec fn band_data<T: ConvertFromF64>(&self, band: int) -> Seq<T> {
        self.pixel_buffer::<T>().subrange(band * self.band_len(), (band + 1) * self.band_len())
    }

    /// The request that creates the container.
    pub open spec fn create_step<T>(&self) -> StepView<T> {
        StepView::Create {
            driver: "GTiff"@,
            path: self.output_path,
            width: self.width,
            height: self.height,
            bands: self.bands,
            options: creation_options(self.cloud_optimized),
        }
    }

    /// The requests that set projection and geotransform, each only where
    /// the configuration has one.
    pub open spec fn metadata_steps<T>(&self) -> Seq<StepView<T>> {
        let projection = match self.projection {
            Some(projection) => seq![StepView::<T>::SetProjection { projection }],
            None => seq![],
        };
        let transform = match self.geotransform {
            Some(transform) => seq![
                StepView::<T>::SetGeoTransform { coefficients: transform.coefficients() },
            ],
            None => seq![],
        };
        projection + transform
    }

    /// The request that writes band `band`, counted from zero, over the
    /// whole grid.
    pub open spec fn band_step<T: ConvertFromF64>(&self, band: int) -> StepView<T> {
        StepView::WriteBand {
            band: (band + 1) as usize,
            origin: (0isize, 0isize),
            size: (self.width, self.height),
            data: self.band_data::<T>(band),
        }
    }

    /// One request per band, in band order.
    pub open spec fn band_steps<T: ConvertFromF64>(&self) -> Seq<StepView<T>> {
        Seq::new(self.bands as nat, |band: int| self.band_step::<T>(band))
    }

    /// The request for overviews, made only of a cloud-optimized raster.
    pub open spec fn overview_steps<T>(&self) -> Seq<StepView<T>> {
        if self.cloud_optimized {
            seq![
                StepView::<T>::BuildOverviews {
                    resampling: "NEAREST"@,
                    factors: seq![2i32, 4i32, 8i32, 16i32],
                    subset: seq![],
                },
            ]
        } else {
            seq![]
        }
    }

    /// Everything that writing the raster asks of the container library, in
    /// order: creation, metadata, the bands, the overviews.
    pub open spec fn write_steps<T: ConvertFromF64>(&self) -> Seq<StepView<T>> {
        seq![self.create_step::<T>()] + self.metadata_steps::<T>() + self.band_steps::<T>()
            + self.overview_steps::<T>()
    }
}

/// The creation options of a container: tiling, LZW compression, overviews
/// kept and the large-file layout where needed for a cloud-optimized one,
/// none for a plain one.
pub open spec fn creation_options(cloud_optimized: bool) -> Seq<Seq<char>> {
    if cloud_optimized {
        seq!["TILED=YES"@, "COMPRESS=LZW"@, "COPY_SRC_OVERVIEWS=YES"@, "BIGTIFF=IF_SAFER"@]
    } else {
        seq![]
    }
}

/// A position of the band-major layout names its column, row and band.
pub proof fn lemma_position_parts(width: int, height: int, x: int, y: int, band: int)
    requires
        0 <= x < width,
        0 <= y < height,
        0 <= band,
    ensures
        (band * (width * height) + y * width + x) % width == x,
        ((band * (width * height) + y * width + x) / width) % height == y,
        (band * (width * height) + y * width + x) / (width * height) == band,
{
    let i = band * (width * height) + y * width + x;
    let row = band * height + y;
    assert(i == row * width + x) by (nonlinear_arith)
        requires
            i == band * (width * height) + y * width + x,
            row == band * height + y,
    ;
    lemma_fundamental_div_mod_converse(i, width, row, x);
    lemma_fundamental_div_mod_converse(row, height, band, y);
    lemma_div_denominator(i, width, height);
}

/// The band-major buffer holds, for every pixel of every band, the narrowed
/// sample of that pixel: at its position in the whole buffer, and at row
/// times width plus column in the part that belongs to its band.
pub proof fn lemma_buffer_layout<T: ConvertFromF64, G: DataGenerator>(
    config: RasterConfig<G>,
    x: usize,
    y: usize,
    band: usize,
)
    requires
        x < config.width,
        y < config.height,
        band < config.bands,
    ensures
        0 <= config.position(x as int, y as int, band as int) < config.sample_count(),
        config.pixel_buffer::<T>()[config.position(x as int, y as int, band as int)]
            == T::converted(config.data_generator.sample(x, y, band)),
        config.band_data::<T>(band as int).len() == config.band_len(),
        config.band_data::<T>(band as int)[y * config.width + x] == T::converted(
            config.data_generator.sample(x, y, band),
        ),
{
    let (w, h, b) = (config.width as int, config.height as int, config.bands as int);
    let len = config.band_len();
    let i = config.position(x as int, y as int, band as int);
    lemma_position_parts(w, h, x as int, y as int, band as int);
    assert(0 <= y * w + x < len) by (nonlinear_arith)
        requires
            0 <= x < w,
            0 <= y < h,
            len == w * h,
    ;
    assert(0 <= band * len && (band + 1) * len <= len * b && (band + 1) * len == band * len + len)
        by (nonlinear_arith)
        requires
            0 <= band < b,
            0 <= len,
    ;
    assert(config.sample_at(i) == config.data_generator.sample(x, y, band));
}

/// What the cloud-optimized flag changes in the requests of a write.
///
/// Creation always comes first, and the bands follow the metadata in band
/// order. With the flag set, the creation options ask for tiling, LZW
/// compression and the large-file layout where needed, and the last request,
/// after every band was written, builds overviews at factors 2, 4, 8 and 16
/// for all bands; no earlier request builds overviews. With the flag unset,
/// creation has no options and no request builds overviews.
pub proof fn lemma_cloud_optimized_steps<T: ConvertFromF64, G: DataGenerator>(
    config: RasterConfig<G>,
)
    ensures
        config.write_steps::<T>().len() == 1 + config.metadata_steps::<T>().len() + config.bands
            + if config.cloud_optimized {
            1int
        } else {
            0int
        },
        config.write_steps::<T>()[0] == config.create_step::<T>(),
        forall|band: int|
            #![trigger config.band_step::<T>(band)]
            0 <= band < config.bands ==> config.write_steps::<T>()[1
                + config.metadata_steps::<T>().len() + band] == config.band_step::<T>(band),
        forall|i: int|
            0 <= i < config.write_steps::<T>().len() ==> (
            #[trigger] config.write_steps::<T>()[i] is BuildOverviews <==> config.cloud_optimized
                && i == config.write_steps::<T>().len() - 1),
        config.cloud_optimized ==> {
            &&& creation_options(true).contains("TILED=YES"@)
            &&& creation_options(true).contains("COMPRESS=LZW"@)
            &&& creation_options(true).contains("BIGTIFF=IF_SAFER"@)
            &&& config.write_steps::<T>().last() == (StepView::<T>::BuildOverviews {
                resampling: "NEAREST"@,
                factors: seq![2i32, 4i32, 8i32, 16i32],
                subset: seq![],
            })
        },
        !config.cloud_optimized ==> creation_options(false).len() == 0,
{
    let steps = config.write_steps::<T>();
    let metadata = config.metadata_steps::<T>();
    let head = seq![config.create_step::<T>()] + metadata;
    let written = config.band_steps::<T>();
    let tail = config.overview_steps::<T>();
    assert(steps == head + written + tail);
    if config.cloud_optimized {
        let options = creation_options(true);
        assert(options[0] == "TILED=YES"@);
        assert(options[1] == "COMPRESS=LZW"@);
        assert(options[3] == "BIGTIFF=IF_SAFER"@);
        assert(steps.last() == tail[0]);
    }
    assert forall|i: int| 0 <= i < head.len() + written.len() implies !(#[trigger] steps[i]
        is BuildOverviews) by {
        if i < head.len() {
            assert(steps[i] == head[i]);
            if i >= 1 {
                assert(head[i] == metadata[i - 1]);
            }
        } else {
            assert(steps[i] == written[i - head.len()]);
        }
    }
    assert forall|band: int|
        #![trigger config.band_step::<T>(band)]
        0 <= band < config.bands implies steps[1 + metadata.len() + band] == config.band_step::<T>(
        band,
    ) by {
        assert(steps[head.len() + band] == written[band]);
    }
}

/// Writing a raster that has a geotransform asks for it to be set, as the
/// last request before the bands.
pub proof fn lemma_geotransform_is_requested<T: ConvertFromF64, G: DataGenerator>(
    config: RasterConfig<G>,
)
    requires
        config.geotransform is Some,
    ensures
        config.metadata_steps::<T>().len() >= 1,
        config.write_steps::<T>()[config.metadata_steps::<T>().len() as int] == (
        StepView::<T>::SetGeoTransform {
            coefficients: config.geotransform->Some_0.coefficients(),
        }),
{
    let metadata = config.metadata_steps::<T>();
    let head = seq![config.create_step::<T>()] + metadata;
    assert(config.write_steps::<T>()[metadata.len() as int] == head[metadata.len() as int]);
    assert(head[metadata.len() as int] == metadata[metadata.len() - 1]);
}

/// A raster that is ready to be generated and written, with pixels of type
/// `T`. Its extents and band count are positive, and it has a geotransform.
pub struct FakeGeoTiff<T: ConvertFromF64 + Copy, G: DataGenerator = GradientPattern> {
    width: usize,
    height: usize,
    bands: usize,
    projection: Option<String>,
    geotransform: Option<GeoTransform>,
    output_path: String,
    data_generator: G,
    cloud_optimized: bool,
    _phantom: PhantomData<T>,
}

impl<T: ConvertFromF64 + Copy, G: DataGenerator> View for FakeGeoTiff<T, G> {
    type V = RasterConfig<G>;

    closed spec fn view(&self) -> RasterConfig<G> {
        RasterConfig {
            width: self.width,
            height: self.height,
            bands: self.bands,
            projection: match self.projection {
                Some(p) => Some(p@),
                None => None,
            },
            geotransform: self.geotransform,
            output_path: self.output_path@,
            data_generator: self.data_generator,
            cloud_optimized: self.cloud_optimized,
        }
    }
}

impl<T: ConvertFromF64 + Copy, G: DataGenerator> FakeGeoTiff<T, G> {
    #[verifier::type_invariant]
    spec fn well_formed(self) -> bool {
        self.width > 0 && self.height > 0 && self.bands > 0 && self.geotransform is Some
    }

    /// The width of the pixel grid, which is never zero.
    pub fn width(&self) -> (width: usize)
        ensures
            width == self@.width,
            width > 0,
    {
        proof {
            use_type_invariant(self);
        }
        self.width
    }

    /// The height of the pixel grid, which is never zero.
    pub fn height(&self) -> (height: usize)
        ensures
            height == self@.height,
            height > 0,
    {
        proof {
            use_type_invariant(self);
        }
        self.height
    }

    /// The number of bands, which is never zero.
    pub fn bands(&self) -> (bands: usize)
        ensures
            bands == self@.bands,
            bands > 0,
    {
        proof {
            use_type_invariant(self);
        }
        self.bands
    }

    /// The geotransform, which every raster has.
    pub fn geotransform(&self) -> (transform: GeoTransform)
        ensures
            self@.geotransform == Some(transform),
    {
        proof {
            use_type_invariant(self);
        }
        match self.geotransform {
            Some(transform) => transform,
            None => GeoTransform::default(),
        }
    }

    /// The number of samples in all bands together, if it can be counted.
    pub fn sample_count(&self) -> (count: Option<usize>)
        ensures
            count is Some <==> self@.sample_count() <= usize::MAX,
            count matches Some(n) ==> n == self@.sample_count(),
    {
        proof {
            use_type_invariant(self);
            let (w, h, b) = (self.width as int, self.height as int, self.bands as int);
            assert(w * h <= (w * h) * b) by (nonlinear_arith)
                requires
                    w > 0,
                    h > 0,
                    b > 0,
            ;
        }
        match self.width.checked_mul(self.height) {
            Some(band_len) => band_len.checked_mul(self.bands),
            None => None,
        }
    }

    /// Computes every sample and narrows it to `T`, into one band-major
    /// buffer.
    pub fn generate_data(&self) -> (data: Vec<T>)
        requires
            self@.sample_count() <= usize::MAX,
        ensures
            data@ == self@.pixel_buffer::<T>(),
    {
        proof {
            use_type_invariant(self);
        }
        let width = self.width;
        let height = self.height;
        let bands = self.bands;
        let ghost config = self@;
        let ghost band_len = width as int * height as int;
        let mut data: Vec<T> = Vec::new();
        let mut band: usize = 0;
        while band < bands
            invariant
                band <= bands,
                0 < width,
                0 < height,
                config == self@,
                config.width == width,
                config.height == height,
                band_len == width * height,
                data@.len() == band * band_len,
                forall|i: int|
                    0 <= i < data@.len() ==> data@[i] == T::converted(#[trigger] config.sample_at(i)),
            decreases bands - band,
        {
            let mut y: usize = 0;
            while y < height
                invariant
                    band < bands,
                    y <= height,
                    0 < width,
                    0 < height,
                    config == self@,
                    config.width == width,
                    config.height == height,
                    band_len == width * height,
                    data@.len() == band * band_len + y * width,
                    forall|i: int|
                        0 <= i < data@.len() ==> data@[i] == T::converted(
                            #[trigger] config.sample_at(i),
                        ),
                decreases height - y,
            {
                let mut x: usize = 0;
                while x < width
                    invariant
                        band < bands,
                        y < height,
                        x <= width,
                        0 < width,
                        0 < height,
                        config == self@,
                        config.width == width,
                        config.height == height,
                        band_len == width * height,
                        data@.len() == band * band_len + y * width + x,
                        forall|i: int|
                            0 <= i < data@.len() ==> data@[i] == T::converted(
                                #[trigger] config.sample_at(i),
                            ),
                    decreases width - x,
                {
                    let sample = self.data_generator.generate(x, y, band);
                    proof {
                        lemma_position_parts(
                            width as int,
                            height as int,
                            x as int,
                            y as int,
                            band as int,
                        );
                        assert(config.sample_at(data@.len() as int) == sample);
                    }
                    data.push(T::convert_from_f64(sample));
                    x = x + 1;
                }
                proof {
                    assert((y + 1) * width == y * width + width) by (nonlinear_arith);
                }
                y = y + 1;
            }
            proof {
                assert((band + 1) * band_len == band * band_len + height * width)
                    by (nonlinear_arith)
                    requires
                        band_len == width * height,
                ;
            }
            band = band + 1;
        }
        proof {
            assert(band * band_len == band_len * bands) by (nonlinear_arith)
                requires
                    band == bands,
            ;
        }
        data
    }

    /// The creation options for this raster's container.
    fn creation_options(&self) -> (options: Vec<&'static str>)
        ensures
            Seq::new(options@.len(), |i: int| options@[i]@) == creation_options(
                self@.cloud_optimized,
            ),
    {
        let mut options: Vec<&'static str> = Vec::new();
        if self.cloud_optimized {
            options.push("TILED=YES");
            options.push("COMPRESS=LZW");
            options.push("COPY_SRC_OVERVIEWS=YES");
            options.push("BIGTIFF=IF_SAFER");
        }
        options
    }

    /// Copies band `band`, counted from zero, out of the band-major buffer.
    fn band_slice(&self, data: &Vec<T>, band: usize) -> (slice: Vec<T>)
        requires
            data@ == self@.pixel_buffer::<T>(),
            band < self@.bands,
            self@.sample_count() <= usize::MAX,
        ensures
            slice@ == self@.band_data::<T>(band as int),
    {
        proof {
            use_type_invariant(self);
        }
        let ghost band_len = self@.band_len();
        proof {
            let bands = self.bands as int;
            assert(band * band_len + band_len <= band_len * bands) by (nonlinear_arith)
                requires
                    0 <= band < bands,
                    0 <= band_len,
            ;
            assert(band_len <= band_len * bands) by (nonlinear_arith)
                requires
                    0 < bands,
                    0 <= band_len,
            ;
            assert((band + 1) * band_len == band * band_len + band_len) by (nonlinear_arith);
        }
        let len = self.width * self.height;
        let start = band * len;
        let mut slice: Vec<T> = Vec::new();
        let mut k: usize = 0;
        while k < len
            invariant
                k <= len,
                start + len <= data@.len() <= usize::MAX,
                slice@ == data@.subrange(start as int, start + k),
            decreases len - k,
        {
            slice.push(data[start + k]);
            k = k + 1;
        }
        slice
    }

    /// Plans the writing of this raster: generates the pixel buffer and
    /// lists every request to the container library, none of them performed
    /// yet.
    pub fn write(&self) -> (session: WriteSession<T>)
        requires
            self@.sample_count() <= usize::MAX,
        ensures
            session@ == (SessionView {
                steps: self@.write_steps::<T>(),
                done: 0,
                failure: None,
            }),
            self@.geotransform is Some,
    {
        proof {
            use_type_invariant(self);
        }
        let mut steps: Vec<WriteStep<T>> = Vec::new();
        steps.push(
            WriteStep::Create {
                driver: "GTiff",
                path: self.output_path.clone(),
                width: self.width,
                height: self.height,
                bands: self.bands,
                options: self.creation_options(),
            },
        );
        if let Some(projection) = &self.projection {
            steps.push(WriteStep::SetProjection { projection: projection.clone() });
        }
        if let Some(transform) = self.geotransform {
            steps.push(WriteStep::SetGeoTransform { coefficients: <[u64; 6]>::from(transform) });
        }
        assert(step_views(steps@) == seq![self@.create_step::<T>()] + self@.metadata_steps::<T>());
        let ghost head = step_views(steps@);
        let data = self.generate_data();
        let mut band: usize = 0;
        while band < self.bands
            invariant
                band <= self.bands,
                self@.sample_count() <= usize::MAX,
                data@ == self@.pixel_buffer::<T>(),
                head == seq![self@.create_step::<T>()] + self@.metadata_steps::<T>(),
                step_views(steps@) == head + self@.band_steps::<T>().subrange(0, band as int),
            decreases self.bands - band,
        {
            let slice = self.band_slice(&data, band);
            let ghost before = steps@;
            steps.push(
                WriteStep::WriteBand {
                    band: band + 1,
                    origin: (0, 0),
                    size: (self.width, self.height),
                    data: slice,
                },
            );
            proof {
                let written = self@.band_steps::<T>();
                assert(steps@.last()@ == written[band as int]);
                assert(step_views(steps@) =~= step_views(before) + seq![written[band as int]]);
                assert(written.subrange(0, band + 1) =~= written.subrange(0, band as int)
                    + seq![written[band as int]]);
            }
            band = band + 1;
        }
        assert(self@.band_steps::<T>().subrange(0, band as int) == self@.band_steps::<T>());
        let ghost before = steps@;
        if self.cloud_optimized {
            let mut factors: Vec<i32> = Vec::new();
            factors.push(2);
            factors.push(4);
            factors.push(8);
            factors.push(16);
            assert(factors@ == seq![2i32, 4i32, 8i32, 16i32]);
            steps.push(
                WriteStep::BuildOverviews { resampling: "NEAREST", factors, subset: Vec::new() },
            );
            assert(steps@.last()@ == self@.overview_steps::<T>()[0]);
            assert(step_views(steps@) =~= step_views(before) + self@.overview_steps::<T>());
        } else {
            assert(step_views(steps@) =~= step_views(before) + self@.overview_steps::<T>());
        }
        assert(step_views(steps@) == self@.write_steps::<T>());
        WriteSession::start(steps)
    }
}

} // verus!
