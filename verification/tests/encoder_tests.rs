use rasterfakers::binary64::{NEGATIVE_ONE, ONE, ZERO};
use rasterfakers::encoder::{WriteSession, WriteStep};
use rasterfakers::{FakeGeoTiffBuilder, GeoTiffError, GeoTransform, GradientPattern};

fn collect<T: Copy>(mut session: WriteSession<T>) -> Vec<String> {
    let mut seen = Vec::new();
    loop {
        let name = match session.next_step() {
            None => break,
            Some(WriteStep::Create { .. }) => "create".to_string(),
            Some(WriteStep::SetProjection { .. }) => "projection".to_string(),
            Some(WriteStep::SetGeoTransform { .. }) => "geotransform".to_string(),
            Some(WriteStep::WriteBand { band, .. }) => format!("band {band}"),
            Some(WriteStep::BuildOverviews { .. }) => "overviews".to_string(),
        };
        seen.push(name);
        session = session.report(Ok(()));
    }
    assert!(matches!(session.outcome(), Some(Ok(()))));
    seen
}

#[test]
fn gradient_write_hands_over_the_band_major_buffer() {
    let raster = FakeGeoTiffBuilder::new()
        .dimensions(4, 4)
        .unwrap()
        .bands(1)
        .unwrap()
        .data_generator(GradientPattern)
        .output_path("gradient.tiff")
        .build::<u8>()
        .unwrap();
    let mut session = raster.write();
    let mut written: Vec<Vec<u8>> = Vec::new();
    loop {
        match session.next_step() {
            None => break,
            Some(WriteStep::WriteBand { band, origin, size, data }) => {
                assert_eq!(*band, 1);
                assert_eq!(*origin, (0, 0));
                assert_eq!(*size, (4, 4));
                written.push(data.clone());
            }
            Some(_) => {}
        }
        session = session.report(Ok(()));
    }
    assert_eq!(written.len(), 1);
    assert_eq!(written[0].len(), 16);
    assert_eq!(written[0], vec![0, 1, 2, 3, 1, 2, 3, 4, 2, 3, 4, 5, 3, 4, 5, 6]);
}

#[test]
fn plain_raster_requests() {
    let raster = FakeGeoTiffBuilder::new()
        .dimensions(2, 3)
        .unwrap()
        .bands(3)
        .unwrap()
        .projection("EPSG:4326")
        .output_path("plain.tiff")
        .build::<i32>()
        .unwrap();
    let session = raster.write();
    match session.next_step() {
        Some(WriteStep::Create { driver, path, width, height, bands, options }) => {
            assert_eq!(*driver, "GTiff");
            assert_eq!(path, "plain.tiff");
            assert_eq!((*width, *height, *bands), (2, 3, 3));
            assert!(options.is_empty());
        }
        _ => panic!("creation comes first"),
    }
    assert_eq!(
        collect(session),
        vec!["create", "projection", "geotransform", "band 1", "band 2", "band 3"]
    );
}

#[test]
fn cloud_optimized_raster_requests() {
    let raster = FakeGeoTiffBuilder::new()
        .dimensions(2, 2)
        .unwrap()
        .bands(2)
        .unwrap()
        .cloud_optimized(true)
        .output_path("cog.tiff")
        .build::<u16>()
        .unwrap();
    let mut session = raster.write();
    match session.next_step() {
        Some(WriteStep::Create { options, .. }) => {
            assert_eq!(
                *options,
                vec!["TILED=YES", "COMPRESS=LZW", "COPY_SRC_OVERVIEWS=YES", "BIGTIFF=IF_SAFER"]
            );
        }
        _ => panic!("creation comes first"),
    }
    let mut names = Vec::new();
    loop {
        match session.next_step() {
            None => break,
            Some(WriteStep::BuildOverviews { resampling, factors, subset }) => {
                assert_eq!(*resampling, "NEAREST");
                assert_eq!(*factors, vec![2, 4, 8, 16]);
                assert!(subset.is_empty());
                names.push("overviews");
            }
            Some(WriteStep::WriteBand { .. }) => names.push("band"),
            Some(_) => names.push("other"),
        }
        session = session.report(Ok(()));
    }
    assert_eq!(names, vec!["other", "other", "band", "band", "overviews"]);
}

#[test]
fn unset_projection_is_not_requested() {
    let raster = FakeGeoTiffBuilder::new()
        .dimensions(1, 1)
        .unwrap()
        .output_path("bare.tiff")
        .build::<u8>()
        .unwrap();
    assert_eq!(collect(raster.write()), vec!["create", "geotransform", "band 1"]);
}

#[test]
fn geotransform_is_handed_over_in_order() {
    let transform = GeoTransform {
        x_min: 30.0f64.to_bits(),
        pixel_width: 0.25f64.to_bits(),
        rotation_x: 0.0f64.to_bits(),
        y_max: 10.0f64.to_bits(),
        rotation_y: 0.0f64.to_bits(),
        pixel_height: (-0.25f64).to_bits(),
    };
    let raster = FakeGeoTiffBuilder::new()
        .geotransform(transform)
        .dimensions(1, 1)
        .unwrap()
        .output_path("t.tiff")
        .build::<u8>()
        .unwrap();
    let session = raster.write().report(Ok(()));
    match session.next_step() {
        Some(WriteStep::SetGeoTransform { coefficients }) => {
            let values: Vec<f64> = coefficients.iter().map(|c| f64::from_bits(*c)).collect();
            assert_eq!(values, vec![30.0, 0.25, 0.0, 10.0, 0.0, -0.25]);
        }
        _ => panic!("geotransform comes second where no projection is set"),
    }
}

#[test]
fn default_geotransform() {
    let transform = GeoTransform::default();
    assert_eq!(f64::from_bits(transform.x_min), 0.0);
    assert_eq!(f64::from_bits(transform.pixel_width), 1.0);
    assert_eq!(f64::from_bits(transform.rotation_x), 0.0);
    assert_eq!(f64::from_bits(transform.y_max), 0.0);
    assert_eq!(f64::from_bits(transform.rotation_y), 0.0);
    assert_eq!(f64::from_bits(transform.pixel_height), -1.0);
    assert_eq!((ZERO, ONE, NEGATIVE_ONE), (0.0f64.to_bits(), 1.0f64.to_bits(), (-1.0f64).to_bits()));
    let array: [u64; 6] = transform.into();
    assert_eq!(array, [ZERO, ONE, ZERO, ZERO, ZERO, NEGATIVE_ONE]);
}

#[test]
fn failure_ends_the_run() {
    let raster = FakeGeoTiffBuilder::new()
        .dimensions(2, 2)
        .unwrap()
        .bands(2)
        .unwrap()
        .cloud_optimized(true)
        .output_path("fails.tiff")
        .build::<u8>()
        .unwrap();
    let session = raster.write();
    assert!(session.next_step().is_some());
    let session = session.report(Ok(()));
    assert!(matches!(session.next_step(), Some(WriteStep::SetGeoTransform { .. })));
    let session = session.report(Err("disk full".to_string()));
    assert!(session.next_step().is_none());
    let session = session.report(Ok(()));
    assert!(session.next_step().is_none());
    match session.outcome() {
        Some(Err(GeoTiffError::Gdal(message))) => assert_eq!(message, "disk full"),
        _ => panic!("the collaborator's failure is the outcome"),
    }
}

#[test]
fn outcome_is_open_while_requests_are_pending() {
    let raster = FakeGeoTiffBuilder::new()
        .dimensions(1, 1)
        .unwrap()
        .output_path("open.tiff")
        .build::<u8>()
        .unwrap();
    assert!(raster.write().outcome().is_none());
    let session = raster.write().report(Ok(())).report(Ok(())).report(Ok(()));
    assert!(session.next_step().is_none());
    assert!(matches!(session.outcome(), Some(Ok(()))));
}

#[test]
fn a_session_of_no_requests_is_complete() {
    let session: WriteSession<u8> = WriteSession::start(Vec::new());
    assert!(session.next_step().is_none());
    assert!(matches!(session.outcome(), Some(Ok(()))));
}

#[test]
fn north_up_transform_stores_the_height_negated() {
    let transform = GeoTransform::north_up(
        30.0f64.to_bits(),
        10.0f64.to_bits(),
        0.25f64.to_bits(),
        0.5f64.to_bits(),
    );
    assert_eq!(f64::from_bits(transform.x_min), 30.0);
    assert_eq!(f64::from_bits(transform.pixel_width), 0.25);
    assert_eq!(f64::from_bits(transform.rotation_x), 0.0);
    assert_eq!(f64::from_bits(transform.y_max), 10.0);
    assert_eq!(f64::from_bits(transform.rotation_y), 0.0);
    assert_eq!(f64::from_bits(transform.pixel_height), -0.5);
}

#[test]
fn raster_extents_can_be_read() {
    let raster = FakeGeoTiffBuilder::new()
        .dimensions(7, 5)
        .unwrap()
        .bands(3)
        .unwrap()
        .output_path("extents.tiff")
        .build::<u8>()
        .unwrap();
    assert_eq!((raster.width(), raster.height(), raster.bands()), (7, 5, 3));
}

#[test]
fn every_raster_has_a_geotransform() {
    let raster = FakeGeoTiffBuilder::new()
        .output_path("unit.tiff")
        .build::<u8>()
        .unwrap();
    let transform = raster.geotransform();
    assert_eq!(f64::from_bits(transform.pixel_width), 1.0);
    assert_eq!(f64::from_bits(transform.pixel_height), -1.0);

    let given = GeoTransform::north_up(
        5.0f64.to_bits(),
        6.0f64.to_bits(),
        2.0f64.to_bits(),
        3.0f64.to_bits(),
    );
    let raster = FakeGeoTiffBuilder::new()
        .geotransform(given)
        .output_path("given.tiff")
        .build::<u8>()
        .unwrap();
    assert_eq!(f64::from_bits(raster.geotransform().x_min), 5.0);
    assert_eq!(f64::from_bits(raster.geotransform().pixel_height), -3.0);
}
