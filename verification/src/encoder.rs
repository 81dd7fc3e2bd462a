//! The requests that writing a raster makes of the raster container library,
//! and the run of those requests one after the other.
//!
//! This library performs no I/O. Writing a raster yields the full list of
//! requests; the caller performs the pending one and reports how it went.
//! After the first failure nothing more is pending.

use crate::error::GeoTiffError;
use vstd::prelude::*;

verus! {

/// One request to the raster container library.
#[derive(Debug)]
pub enum WriteStep<T> {
    /// Create the container with the named driver, for pixels of type `T`.
    Create {
        driver: &'static str,
        path: String,
        width: usize,
        height: usize,
        bands: usize,
        options: Vec<&'static str>,
    },
    /// Set the coordinate reference system of the container.
    SetProjection { projection: String },
    /// Set the six geotransform coefficients, each a binary64 encoding.
    SetGeoTransform { coefficients: [u64; 6] },
    /// Write one band, counted from one, row by row into the window at
    /// `origin` of extent `size`.
    WriteBand { band: usize, origin: (isize, isize), size: (usize, usize), data: Vec<T> },
    /// Build overviews at the given decimation factors, for the bands in
    /// `subset` or, where that is empty, for all.
    BuildOverviews { resampling: &'static str, factors: Vec<i32>, subset: Vec<i32> },
}

/// What a request says, over mathematical sequences.
pub enum StepView<T> {
    Create {
        driver: Seq<char>,
        path: Seq<char>,
        width: usize,
        height: usize,
        bands: usize,
        options: Seq<Seq<char>>,
    },
    SetProjection { projection: Seq<char> },
    SetGeoTransform { coefficients: Seq<u64> },
    WriteBand { band: usize, origin: (isize, isize), size: (usize, usize), data: Seq<T> },
    BuildOverviews { resampling: Seq<char>, factors: Seq<i32>, subset: Seq<i32> },
}

impl<T> View for WriteStep<T> {
    type V = StepView<T>;

    open spec fn view(&self) -> StepView<T> {
        match self {
            WriteStep::Create { driver, path, width, height, bands, options } => StepView::Create {
                driver: driver@,
                path: path@,
                width: *width,
                height: *height,
                bands: *bands,
                options: Seq::new(options@.len(), |i: int| options@[i]@),
            },
            WriteStep::SetProjection { projection } => StepView::SetProjection {
                projection: projection@,
            },
            WriteStep::SetGeoTransform { coefficients } => StepView::SetGeoTransform {
                coefficients: coefficients@,
            },
            WriteStep::WriteBand { band, origin, size, data } => StepView::WriteBand {
                band: *band,
                origin: *origin,
                size: *size,
                data: data@,
            },
            WriteStep::BuildOverviews { resampling, factors, subset } => StepView::BuildOverviews {
                resampling: resampling@,
                factors: factors@,
                subset: subset@,
            },
        }
    }
}

/// The views of a list of requests, in order.
pub open spec fn step_views<T>(steps: Seq<WriteStep<T>>) -> Seq<StepView<T>> {
    Seq::new(steps.len(), |i: int| steps[i]@)
}

/// Where a run of requests stands.
pub struct SessionView<T> {
    /// All requests of the run, in the order in which they are made.
    pub steps: Seq<StepView<T>>,
    /// How many of them were performed.
    pub done: nat,
    /// The failure that ended the run, if one did.
    pub failure: Option<GeoTiffError>,
}

impl<T> SessionView<T> {
    /// Whether a request is waiting to be performed.
    pub open spec fn pending(&self) -> bool {
        self.failure is None && self.done < self.steps.len()
    }
}

/// A run of requests: which were performed, and whether one failed.
pub struct WriteSession<T> {
    steps: Vec<WriteStep<T>>,
    done: usize,
    failure: Option<GeoTiffError>,
}

impl<T> View for WriteSession<T> {
    type V = SessionView<T>;

    closed spec fn view(&self) -> SessionView<T> {
        SessionView { steps: step_views(self.steps@), done: self.done as nat, failure: self.failure }
    }
}

impl<T> WriteSession<T> {
    #[verifier::type_invariant]
    spec fn within_steps(self) -> bool {
        self.done <= self.steps@.len()
    }

    /// A run of `steps` of which none was performed yet.
    pub fn start(steps: Vec<WriteStep<T>>) -> (session: Self)
        ensures
            session@ == (SessionView { steps: step_views(steps@), done: 0, failure: None }),
    {
        WriteSession { steps, done: 0, failure: None }
    }

    /// The request to perform now: the first one not yet performed, unless
    /// the run has failed or is complete.
    pub fn next_step(&self) -> (step: Option<&WriteStep<T>>)
        ensures
            step is Some <==> self@.pending(),
            step matches Some(s) ==> s@ == self@.steps[self@.done as int],
    {
        proof {
            use_type_invariant(self);
        }
        if self.failure.is_none() && self.done < self.steps.len() {
            Some(&self.steps[self.done])
        } else {
            None
        }
    }

    /// Records how the pending request went. Success moves on to the next
    /// request; a failure ends the run with the collaborator's message.
    /// Where nothing is pending, nothing changes.
    pub fn report(self, outcome: Result<(), String>) -> (session: Self)
        ensures
            session@.steps == self@.steps,
            !self@.pending() ==> session@ == self@,
            self@.pending() && outcome is Ok ==> session@.done == self@.done + 1
                && session@.failure is None,
            self@.pending() ==> (outcome matches Err(message) ==> session@.done == self@.done
                && session@.failure == Some(GeoTiffError::Gdal(message))),
    {
        proof {
            use_type_invariant(&self);
        }
        if self.failure.is_some() || self.done >= self.steps.len() {
            return self;
        }
        match outcome {
            Ok(()) => WriteSession { steps: self.steps, done: self.done + 1, failure: None },
            Err(message) => WriteSession {
                steps: self.steps,
                done: self.done,
                failure: Some(GeoTiffError::Gdal(message)),
            },
        }
    }

    /// How the run ended: nothing while a request is pending, the failure
    /// if one occurred, success once every request was performed.
    pub fn outcome(self) -> (result: Option<Result<(), GeoTiffError>>)
        ensures
            result is None <==> self@.pending(),
            result matches Some(Err(e)) ==> self@.failure == Some(e),
            result matches Some(Ok(_)) ==> self@.failure is None && self@.done == self@.steps.len(),
    {
        proof {
            use_type_invariant(&self);
        }
        match self.failure {
            Some(e) => Some(Err(e)),
            None => if self.done < self.steps.len() {
                None
            } else {
                Some(Ok(()))
            },
        }
    }
}

} // verus!
