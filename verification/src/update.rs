//! Widgets that refresh themselves from a sampler.

use crate::record::SamplingError;
use vstd::prelude::*;

verus! {

/// A widget that can take a fresh sample of what it shows. The host
/// implements this for the widgets that query the operating system; a
/// failed update is reported and leaves the next update free to succeed.
pub trait UpdatableWidget {
    /// Samples anew.
    fn update(&mut self) -> Result<(), SamplingError>;
}

} // verus!
