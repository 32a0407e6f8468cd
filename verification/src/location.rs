//! A place found by Nominatim, reduced to its bounding box.
use vstd::prelude::*;

verus! {

/// A place found by Nominatim: its bounding box as Nominatim writes it,
/// `[south, north, west, east]`, each a decimal number.
#[derive(Clone, Debug, Default, PartialEq, Eq)]
pub struct Location {
    pub boundingbox: Vec<String>,
}

} // verus!
