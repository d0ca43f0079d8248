//! One-dimensional reference cells.
use vstd::prelude::*;

use crate::cell::{ReferenceCell, ReferenceCellType};

verus! {

/// The reference interval.
pub struct Interval;

impl ReferenceCell for Interval {
    open spec fn shape(&self) -> ReferenceCellType {
        ReferenceCellType::Interval
    }

    fn cell_type(&self) -> (r: ReferenceCellType) {
        ReferenceCellType::Interval
    }
}

} // verus!
