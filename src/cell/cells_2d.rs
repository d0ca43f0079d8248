//! Two-dimensional reference cells.
use vstd::prelude::*;

use crate::cell::{ReferenceCell, ReferenceCellType};

verus! {

/// The reference triangle.
pub struct Triangle;

impl ReferenceCell for Triangle {
    open spec fn shape(&self) -> ReferenceCellType {
        ReferenceCellType::Triangle
    }

    fn cell_type(&self) -> (r: ReferenceCellType) {
        ReferenceCellType::Triangle
    }
}

/// The reference quadrilateral.
pub struct Quadrilateral;

impl ReferenceCell for Quadrilateral {
    open spec fn shape(&self) -> ReferenceCellType {
        ReferenceCellType::Quadrilateral
    }

    fn cell_type(&self) -> (r: ReferenceCellType) {
        ReferenceCellType::Quadrilateral
    }
}

} // verus!
