//! Three-dimensional reference cells.
use vstd::prelude::*;

use crate::cell::{ReferenceCell, ReferenceCellType};

verus! {

/// The reference tetrahedron.
pub struct Tetrahedron;

impl ReferenceCell for Tetrahedron {
    open spec fn shape(&self) -> ReferenceCellType {
        ReferenceCellType::Tetrahedron
    }

    fn cell_type(&self) -> (r: ReferenceCellType) {
        ReferenceCellType::Tetrahedron
    }
}

/// The reference hexahedron.
pub struct Hexahedron;

impl ReferenceCell for Hexahedron {
    open spec fn shape(&self) -> ReferenceCellType {
        ReferenceCellType::Hexahedron
    }

    fn cell_type(&self) -> (r: ReferenceCellType) {
        ReferenceCellType::Hexahedron
    }
}

/// The reference prism.
pub struct Prism;

impl ReferenceCell for Prism {
    open spec fn shape(&self) -> ReferenceCellType {
        ReferenceCellType::Prism
    }

    fn cell_type(&self) -> (r: ReferenceCellType) {
        ReferenceCellType::Prism
    }
}

/// The reference pyramid.
pub struct Pyramid;

impl ReferenceCell for Pyramid {
    open spec fn shape(&self) -> ReferenceCellType {
        ReferenceCellType::Pyramid
    }

    fn cell_type(&self) -> (r: ReferenceCellType) {
        ReferenceCellType::Pyramid
    }
}

} // verus!
