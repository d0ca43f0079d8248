//! Reference cells: their vertices, edges, faces and volumes, and the
//! connectivity between them.
use vstd::prelude::*;

pub mod catalog;
pub mod connectivity;
pub mod cells_1d;
pub mod cells_2d;
pub mod cells_3d;

pub use cells_1d::Interval;
pub use cells_2d::{Quadrilateral, Triangle};
pub use cells_3d::{Hexahedron, Prism, Pyramid, Tetrahedron};

verus! {

/// The shape of a reference cell.
#[derive(Debug, Clone, Copy, PartialEq, Eq, Hash, Structural)]
pub enum ReferenceCellType {
    Interval,
    Triangle,
    Quadrilateral,
    Tetrahedron,
    Hexahedron,
    Prism,
    Pyramid,
}

/// Why a query about the entities of a cell was refused.
#[derive(Debug, Clone, Copy, PartialEq, Eq, Structural)]
pub enum CellError {
    /// A dimension above the cell's own, or an entity number at or past the
    /// number of entities of that dimension.
    InvalidEntity,
}

/// A zero- to three-dimensional reference cell.
///
/// Each method answers for the shape that `cell_type` gives; the tables are
/// those of `ReferenceCellType`.
pub trait ReferenceCell {
    /// The shape of this cell.
    spec fn shape(&self) -> ReferenceCellType;

    /// The shape of this cell.
    fn cell_type(&self) -> (r: ReferenceCellType)
        ensures
            r == self.shape(),
    ;

    /// The dimension of the reference cell (a triangle's is 2, a
    /// tetrahedron's 3).
    fn dim(&self) -> (r: usize)
        ensures
            r == self.shape().tdim(),
    {
        self.cell_type().dim()
    }

    /// The vertices of the cell: the first `dim()` coordinates are those of
    /// the first vertex, the next `dim()` those of the second, and so on.
    fn vertices(&self) -> (r: Vec<i64>)
        ensures
            r@ == self.shape().vertex_table(),
    {
        self.cell_type().vertices()
    }

    /// The edges of the cell: the vertex numbers of the two ends of the first
    /// edge, then of the second, and so on.
    fn edges(&self) -> (r: Vec<usize>)
        ensures
            r@ == self.shape().edge_table(),
    {
        self.cell_type().edges()
    }

    /// The faces of the cell: the first `faces_nvertices()[0]` entries are
    /// the vertex numbers of the first face, the next `faces_nvertices()[1]`
    /// those of the second, and so on.
    fn faces(&self) -> (r: Vec<usize>)
        ensures
            r@ == self.shape().face_table(),
    {
        self.cell_type().faces()
    }

    /// The number of vertices of each face.
    fn faces_nvertices(&self) -> (r: Vec<usize>)
        ensures
            r@ == self.shape().face_sizes(),
    {
        self.cell_type().faces_nvertices()
    }

    /// The vertex numbers of the volume; empty below three dimensions.
    fn volume(&self) -> (r: Vec<usize>)
        ensures
            r@ == self.shape().volume_table(),
    {
        self.cell_type().volume()
    }

    /// The number of entities of dimension `dim`; a dimension above 3 is
    /// refused.
    fn entity_count(&self, dim: usize) -> (r: Result<usize, CellError>)
        ensures
            dim <= 3 ==> r is Ok && r->Ok_0 == self.shape().num_entities(dim as nat),
            dim > 3 ==> r == Err::<usize, CellError>(CellError::InvalidEntity),
    {
        self.cell_type().entity_count(dim)
    }

    /// The number of vertices.
    fn vertex_count(&self) -> (r: usize)
        ensures
            r == self.shape().num_vertices(),
    {
        self.cell_type().vertex_count()
    }

    /// The number of edges.
    fn edge_count(&self) -> (r: usize)
        ensures
            r == self.shape().num_edges(),
    {
        self.cell_type().edge_count()
    }

    /// The number of faces.
    fn face_count(&self) -> (r: usize)
        ensures
            r == self.shape().num_faces(),
    {
        self.cell_type().face_count()
    }

    /// The number of volumes.
    fn volume_count(&self) -> (r: usize)
        ensures
            r == self.shape().num_volumes(),
    {
        self.cell_type().volume_count()
    }

    /// Get the entities connected to an entity: the numbers of the entities
    /// of dimension `connected_dim` attached to entity `entity_number` of
    /// dimension `entity_dim`. For example `connectivity(1, 0, 2)` lists the
    /// faces that hold edge 0.
    fn connectivity(&self, entity_dim: usize, entity_number: usize, connected_dim: usize) -> (r:
        Result<Vec<usize>, CellError>)
        ensures
            match r {
                Ok(v) => {
                    &&& self.shape().is_entity(entity_dim as nat, entity_number as nat)
                    &&& connected_dim <= self.shape().tdim()
                    &&& v@ == self.shape().connected(
                        entity_dim as nat,
                        entity_number as nat,
                        connected_dim as nat,
                    )
                },
                Err(e) => {
                    &&& !(self.shape().is_entity(entity_dim as nat, entity_number as nat)
                        && connected_dim <= self.shape().tdim())
                    &&& e == CellError::InvalidEntity
                },
            },
    {
        self.cell_type().connectivity(entity_dim, entity_number, connected_dim)
    }
}

/// Adds two integers.
pub fn add(a: i64, b: i64) -> (r: i64)
    requires
        i64::MIN <= a + b <= i64::MAX,
    ensures
        r == a + b,
{
    a + b
}

} // verus!
