//! The constant tables that describe each reference cell.
use vstd::prelude::*;

use crate::cell::{CellError, ReferenceCellType};

verus! {

impl ReferenceCellType {
    /// The topological dimension of the cell.
    pub open spec fn tdim(self) -> nat {
        match self {
            ReferenceCellType::Interval => 1,
            ReferenceCellType::Triangle | ReferenceCellType::Quadrilateral => 2,
            _ => 3,
        }
    }

    /// The vertex coordinates, `tdim` of them per vertex, vertex after vertex.
    /// Every coordinate of a reference cell is 0 or 1, so the coordinates are
    /// held exactly, as integers.
    pub open spec fn vertex_table(self) -> Seq<i64> {
        match self {
            ReferenceCellType::Interval => seq![0, 1],
            ReferenceCellType::Triangle => seq![0, 0, 1, 0, 0, 1],
            ReferenceCellType::Quadrilateral => seq![0, 0, 1, 0, 0, 1, 1, 1],
            ReferenceCellType::Tetrahedron => seq![0, 0, 0, 1, 0, 0, 0, 1, 0, 0, 0, 1],
            ReferenceCellType::Hexahedron => seq![
                0, 0, 0, 1, 0, 0, 0, 1, 0, 1, 1, 0,
                0, 0, 1, 1, 0, 1, 0, 1, 1, 1, 1, 1,
            ],
            ReferenceCellType::Prism => seq![
                0, 0, 0, 1, 0, 0, 0, 1, 0,
                0, 0, 1, 1, 0, 1, 0, 1, 1,
            ],
            ReferenceCellType::Pyramid => seq![0, 0, 0, 1, 0, 0, 0, 1, 0, 1, 1, 0, 0, 0, 1],
        }
    }

    /// The two end vertices of each edge, edge after edge.
    pub open spec fn edge_table(self) -> Seq<usize> {
        match self {
            ReferenceCellType::Interval => seq![0, 1],
            ReferenceCellType::Triangle => seq![1, 2, 0, 2, 0, 1],
            ReferenceCellType::Quadrilateral => seq![0, 1, 0, 2, 1, 3, 2, 3],
            ReferenceCellType::Tetrahedron => seq![2, 3, 1, 3, 1, 2, 0, 3, 0, 2, 0, 1],
            ReferenceCellType::Hexahedron => seq![
                0, 1, 0, 2, 0, 4, 1, 3, 1, 5, 2, 3,
                2, 6, 3, 7, 4, 5, 4, 6, 5, 7, 6, 7,
            ],
            ReferenceCellType::Prism => seq![0, 1, 0, 2, 0, 3, 1, 2, 1, 4, 2, 5, 3, 4, 3, 5, 4, 5],
            ReferenceCellType::Pyramid => seq![0, 1, 0, 2, 0, 4, 1, 3, 1, 4, 2, 3, 2, 4, 3, 4],
        }
    }

    /// The vertices of each face, face after face.
    pub open spec fn face_table(self) -> Seq<usize> {
        match self {
            ReferenceCellType::Interval => seq![],
            ReferenceCellType::Triangle => seq![0, 1, 2],
            ReferenceCellType::Quadrilateral => seq![0, 1, 2, 3],
            ReferenceCellType::Tetrahedron => seq![1, 2, 3, 0, 2, 3, 0, 1, 3, 0, 1, 2],
            ReferenceCellType::Hexahedron => seq![
                0, 1, 2, 3, 0, 1, 4, 5, 0, 2, 4, 6,
                1, 3, 5, 7, 2, 3, 6, 7, 4, 5, 6, 7,
            ],
            ReferenceCellType::Prism => seq![
                0, 1, 2, 0, 1, 3, 4, 0, 2, 3, 5, 1, 2, 4, 5, 3, 4, 5,
            ],
            ReferenceCellType::Pyramid => seq![0, 1, 2, 3, 0, 1, 4, 0, 2, 4, 1, 3, 4, 2, 3, 4],
        }
    }

    /// The number of vertices of each face.
    pub open spec fn face_sizes(self) -> Seq<usize> {
        match self {
            ReferenceCellType::Interval => seq![],
            ReferenceCellType::Triangle => seq![3],
            ReferenceCellType::Quadrilateral => seq![4],
            ReferenceCellType::Tetrahedron => seq![3, 3, 3, 3],
            ReferenceCellType::Hexahedron => seq![4, 4, 4, 4, 4, 4],
            ReferenceCellType::Prism => seq![3, 4, 4, 4, 3],
            ReferenceCellType::Pyramid => seq![4, 3, 3, 3, 3],
        }
    }

    /// The vertices of the volume: every vertex of a three-dimensional cell,
    /// none for a cell of lower dimension.
    pub open spec fn volume_table(self) -> Seq<usize> {
        match self {
            ReferenceCellType::Tetrahedron => seq![0, 1, 2, 3],
            ReferenceCellType::Hexahedron => seq![0, 1, 2, 3, 4, 5, 6, 7],
            ReferenceCellType::Prism => seq![0, 1, 2, 3, 4, 5],
            ReferenceCellType::Pyramid => seq![0, 1, 2, 3, 4],
            _ => seq![],
        }
    }


    /// The number of vertices.
    pub open spec fn num_vertices(self) -> nat {
        match self {
            ReferenceCellType::Interval => 2,
            ReferenceCellType::Triangle => 3,
            ReferenceCellType::Quadrilateral => 4,
            ReferenceCellType::Tetrahedron => 4,
            ReferenceCellType::Hexahedron => 8,
            ReferenceCellType::Prism => 6,
            ReferenceCellType::Pyramid => 5,
        }
    }

    /// The number of edges.
    pub open spec fn num_edges(self) -> nat {
        match self {
            ReferenceCellType::Interval => 1,
            ReferenceCellType::Triangle => 3,
            ReferenceCellType::Quadrilateral => 4,
            ReferenceCellType::Tetrahedron => 6,
            ReferenceCellType::Hexahedron => 12,
            ReferenceCellType::Prism => 9,
            ReferenceCellType::Pyramid => 8,
        }
    }

    /// The number of faces; a two-dimensional cell is its own single face.
    pub open spec fn num_faces(self) -> nat {
        match self {
            ReferenceCellType::Interval => 0,
            ReferenceCellType::Triangle => 1,
            ReferenceCellType::Quadrilateral => 1,
            ReferenceCellType::Tetrahedron => 4,
            ReferenceCellType::Hexahedron => 6,
            ReferenceCellType::Prism => 5,
            ReferenceCellType::Pyramid => 5,
        }
    }

    /// The number of volumes: one for a three-dimensional cell, else none.
    pub open spec fn num_volumes(self) -> nat {
        if self.tdim() == 3 {
            1
        } else {
            0
        }
    }

    /// The number of entities of dimension `dim`.
    pub open spec fn num_entities(self, dim: nat) -> nat {
        if dim == 0 {
            self.num_vertices()
        } else if dim == 1 {
            self.num_edges()
        } else if dim == 2 {
            self.num_faces()
        } else if dim == 3 {
            self.num_volumes()
        } else {
            0
        }
    }

    /// Where the vertex list of face `f` starts in `face_table`: the sum of
    /// the sizes of the faces before it.
    pub open spec fn face_start(self, f: int) -> int
        decreases f,
    {
        if f <= 0 || f > self.face_sizes().len() {
            0
        } else {
            self.face_start(f - 1) + self.face_sizes()[f - 1]
        }
    }

    /// Edges `e` and `f` join the same two vertices.
    pub open spec fn same_edge(self, e: int, f: int) -> bool {
        let t = self.edge_table();
        ||| t[2 * e] == t[2 * f] && t[2 * e + 1] == t[2 * f + 1]
        ||| t[2 * e] == t[2 * f + 1] && t[2 * e + 1] == t[2 * f]
    }

    /// The tables agree with the counts and with each other, and no two
    /// edges join the same vertices.
    pub open spec fn tables_consistent(self) -> bool {
        let nv = self.num_vertices();
        &&& self.vertex_table().len() == self.tdim() * nv
        &&& self.edge_table().len() == 2 * self.num_edges()
        &&& self.face_sizes().len() == self.num_faces()
        &&& self.face_start(self.num_faces() as int) == self.face_table().len()
        &&& forall|f: int| 0 <= f <= self.num_faces() ==> 0 <= #[trigger] self.face_start(f) <= self.face_table().len()
        &&& forall|f: int| 0 <= f < self.num_faces() ==> #[trigger] self.face_sizes()[f] >= 3
        &&& forall|k: int| 0 <= k < self.edge_table().len() ==> #[trigger] self.edge_table()[k] < nv
        &&& forall|k: int| 0 <= k < self.face_table().len() ==> #[trigger] self.face_table()[k] < nv
        &&& forall|e: int| 0 <= e < self.num_edges() ==> #[trigger] self.edge_table()[2 * e] != self.edge_table()[2 * e + 1]
        &&& forall|e: int, f: int|
            0 <= e < f < self.num_edges() ==> !#[trigger] self.same_edge(e, f)
        &&& self.volume_table().len() == (if self.tdim() == 3 { nv } else { 0 })
        &&& forall|k: int| 0 <= k < self.volume_table().len() ==> #[trigger] self.volume_table()[k] == k
    }

    /// Every cell's tables are consistent.
    pub proof fn lemma_tables_consistent(self)
        ensures
            self.tables_consistent(),
    {
        reveal_with_fuel(ReferenceCellType::face_start, 7);
    }

    /// The counts agree with the lengths of the tables: `tdim` coordinates
    /// per vertex, two vertices per edge and one size per face.
    pub proof fn lemma_counts_match_tables(self)
        ensures
            self.num_vertices() == self.vertex_table().len() / self.tdim(),
            self.num_edges() == self.edge_table().len() / 2,
            self.num_faces() == self.face_sizes().len(),
            self.num_volumes() == (if self.volume_table().len() > 0 { 1nat } else { 0 }),
    {
        self.lemma_tables_consistent();
        let d = self.tdim();
        assert(d * self.num_vertices() / d == self.num_vertices()) by (nonlinear_arith)
            requires
                d > 0,
        ;
    }

    /// The topological dimension of the cell.
    pub fn dim(self) -> (r: usize)
        ensures
            r == self.tdim(),
    {
        match self {
            ReferenceCellType::Interval => 1,
            ReferenceCellType::Triangle | ReferenceCellType::Quadrilateral => 2,
            _ => 3,
        }
    }

    /// The vertex coordinates, `dim()` of them per vertex.
    pub fn vertices(self) -> (r: Vec<i64>)
        ensures
            r@ == self.vertex_table(),
    {
        match self {
            ReferenceCellType::Interval => vec![0, 1],
            ReferenceCellType::Triangle => vec![0, 0, 1, 0, 0, 1],
            ReferenceCellType::Quadrilateral => vec![0, 0, 1, 0, 0, 1, 1, 1],
            ReferenceCellType::Tetrahedron => vec![0, 0, 0, 1, 0, 0, 0, 1, 0, 0, 0, 1],
            ReferenceCellType::Hexahedron => vec![
                0, 0, 0, 1, 0, 0, 0, 1, 0, 1, 1, 0,
                0, 0, 1, 1, 0, 1, 0, 1, 1, 1, 1, 1,
            ],
            ReferenceCellType::Prism => vec![
                0, 0, 0, 1, 0, 0, 0, 1, 0,
                0, 0, 1, 1, 0, 1, 0, 1, 1,
            ],
            ReferenceCellType::Pyramid => vec![0, 0, 0, 1, 0, 0, 0, 1, 0, 1, 1, 0, 0, 0, 1],
        }
    }

    /// The two end vertices of each edge, edge after edge.
    pub fn edges(self) -> (r: Vec<usize>)
        ensures
            r@ == self.edge_table(),
    {
        match self {
            ReferenceCellType::Interval => vec![0, 1],
            ReferenceCellType::Triangle => vec![1, 2, 0, 2, 0, 1],
            ReferenceCellType::Quadrilateral => vec![0, 1, 0, 2, 1, 3, 2, 3],
            ReferenceCellType::Tetrahedron => vec![2, 3, 1, 3, 1, 2, 0, 3, 0, 2, 0, 1],
            ReferenceCellType::Hexahedron => vec![
                0, 1, 0, 2, 0, 4, 1, 3, 1, 5, 2, 3,
                2, 6, 3, 7, 4, 5, 4, 6, 5, 7, 6, 7,
            ],
            ReferenceCellType::Prism => vec![0, 1, 0, 2, 0, 3, 1, 2, 1, 4, 2, 5, 3, 4, 3, 5, 4, 5],
            ReferenceCellType::Pyramid => vec![0, 1, 0, 2, 0, 4, 1, 3, 1, 4, 2, 3, 2, 4, 3, 4],
        }
    }

    /// The vertices of each face, face after face; `faces_nvertices` splits
    /// the list.
    pub fn faces(self) -> (r: Vec<usize>)
        ensures
            r@ == self.face_table(),
    {
        match self {
            ReferenceCellType::Interval => vec![],
            ReferenceCellType::Triangle => vec![0, 1, 2],
            ReferenceCellType::Quadrilateral => vec![0, 1, 2, 3],
            ReferenceCellType::Tetrahedron => vec![1, 2, 3, 0, 2, 3, 0, 1, 3, 0, 1, 2],
            ReferenceCellType::Hexahedron => vec![
                0, 1, 2, 3, 0, 1, 4, 5, 0, 2, 4, 6,
                1, 3, 5, 7, 2, 3, 6, 7, 4, 5, 6, 7,
            ],
            ReferenceCellType::Prism => vec![
                0, 1, 2, 0, 1, 3, 4, 0, 2, 3, 5, 1, 2, 4, 5, 3, 4, 5,
            ],
            ReferenceCellType::Pyramid => vec![0, 1, 2, 3, 0, 1, 4, 0, 2, 4, 1, 3, 4, 2, 3, 4],
        }
    }

    /// The number of vertices of each face.
    pub fn faces_nvertices(self) -> (r: Vec<usize>)
        ensures
            r@ == self.face_sizes(),
    {
        match self {
            ReferenceCellType::Interval => vec![],
            ReferenceCellType::Triangle => vec![3],
            ReferenceCellType::Quadrilateral => vec![4],
            ReferenceCellType::Tetrahedron => vec![3, 3, 3, 3],
            ReferenceCellType::Hexahedron => vec![4, 4, 4, 4, 4, 4],
            ReferenceCellType::Prism => vec![3, 4, 4, 4, 3],
            ReferenceCellType::Pyramid => vec![4, 3, 3, 3, 3],
        }
    }

    /// The vertices of the volume: all of them for a three-dimensional
    /// cell, none otherwise.
    pub fn volume(self) -> (r: Vec<usize>)
        ensures
            r@ == self.volume_table(),
    {
        match self {
            ReferenceCellType::Tetrahedron => vec![0, 1, 2, 3],
            ReferenceCellType::Hexahedron => vec![0, 1, 2, 3, 4, 5, 6, 7],
            ReferenceCellType::Prism => vec![0, 1, 2, 3, 4, 5],
            ReferenceCellType::Pyramid => vec![0, 1, 2, 3, 4],
            _ => vec![],
        }
    }

    /// The number of vertices.
    pub fn vertex_count(self) -> (r: usize)
        ensures
            r == self.num_vertices(),
    {
        match self {
            ReferenceCellType::Interval => 2,
            ReferenceCellType::Triangle => 3,
            ReferenceCellType::Quadrilateral => 4,
            ReferenceCellType::Tetrahedron => 4,
            ReferenceCellType::Hexahedron => 8,
            ReferenceCellType::Prism => 6,
            ReferenceCellType::Pyramid => 5,
        }
    }

    /// The number of edges.
    pub fn edge_count(self) -> (r: usize)
        ensures
            r == self.num_edges(),
    {
        match self {
            ReferenceCellType::Interval => 1,
            ReferenceCellType::Triangle => 3,
            ReferenceCellType::Quadrilateral => 4,
            ReferenceCellType::Tetrahedron => 6,
            ReferenceCellType::Hexahedron => 12,
            ReferenceCellType::Prism => 9,
            ReferenceCellType::Pyramid => 8,
        }
    }

    /// The number of faces.
    pub fn face_count(self) -> (r: usize)
        ensures
            r == self.num_faces(),
    {
        match self {
            ReferenceCellType::Interval => 0,
            ReferenceCellType::Triangle => 1,
            ReferenceCellType::Quadrilateral => 1,
            ReferenceCellType::Tetrahedron => 4,
            ReferenceCellType::Hexahedron => 6,
            ReferenceCellType::Prism => 5,
            ReferenceCellType::Pyramid => 5,
        }
    }

    /// The number of volumes.
    pub fn volume_count(self) -> (r: usize)
        ensures
            r == self.num_volumes(),
    {
        if self.dim() == 3 {
            1
        } else {
            0
        }
    }

    /// The number of entities of dimension `dim`, for `dim` up to 3; a
    /// dimension above 3 is refused.
    pub fn entity_count(self, dim: usize) -> (r: Result<usize, CellError>)
        ensures
            dim <= 3 ==> r is Ok && r->Ok_0 == self.num_entities(dim as nat),
            dim > 3 ==> r == Err::<usize, CellError>(CellError::InvalidEntity),
    {
        match dim {
            0 => Ok(self.vertex_count()),
            1 => Ok(self.edge_count()),
            2 => Ok(self.face_count()),
            3 => Ok(self.volume_count()),
            _ => Err(CellError::InvalidEntity),
        }
    }
}

} // verus!
