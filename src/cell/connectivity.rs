//! The connectivity between the entities of a reference cell, derived from
//! the vertex lists of the catalog.
use vstd::prelude::*;

use crate::cell::{CellError, ReferenceCellType};

verus! {

/// Every vertex of `a` is a vertex of `b`.
pub open spec fn vertices_within(a: Seq<usize>, b: Seq<usize>) -> bool {
    forall|k: int| 0 <= k < a.len() ==> b.contains(#[trigger] a[k])
}

impl ReferenceCellType {
    /// Entity `i` of dimension `dim` exists in this cell.
    pub open spec fn is_entity(self, dim: nat, i: nat) -> bool {
        dim <= self.tdim() && i < self.num_entities(dim)
    }

    /// The vertices of entity `i` of dimension `dim`, as the catalog lists
    /// them: the vertex itself, the two ends of an edge, the vertices of a
    /// face, or all the vertices of the volume.
    pub open spec fn entity_vertices(self, dim: nat, i: nat) -> Seq<usize> {
        if dim == 0 {
            seq![i as usize]
        } else if dim == 1 {
            self.edge_table().subrange(2 * i as int, 2 * i as int + 2)
        } else if dim == 2 {
            let start = self.face_start(i as int);
            self.face_table().subrange(start, start + self.face_sizes()[i as int])
        } else {
            self.volume_table()
        }
    }

    /// Entity `j` of dimension `q` touches entity `i` of dimension `p`: the
    /// vertices of the lower-dimensional one are among those of the other.
    pub open spec fn incident(self, p: nat, i: nat, q: nat, j: nat) -> bool {
        if p < q {
            vertices_within(self.entity_vertices(p, i), self.entity_vertices(q, j))
        } else {
            vertices_within(self.entity_vertices(q, j), self.entity_vertices(p, i))
        }
    }

    /// The entities of dimension `q` numbered below `n` that touch entity
    /// `i` of dimension `p`, in ascending order.
    pub open spec fn incident_below(self, p: nat, i: nat, q: nat, n: nat) -> Seq<usize>
        decreases n,
    {
        if n == 0 {
            seq![]
        } else {
            let before = self.incident_below(p, i, q, (n - 1) as nat);
            if self.incident(p, i, q, (n - 1) as nat) {
                before.push((n - 1) as usize)
            } else {
                before
            }
        }
    }

    /// The entities of dimension `q` connected to entity `i` of dimension
    /// `p`: the entity itself when `p == q`, its vertex list when `q == 0`,
    /// and otherwise every entity of dimension `q` that it touches, in
    /// ascending order.
    pub open spec fn connected(self, p: nat, i: nat, q: nat) -> Seq<usize> {
        if p == q {
            seq![i as usize]
        } else if q == 0 {
            self.entity_vertices(p, i)
        } else {
            self.incident_below(p, i, q, self.num_entities(q))
        }
    }

    /// An entry of a scan is below the bound of the scan and touches the
    /// entity; every such number is listed; the list is strictly ascending.
    pub proof fn lemma_incident_below(self, p: nat, i: nat, q: nat, n: nat)
        requires
            n <= usize::MAX,
        ensures
            forall|j: nat|
                #![trigger self.incident(p, i, q, j)]
                #![trigger self.incident_below(p, i, q, n).contains(j as usize)]
                j <= usize::MAX ==> (self.incident_below(p, i, q, n).contains(j as usize) <==> (j < n
                    && self.incident(p, i, q, j))),
            forall|a: int, b: int|
                0 <= a < b < self.incident_below(p, i, q, n).len() ==> #[trigger] self.incident_below(
                    p,
                    i,
                    q,
                    n,
                )[a] < #[trigger] self.incident_below(p, i, q, n)[b],
            forall|a: int|
                0 <= a < self.incident_below(p, i, q, n).len() ==> #[trigger] self.incident_below(
                    p,
                    i,
                    q,
                    n,
                )[a] < n,
        decreases n,
    {
        if n > 0 {
            let m = (n - 1) as nat;
            self.lemma_incident_below(p, i, q, m);
            let before = self.incident_below(p, i, q, m);
            if self.incident(p, i, q, m) {
                let ext = before.push(m as usize);
                assert forall|j: nat| j <= usize::MAX implies (ext.contains(j as usize) <==> (j < n
                    && self.incident(p, i, q, j))) by {
                    if ext.contains(j as usize) {
                        let k = choose|k: int| 0 <= k < ext.len() && ext[k] == j as usize;
                        if k < before.len() {
                            assert(before[k] == ext[k]);
                            assert(before.contains(j as usize));
                        }
                    }
                    if j < n && self.incident(p, i, q, j) && j != m {
                        assert(before.contains(j as usize));
                        let k = choose|k: int| 0 <= k < before.len() && before[k] == j as usize;
                        assert(ext[k] == j as usize);
                    }
                    if j == m {
                        assert(ext[before.len() as int] == m as usize);
                    }
                };
            } else {
                assert forall|j: nat| j <= usize::MAX implies (before.contains(j as usize) <==> (j < n
                    && self.incident(p, i, q, j))) by {
                    if before.contains(j as usize) {
                        assert(j < m);
                    }
                };
            }
        }
    }

    /// An entity is connected to itself alone at its own dimension.
    pub proof fn lemma_connectivity_reflexive(self, p: nat, i: nat)
        requires
            self.is_entity(p, i),
        ensures
            self.connected(p, i, p) == seq![i as usize],
    {
    }

    /// Every number that a connectivity list holds is an entity of the
    /// connected dimension, and its vertices and those of the queried entity
    /// contain one another: the lower-dimensional one lies within the other.
    pub proof fn lemma_connectivity_containment(self, p: nat, i: nat, q: nat, j: nat)
        requires
            self.is_entity(p, i),
            q <= self.tdim(),
            p != q,
            j <= usize::MAX,
            self.connected(p, i, q).contains(j as usize),
        ensures
            self.is_entity(q, j),
            p < q ==> vertices_within(self.entity_vertices(p, i), self.entity_vertices(q, j)),
            p > q ==> vertices_within(self.entity_vertices(q, j), self.entity_vertices(p, i)),
    {
        self.lemma_tables_consistent();
        if q == 0 {
            let verts = self.entity_vertices(p, i);
            let k = choose|k: int| 0 <= k < verts.len() && verts[k] == j as usize;
            self.lemma_entity_vertices_valid(p, i);
            assert(verts[k] < self.num_vertices());
            assert(self.entity_vertices(0, j)[0] == j as usize);
        } else {
            self.lemma_incident_below(p, i, q, self.num_entities(q));
        }
    }

    /// The vertices of an entity are vertices of the cell.
    pub proof fn lemma_entity_vertices_valid(self, dim: nat, i: nat)
        requires
            self.is_entity(dim, i),
        ensures
            forall|k: int|
                0 <= k < self.entity_vertices(dim, i).len() ==> #[trigger] self.entity_vertices(
                    dim,
                    i,
                )[k] < self.num_vertices(),
    {
        self.lemma_tables_consistent();
        let verts = self.entity_vertices(dim, i);
        assert forall|k: int| 0 <= k < verts.len() implies #[trigger] verts[k]
            < self.num_vertices() by {
            if dim == 1 {
                assert(verts[k] == self.edge_table()[2 * i + k]);
            } else if dim == 2 {
                let start = self.face_start(i as int);
                assert(self.face_start(i as int + 1) <= self.face_table().len());
                assert(verts[k] == self.face_table()[start + k]);
            } else if dim == 3 {
                assert(verts[k] == self.volume_table()[k]);
            }
        }
    }

    /// Connectivity is symmetric: entity `j` of dimension `q` is in the list
    /// of entity `i` of dimension `p` exactly when `i` is in the list of `j`.
    pub proof fn lemma_connectivity_symmetric(self, p: nat, i: nat, q: nat, j: nat)
        requires
            self.is_entity(p, i),
            self.is_entity(q, j),
            p != q,
        ensures
            self.connected(p, i, q).contains(j as usize) <==> self.connected(q, j, p).contains(
                i as usize,
            ),
    {
        self.lemma_tables_consistent();
        if q == 0 {
            self.lemma_vertex_listed_iff_incident(p, i, j);
        } else if p == 0 {
            self.lemma_vertex_listed_iff_incident(q, j, i);
        } else {
            self.lemma_incident_below(p, i, q, self.num_entities(q));
            self.lemma_incident_below(q, j, p, self.num_entities(p));
        }
    }

    /// A vertex is in the vertex list of an entity exactly when the entity
    /// is in the list of entities connected to the vertex.
    proof fn lemma_vertex_listed_iff_incident(self, p: nat, i: nat, v: nat)
        requires
            self.is_entity(p, i),
            self.is_entity(0, v),
            p > 0,
        ensures
            self.connected(p, i, 0).contains(v as usize) <==> self.connected(0, v, p).contains(
                i as usize,
            ),
    {
        self.lemma_tables_consistent();
        self.lemma_incident_below(0, v, p, self.num_entities(p));
        let verts = self.entity_vertices(p, i);
        let single = self.entity_vertices(0, v);
        assert(single[0] == v as usize);
        if verts.contains(v as usize) {
            assert(vertices_within(single, verts));
        }
        if vertices_within(single, verts) {
            assert(verts.contains(single[0]));
        }
    }

    /// Each edge listed for a vertex has that vertex among its ends.
    pub proof fn lemma_vertex_edge_symmetry(self, i: nat, j: nat)
        requires
            i < self.num_vertices(),
            j <= usize::MAX,
            self.connected(0, i, 1).contains(j as usize),
        ensures
            self.connected(1, j, 0).contains(i as usize),
    {
        self.lemma_connectivity_containment(0, i, 1, j);
        self.lemma_connectivity_symmetric(0, i, 1, j);
    }

    /// The vertices of entity `entity_number` of dimension `dim`.
    fn entity_vertex_list(self, dim: usize, entity_number: usize) -> (r: Vec<usize>)
        requires
            self.is_entity(dim as nat, entity_number as nat),
        ensures
            r@ == self.entity_vertices(dim as nat, entity_number as nat),
    {
        proof {
            self.lemma_tables_consistent();
        }
        if dim == 0 {
            let r = vec![entity_number];
            assert(r@ =~= self.entity_vertices(0, entity_number as nat));
            r
        } else if dim == 1 {
            let edges = self.edges();
            let r = vec![edges[2 * entity_number], edges[2 * entity_number + 1]];
            assert(r@ =~= self.entity_vertices(1, entity_number as nat));
            r
        } else if dim == 2 {
            let faces = self.faces();
            let sizes = self.faces_nvertices();
            let mut start: usize = 0;
            let mut f: usize = 0;
            while f < entity_number
                invariant
                    f <= entity_number < sizes@.len() == self.num_faces(),
                    sizes@ == self.face_sizes(),
                    faces@ == self.face_table(),
                    self.tables_consistent(),
                    start == self.face_start(f as int),
                decreases entity_number - f,
            {
                start = start + sizes[f];
                f = f + 1;
            }
            assert(self.face_start(entity_number as int + 1) <= faces@.len());
            let end = start + sizes[entity_number];
            let mut r: Vec<usize> = Vec::new();
            let mut k: usize = start;
            while k < end
                invariant
                    start <= k <= end <= faces@.len(),
                    faces@ == self.face_table(),
                    r@ == faces@.subrange(start as int, k as int),
                decreases end - k,
            {
                r.push(faces[k]);
                k = k + 1;
                assert(r@ =~= faces@.subrange(start as int, k as int));
            }
            r
        } else {
            self.volume()
        }
    }

    /// Get the entities connected to an entity.
    ///
    /// Returns the numbers of the entities of dimension `connected_dim`
    /// attached to entity `entity_number` of dimension `entity_dim`: for
    /// example `connectivity(1, 0, 2)` lists the faces that hold edge 0.
    /// A dimension above the cell's own, or an entity number past the
    /// entities of `entity_dim`, gives `InvalidEntity`.
    pub fn connectivity(self, entity_dim: usize, entity_number: usize, connected_dim: usize) -> (r:
        Result<Vec<usize>, CellError>)
        ensures
            match r {
                Ok(v) => {
                    &&& self.is_entity(entity_dim as nat, entity_number as nat)
                    &&& connected_dim <= self.tdim()
                    &&& v@ == self.connected(
                        entity_dim as nat,
                        entity_number as nat,
                        connected_dim as nat,
                    )
                },
                Err(e) => {
                    &&& !(self.is_entity(entity_dim as nat, entity_number as nat)
                        && connected_dim <= self.tdim())
                    &&& e == CellError::InvalidEntity
                },
            },
    {
        let tdim = self.dim();
        if entity_dim > tdim || connected_dim > tdim {
            return Err(CellError::InvalidEntity);
        }
        let count = match self.entity_count(entity_dim) {
            Ok(n) => n,
            Err(e) => {
                return Err(e);
            },
        };
        if entity_number >= count {
            return Err(CellError::InvalidEntity);
        }
        if entity_dim == connected_dim {
            let r = vec![entity_number];
            assert(r@ =~= seq![entity_number]);
            return Ok(r);
        }
        let own = self.entity_vertex_list(entity_dim, entity_number);
        if connected_dim == 0 {
            return Ok(own);
        }
        let other_count = match self.entity_count(connected_dim) {
            Ok(n) => n,
            Err(e) => {
                return Err(e);
            },
        };
        let mut found: Vec<usize> = Vec::new();
        let mut j: usize = 0;
        while j < other_count
            invariant
                j <= other_count == self.num_entities(connected_dim as nat),
                connected_dim <= self.tdim(),
                own@ == self.entity_vertices(entity_dim as nat, entity_number as nat),
                found@ == self.incident_below(
                    entity_dim as nat,
                    entity_number as nat,
                    connected_dim as nat,
                    j as nat,
                ),
            decreases other_count - j,
        {
            let other = self.entity_vertex_list(connected_dim, j);
            let touches = if entity_dim < connected_dim {
                all_within(&own, &other)
            } else {
                all_within(&other, &own)
            };
            if touches {
                found.push(j);
            }
            j = j + 1;
        }
        Ok(found)
    }
}

/// Whether every vertex of `a` is a vertex of `b`.
fn all_within(a: &Vec<usize>, b: &Vec<usize>) -> (r: bool)
    ensures
        r == vertices_within(a@, b@),
{
    let mut k: usize = 0;
    while k < a.len()
        invariant
            k <= a@.len(),
            forall|m: int| 0 <= m < k ==> b@.contains(#[trigger] a@[m]),
        decreases a.len() - k,
    {
        let mut found = false;
        let mut m: usize = 0;
        while m < b.len()
            invariant
                m <= b@.len(),
                k < a@.len(),
                found == (exists|n: int| 0 <= n < m && b@[n] == a@[k as int]),
            decreases b.len() - m,
        {
            if b[m] == a[k] {
                found = true;
            }
            m = m + 1;
        }
        if !found {
            assert(!b@.contains(a@[k as int]));
            return false;
        }
        k = k + 1;
    }
    true
}

} // verus!
