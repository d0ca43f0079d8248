//! Degree-one Lagrange elements on the interval, the triangle and the
//! quadrilateral.
use vstd::prelude::*;

use crate::cell::ReferenceCellType;
use crate::element::polynomial::{Bilinear, COORDINATE_BOUND};
use crate::element::{
    derivative_orders, num_derivatives, ElementError, ElementFamily, FiniteElement, TabulatedData,
};

verus! {

/// A degree-one Lagrange element exists on this cell.
pub open spec fn has_lagrange_degree_one(cell: ReferenceCellType) -> bool {
    ||| cell == ReferenceCellType::Interval
    ||| cell == ReferenceCellType::Triangle
    ||| cell == ReferenceCellType::Quadrilateral
}

/// Basis function `b` of the degree-one Lagrange element on `cell`: the one
/// that is 1 at vertex `b` and 0 at the other vertices.
pub open spec fn lagrange_basis(cell: ReferenceCellType, b: nat) -> Bilinear {
    match cell {
        ReferenceCellType::Interval => if b == 0 {
            Bilinear { constant: 1, x: -1i64, y: 0, xy: 0 }
        } else {
            Bilinear { constant: 0, x: 1, y: 0, xy: 0 }
        },
        ReferenceCellType::Triangle => if b == 0 {
            Bilinear { constant: 1, x: -1i64, y: -1i64, xy: 0 }
        } else if b == 1 {
            Bilinear { constant: 0, x: 1, y: 0, xy: 0 }
        } else {
            Bilinear { constant: 0, x: 0, y: 1, xy: 0 }
        },
        _ => if b == 0 {
            Bilinear { constant: 1, x: -1i64, y: -1i64, xy: 1 }
        } else if b == 1 {
            Bilinear { constant: 0, x: 1, y: 0, xy: -1i64 }
        } else if b == 2 {
            Bilinear { constant: 0, x: 0, y: 1, xy: -1i64 }
        } else {
            Bilinear { constant: 0, x: 0, y: 0, xy: 1 }
        },
    }
}

/// The highest total degree of the basis polynomials: 1 for the affine
/// elements, 2 for the bilinear one on the quadrilateral.
pub open spec fn polynomial_degree(cell: ReferenceCellType) -> nat {
    if cell == ReferenceCellType::Quadrilateral {
        2
    } else {
        1
    }
}

/// The coordinates of point `pt` of a flat list with `tdim` numerators per
/// point; a point on a line has second coordinate 0.
pub open spec fn point_of(cell: ReferenceCellType, points: Seq<i64>, pt: nat) -> (int, int) {
    if cell.tdim() == 1 {
        (points[pt as int] as int, 0)
    } else {
        (points[2 * pt as int] as int, points[2 * pt as int + 1] as int)
    }
}

/// The value that a tabulation holds for derivative row `deriv`, point `pt`
/// and basis function `b`: that derivative of the basis function at the
/// point `points / den`, times `den * den`.
pub open spec fn tabulated_value(
    cell: ReferenceCellType,
    points: Seq<i64>,
    den: int,
    deriv: nat,
    pt: nat,
    b: nat,
) -> int {
    let (dx, dy) = derivative_orders(cell.tdim(), deriv);
    let (px, py) = point_of(cell, points, pt);
    lagrange_basis(cell, b).partial(dx, dy).scaled_value(px, py, den)
}

/// Every numerator lies within the bound that exact evaluation accepts.
pub open spec fn coordinates_bounded(points: Seq<i64>) -> bool {
    forall|k: int| 0 <= k < points.len() ==> -COORDINATE_BOUND <= #[trigger] points[k] <= COORDINATE_BOUND
}

/// Entry `(d, p, b)` comes before entry `(k, pt, bb)` in the order in which
/// a tabulation fills the buffer.
spec fn filled_before(d: int, p: int, b: int, k: int, pt: int, bb: int) -> bool {
    ||| d < k
    ||| d == k && p < pt
    ||| d == k && p == pt && b < bb
}

/// A Lagrange element, checked when it is built.
pub struct LagrangeElement {
    celltype: ReferenceCellType,
    degree: usize,
}

impl LagrangeElement {
    #[verifier::type_invariant]
    spec fn supported(self) -> bool {
        has_lagrange_degree_one(self.celltype) && self.degree == 1
    }

    /// The Lagrange element of degree `degree` on `celltype`;
    /// `UnsupportedElement` unless the degree is 1 and the cell an interval,
    /// a triangle or a quadrilateral.
    pub fn new(celltype: ReferenceCellType, degree: usize) -> (r: Result<Self, ElementError>)
        ensures
            match r {
                Ok(e) => has_lagrange_degree_one(celltype) && degree == 1 && e.element_cell()
                    == celltype,
                Err(err) => !(has_lagrange_degree_one(celltype) && degree == 1) && err
                    == ElementError::UnsupportedElement,
            },
    {
        let supported = match celltype {
            ReferenceCellType::Interval => true,
            ReferenceCellType::Triangle => true,
            ReferenceCellType::Quadrilateral => true,
            _ => false,
        };
        if supported && degree == 1 {
            Ok(LagrangeElement { celltype, degree })
        } else {
            Err(ElementError::UnsupportedElement)
        }
    }
}

impl FiniteElement for LagrangeElement {
    closed spec fn element_cell(&self) -> ReferenceCellType {
        self.celltype
    }

    fn cell_type(&self) -> (r: ReferenceCellType) {
        proof {
            use_type_invariant(self);
        }
        self.celltype
    }

    fn degree(&self) -> (r: usize) {
        proof {
            use_type_invariant(self);
        }
        self.degree
    }
}

/// The degree-one Lagrange element on the interval.
pub struct LagrangeElementIntervalDegree1 {}

impl FiniteElement for LagrangeElementIntervalDegree1 {
    open spec fn element_cell(&self) -> ReferenceCellType {
        ReferenceCellType::Interval
    }

    fn cell_type(&self) -> (r: ReferenceCellType) {
        ReferenceCellType::Interval
    }
}

/// The degree-one Lagrange element on the triangle.
pub struct LagrangeElementTriangleDegree1 {}

impl FiniteElement for LagrangeElementTriangleDegree1 {
    open spec fn element_cell(&self) -> ReferenceCellType {
        ReferenceCellType::Triangle
    }

    fn cell_type(&self) -> (r: ReferenceCellType) {
        ReferenceCellType::Triangle
    }
}

/// The degree-one Lagrange element on the quadrilateral.
pub struct LagrangeElementQuadrilateralDegree1 {}

impl FiniteElement for LagrangeElementQuadrilateralDegree1 {
    open spec fn element_cell(&self) -> ReferenceCellType {
        ReferenceCellType::Quadrilateral
    }

    fn cell_type(&self) -> (r: ReferenceCellType) {
        ReferenceCellType::Quadrilateral
    }
}

/// Rows past the derivatives of order up to the element's polynomial degree
/// hold zeros: asking for more derivatives than the element has gives rows
/// of zeros, not an error.
pub proof fn lemma_excess_derivatives_vanish(
    cell: ReferenceCellType,
    points: Seq<i64>,
    den: int,
    deriv: nat,
    pt: nat,
    b: nat,
)
    requires
        has_lagrange_degree_one(cell),
        deriv >= num_derivatives(cell.tdim(), polynomial_degree(cell)),
    ensures
        tabulated_value(cell, points, den, deriv, pt, b) == 0,
{
    crate::element::lemma_rows_past_order(cell.tdim(), polynomial_degree(cell), deriv);
    let (dx, dy) = derivative_orders(cell.tdim(), deriv);
    let basis = lagrange_basis(cell, b);
    basis.lemma_partial_closed_form(dx, dy);
    let (px, py) = point_of(cell, points, pt);
    assert(basis.partial(dx, dy) == Bilinear::zero());
    assert(Bilinear::zero().scaled_value(px, py, den) == 0);
}

/// At the vertices of the cell, basis function `b` is 1 at vertex `b` and 0
/// at every other vertex.
pub proof fn lemma_basis_nodal(cell: ReferenceCellType, vertex: nat, b: nat)
    requires
        has_lagrange_degree_one(cell),
        vertex < cell.num_vertices(),
        b < cell.num_vertices(),
    ensures
        tabulated_value(cell, cell.vertex_table(), 1, 0, vertex, b) == (if vertex == b {
            1int
        } else {
            0
        }),
{
    let basis = lagrange_basis(cell, b);
    let table = cell.vertex_table();
    let (px, py) = point_of(cell, table, vertex);
    assert(derivative_orders(cell.tdim(), 0) == (0nat, 0nat));
    assert(basis.partial(0, 0) == basis);
    assert(tabulated_value(cell, table, 1, 0, vertex, b) == basis.scaled_value(px, py, 1));
    if cell == ReferenceCellType::Interval {
        assert(py == 0 && (px == 0 || px == 1));
    } else if vertex == 0 {
        assert(px == 0 && py == 0);
    } else if vertex == 1 {
        assert(px == 1 && py == 0);
    } else if vertex == 2 {
        assert(px == 0 && py == 1);
    } else {
        assert(px == 1 && py == 1);
    }
    basis.lemma_value_at_corner(px, py);
}

/// Basis function `b` of the degree-one Lagrange element on `cell`.
pub fn basis_function(cell: ReferenceCellType, b: usize) -> (r: Bilinear)
    requires
        has_lagrange_degree_one(cell),
        b < cell.num_vertices(),
    ensures
        r == lagrange_basis(cell, b as nat),
        r.has_unit_coefficients(),
{
    match cell {
        ReferenceCellType::Interval => if b == 0 {
            Bilinear { constant: 1, x: -1, y: 0, xy: 0 }
        } else {
            Bilinear { constant: 0, x: 1, y: 0, xy: 0 }
        },
        ReferenceCellType::Triangle => if b == 0 {
            Bilinear { constant: 1, x: -1, y: -1, xy: 0 }
        } else if b == 1 {
            Bilinear { constant: 0, x: 1, y: 0, xy: 0 }
        } else {
            Bilinear { constant: 0, x: 0, y: 1, xy: 0 }
        },
        _ => if b == 0 {
            Bilinear { constant: 1, x: -1, y: -1, xy: 1 }
        } else if b == 1 {
            Bilinear { constant: 0, x: 1, y: 0, xy: -1 }
        } else if b == 2 {
            Bilinear { constant: 0, x: 0, y: 1, xy: -1 }
        } else {
            Bilinear { constant: 0, x: 0, y: 0, xy: 1 }
        },
    }
}

/// Fill `data` with the values and derivatives of the degree-one Lagrange
/// basis on `cell` at the points `points / den`, each entry times
/// `den * den`.
pub(crate) fn tabulate_lagrange(
    cell: ReferenceCellType,
    points: &[i64],
    den: i64,
    nderivs: usize,
    data: &mut TabulatedData<i64>,
)
    requires
        has_lagrange_degree_one(cell),
        old(data).derivs() == num_derivatives(cell.tdim(), nderivs as nat),
        old(data).functions() == cell.num_vertices(),
        old(data).components() == 1,
        points@.len() == cell.tdim() * old(data).points(),
        0 < den <= COORDINATE_BOUND,
        coordinates_bounded(points@),
    ensures
        final(data).same_counts(*old(data)),
        forall|d: int, p: int, b: int|
            final(data).in_range(d, p, b, 0) ==> #[trigger] final(data).entry(d, p, b, 0)
                == tabulated_value(cell, points@, den as int, d as nat, p as nat, b as nat),
{
    let ghost counts = *data;
    let tdim = cell.dim();
    let nbasis = cell.vertex_count();
    let nrows = data.deriv_count();
    let npoints = data.point_count();
    let mut k: usize = 0;
    let mut dx: usize = 0;
    let mut dy: usize = 0;
    while k < nrows
        invariant
            0 <= k <= nrows == data.derivs(),
            npoints == data.points(),
            nbasis == data.functions() == cell.num_vertices(),
            tdim == cell.tdim(),
            has_lagrange_degree_one(cell),
            data.same_counts(counts),
            data.components() == 1,
            points@.len() == tdim * npoints,
            0 < den <= COORDINATE_BOUND,
            coordinates_bounded(points@),
            (dx as nat, dy as nat) == derivative_orders(tdim as nat, k as nat),
            dx + dy <= k,
            forall|d: int, p: int, b: int|
                data.in_range(d, p, b, 0) && d < k ==> #[trigger] data.entry(d, p, b, 0)
                    == tabulated_value(cell, points@, den as int, d as nat, p as nat, b as nat),
        decreases nrows - k,
    {
        let mut pt: usize = 0;
        while pt < npoints
            invariant
                0 <= k < nrows == data.derivs(),
                0 <= pt <= npoints == data.points(),
                nbasis == data.functions() == cell.num_vertices(),
                tdim == cell.tdim(),
                has_lagrange_degree_one(cell),
                data.same_counts(counts),
                data.components() == 1,
                points@.len() == tdim * npoints,
                0 < den <= COORDINATE_BOUND,
                coordinates_bounded(points@),
                (dx as nat, dy as nat) == derivative_orders(tdim as nat, k as nat),
                forall|d: int, p: int, b: int|
                    data.in_range(d, p, b, 0) && filled_before(d, p, b, k as int, pt as int, 0)
                        ==> #[trigger] data.entry(d, p, b, 0) == tabulated_value(
                        cell,
                        points@,
                        den as int,
                        d as nat,
                        p as nat,
                        b as nat,
                    ),
            decreases npoints - pt,
        {
            let px: i64;
            let py: i64;
            if tdim == 1 {
                px = points[pt];
                py = 0;
            } else {
                let len = points.len();
                assert(2 * pt + 1 < points@.len()) by (nonlinear_arith)
                    requires
                        pt < npoints,
                        points@.len() == tdim * npoints,
                        tdim == 2,
                ;
                px = points[2 * pt];
                py = points[2 * pt + 1];
            }
            assert(point_of(cell, points@, pt as nat) == (px as int, py as int));
            let mut b: usize = 0;
            while b < nbasis
                invariant
                    0 <= k < nrows == data.derivs(),
                    0 <= pt < npoints == data.points(),
                    0 <= b <= nbasis == data.functions() == cell.num_vertices(),
                    tdim == cell.tdim(),
                    has_lagrange_degree_one(cell),
                    data.same_counts(counts),
                    data.components() == 1,
                    0 < den <= COORDINATE_BOUND,
                    -COORDINATE_BOUND <= px <= COORDINATE_BOUND,
                    -COORDINATE_BOUND <= py <= COORDINATE_BOUND,
                    point_of(cell, points@, pt as nat) == (px as int, py as int),
                    (dx as nat, dy as nat) == derivative_orders(tdim as nat, k as nat),
                    forall|d: int, p: int, bf: int|
                        data.in_range(d, p, bf, 0) && filled_before(
                            d,
                            p,
                            bf,
                            k as int,
                            pt as int,
                            b as int,
                        ) ==> #[trigger] data.entry(d, p, bf, 0) == tabulated_value(
                            cell,
                            points@,
                            den as int,
                            d as nat,
                            p as nat,
                            bf as nat,
                        ),
                decreases nbasis - b,
            {
                let basis = basis_function(cell, b);
                proof {
                    basis.lemma_partial_unit_coefficients(dx as nat, dy as nat);
                }
                let value = basis.partial_derivative(dx, dy).evaluate_scaled(px, py, den);
                assert(value == tabulated_value(
                    cell,
                    points@,
                    den as int,
                    k as nat,
                    pt as nat,
                    b as nat,
                ));
                proof {
                    crate::element::lemma_flat_index(
                        k as int,
                        pt as int,
                        b as int,
                        0,
                        data.derivs() as int,
                        data.points() as int,
                        data.functions() as int,
                        1,
                    );
                }
                let ghost before = *data;
                let _ = data.set(k, pt, b, 0, value);
                assert forall|d: int, p: int, bf: int|
                    data.in_range(d, p, bf, 0) && filled_before(
                        d,
                        p,
                        bf,
                        k as int,
                        pt as int,
                        b + 1,
                    ) implies #[trigger] data.entry(d, p, bf, 0) == tabulated_value(
                    cell,
                    points@,
                    den as int,
                    d as nat,
                    p as nat,
                    bf as nat,
                ) by {
                    crate::element::lemma_flat_index(
                        d,
                        p,
                        bf,
                        0,
                        data.derivs() as int,
                        data.points() as int,
                        data.functions() as int,
                        1,
                    );
                    if d != k || p != pt || bf != b {
                        assert(before.in_range(d, p, bf, 0));
                        assert(before.entry(d, p, bf, 0) == tabulated_value(
                            cell,
                            points@,
                            den as int,
                            d as nat,
                            p as nat,
                            bf as nat,
                        ));
                        assert(data.index_of(d, p, bf, 0) != data.index_of(
                            k as int,
                            pt as int,
                            b as int,
                            0,
                        ));
                    }
                }
                b = b + 1;
            }
            pt = pt + 1;
        }
        if tdim == 1 {
            dx = dx + 1;
        } else if dx == 0 {
            dx = dy + 1;
            dy = 0;
        } else {
            dx = dx - 1;
            dy = dy + 1;
        }
        k = k + 1;
    }
}

} // verus!
