//! Finite elements and the buffers that their tabulations fill.
use vstd::prelude::*;

use crate::cell::ReferenceCellType;
use lagrange::{basis_function, coordinates_bounded, has_lagrange_degree_one, tabulate_lagrange};
use polynomial::{Bilinear, COORDINATE_BOUND};

pub mod lagrange;
pub mod polynomial;

pub use lagrange::{
    LagrangeElement, LagrangeElementIntervalDegree1, LagrangeElementQuadrilateralDegree1,
    LagrangeElementTriangleDegree1,
};


verus! {

/// The family of a finite element.
#[derive(Debug, Clone, Copy, PartialEq, Eq, Hash, Structural)]
pub enum ElementFamily {
    Lagrange,
}

/// Why an element could not be built.
#[derive(Debug, Clone, Copy, PartialEq, Eq, Structural)]
pub enum ElementError {
    /// No element of the requested family and degree exists on that cell.
    UnsupportedElement,
}

/// Why a tabulation buffer refused an access.
#[derive(Debug, Clone, Copy, PartialEq, Eq, Structural)]
pub enum TabulationError {
    /// One of the four indices is at or past its count.
    IndexOutOfBounds,
}

/// A finite element: a degree-one Lagrange element on an interval, a
/// triangle or a quadrilateral, with one basis function per vertex of the
/// cell and scalar values.
pub trait FiniteElement {
    /// The cell on which the element lives.
    spec fn element_cell(&self) -> ReferenceCellType;

    /// The cell on which the element lives.
    fn cell_type(&self) -> (r: ReferenceCellType)
        ensures
            r == self.element_cell(),
            has_lagrange_degree_one(r),
    ;

    /// The polynomial degree of the element.
    fn degree(&self) -> (r: usize)
        ensures
            r == 1,
    {
        1
    }

    /// The highest degree of the element's polynomial space, as a Lagrange
    /// degree.
    fn highest_degree(&self) -> (r: usize)
        ensures
            r == 1,
    {
        self.degree()
    }

    /// The family of the element.
    fn family(&self) -> (r: ElementFamily)
        ensures
            r == ElementFamily::Lagrange,
    {
        ElementFamily::Lagrange
    }

    /// Whether the element is discontinuous between cells.
    fn discontinuous(&self) -> (r: bool)
        ensures
            !r,
    {
        false
    }

    /// The number of basis functions: one per vertex of the cell.
    fn dim(&self) -> (r: usize)
        ensures
            r == self.element_cell().num_vertices(),
    {
        self.cell_type().vertex_count()
    }

    /// The number of components of each basis function's value.
    fn value_size(&self) -> (r: usize)
        ensures
            r == 1,
    {
        1
    }

    /// The derivative of basis function `basis` that row `deriv` of a
    /// tabulation holds, as a polynomial in the cell's coordinates.
    fn basis_derivative(&self, deriv: usize, basis: usize) -> (r: Bilinear)
        requires
            basis < self.element_cell().num_vertices(),
        ensures
            ({
                let (dx, dy) = derivative_orders(self.element_cell().tdim(), deriv as nat);
                r == lagrange::lagrange_basis(self.element_cell(), basis as nat).partial(dx, dy)
            }),
    {
        let cell = self.cell_type();
        let (dx, dy) = derivative_orders_of(cell.dim(), deriv);
        basis_function(cell, basis).partial_derivative(dx, dy)
    }

    /// Tabulate the basis functions and their derivatives up to order
    /// `nderivs` at the points `points / denominator`, `dim` numerators per
    /// point, into `data`, a buffer made for this element, `nderivs` and the
    /// number of points. Each entry is the exact value times
    /// `denominator * denominator`; the rows of derivatives that vanish on
    /// this element are filled with zeros.
    fn tabulate(
        &self,
        points: &[i64],
        denominator: i64,
        nderivs: usize,
        data: &mut TabulatedData<i64>,
    )
        requires
            old(data).derivs() == num_derivatives(self.element_cell().tdim(), nderivs as nat),
            old(data).functions() == self.element_cell().num_vertices(),
            old(data).components() == 1,
            points@.len() == self.element_cell().tdim() * old(data).points(),
            0 < denominator <= COORDINATE_BOUND,
            coordinates_bounded(points@),
        ensures
            final(data).same_counts(*old(data)),
            forall|d: int, p: int, b: int|
                final(data).in_range(d, p, b, 0) ==> #[trigger] final(data).entry(d, p, b, 0)
                    == lagrange::tabulated_value(
                    self.element_cell(),
                    points@,
                    denominator as int,
                    d as nat,
                    p as nat,
                    b as nat,
                ),
    {
        let cell = self.cell_type();
        tabulate_lagrange(cell, points, denominator, nderivs, data);
    }
}

/// The triangular number of `t`, if `usize` can hold it.
fn checked_triangular(t: usize) -> (r: Option<usize>)
    ensures
        triangular(t as nat) <= usize::MAX ==> r == Some(triangular(t as nat) as usize),
        triangular(t as nat) > usize::MAX ==> r is None,
{
    proof {
        lemma_triangular(t as nat);
    }
    let next = match t.checked_add(1) {
        Some(n) => n,
        None => {
            proof {
                lemma_triangular_at_least((t - 1) as nat);
                assert(triangular(t as nat) == triangular((t - 1) as nat) + t);
            }
            return None;
        },
    };
    let ghost tri = triangular(t as nat) as int;
    if t % 2 == 0 {
        let half = t / 2;
        proof {
            assert(tri == half * next) by (nonlinear_arith)
                requires
                    2 * tri == t * (t + 1),
                    t == 2 * half,
                    next == t + 1,
            ;
        }
        half.checked_mul(next)
    } else {
        let half = next / 2;
        proof {
            assert(tri == t * half) by (nonlinear_arith)
                requires
                    2 * tri == t * (t + 1),
                    next == 2 * half,
                    next == t + 1,
            ;
        }
        t.checked_mul(half)
    }
}

/// A triangular number is at least its argument.
proof fn lemma_triangular_at_least(t: nat)
    ensures
        triangular(t) >= t,
    decreases t,
{
    if t > 0 {
        lemma_triangular_at_least((t - 1) as nat);
    }
}

/// The number of derivative rows for `nderivs` orders in `tdim` variables.
pub fn derivative_count(tdim: usize, nderivs: usize) -> (r: usize)
    requires
        tdim == 1 || tdim == 2,
        num_derivatives(tdim as nat, nderivs as nat) <= usize::MAX,
    ensures
        r == num_derivatives(tdim as nat, nderivs as nat),
{
    if tdim == 1 {
        return nderivs + 1;
    }
    proof {
        lemma_num_derivatives_triangular(nderivs as nat);
        lemma_triangular_at_least(nderivs as nat + 1);
    }
    match checked_triangular(nderivs + 1) {
        Some(n) => n,
        None => 0,
    }
}

/// The orders `(dx, dy)` of the derivative that row `k` holds.
pub fn derivative_orders_of(tdim: usize, k: usize) -> (r: (usize, usize))
    requires
        tdim == 1 || tdim == 2,
    ensures
        (r.0 as nat, r.1 as nat) == derivative_orders(tdim as nat, k as nat),
{
    if tdim == 1 {
        return (k, 0);
    }
    let mut dx: usize = 0;
    let mut dy: usize = 0;
    let mut row: usize = 0;
    while row < k
        invariant
            tdim == 2,
            row <= k,
            (dx as nat, dy as nat) == derivative_orders(2, row as nat),
            dx + dy <= row,
        decreases k - row,
    {
        if dx == 0 {
            dx = dy + 1;
            dy = 0;
        } else {
            dx = dx - 1;
            dy = dy + 1;
        }
        row = row + 1;
    }
    (dx, dy)
}

/// The triangular number `t * (t + 1) / 2`.
pub open spec fn triangular(t: nat) -> nat
    decreases t,
{
    if t == 0 {
        0
    } else {
        triangular((t - 1) as nat) + t
    }
}

/// The number of partial derivatives of order at most `nderivs` in `tdim`
/// variables, the value itself included: `nderivs + 1` on a line,
/// `(nderivs + 1)(nderivs + 2) / 2` in the plane.
pub open spec fn num_derivatives(tdim: nat, nderivs: nat) -> nat {
    if tdim == 1 {
        nderivs + 1
    } else {
        (nderivs + 1) * (nderivs + 2) / 2
    }
}

/// In the plane the number of derivative rows is a triangular number.
pub proof fn lemma_num_derivatives_triangular(nderivs: nat)
    ensures
        num_derivatives(2, nderivs) == triangular(nderivs + 1),
{
    let n = nderivs + 1;
    lemma_triangular(n);
    let tri = triangular(n) as int;
    assert((nderivs + 1) * (nderivs + 2) == 2 * tri);
    assert((nderivs + 1) * (nderivs + 2) / 2 == tri) by (nonlinear_arith)
        requires
            (nderivs + 1) * (nderivs + 2) == 2 * tri,
    ;
}

/// The orders `(dx, dy)` of the derivative that row `k` of a tabulation
/// holds. On a line row `k` is the `k`-th derivative. In the plane the rows
/// go by total order, and within one order from `d/dx` towards `d/dy`:
/// `(0, 0), (1, 0), (0, 1), (2, 0), (1, 1), (0, 2), ...`.
pub open spec fn derivative_orders(tdim: nat, k: nat) -> (nat, nat)
    decreases k,
{
    if tdim == 1 {
        (k, 0)
    } else if k == 0 {
        (0, 0)
    } else {
        let (dx, dy) = derivative_orders(tdim, (k - 1) as nat);
        if dx == 0 {
            (dy + 1, 0)
        } else {
            ((dx - 1) as nat, dy + 1)
        }
    }
}

/// `2 * triangular(t) == t * (t + 1)`.
pub proof fn lemma_triangular(t: nat)
    ensures
        2 * triangular(t) == t * (t + 1),
    decreases t,
{
    if t > 0 {
        let s = (t - 1) as nat;
        lemma_triangular(s);
        let (a, b) = (triangular(s) as int, triangular(t) as int);
        assert(b == a + t);
        assert(2 * b == t * (t + 1)) by (nonlinear_arith)
            requires
                2 * a == s * (s + 1),
                b == a + t,
                s + 1 == t,
        ;
    } else {
        assert(t * (t + 1) == 0) by (nonlinear_arith)
            requires
                t == 0,
        ;
    }
}

/// Triangular numbers grow with their argument.
pub proof fn lemma_triangular_monotone(s: nat, t: nat)
    requires
        s <= t,
    ensures
        triangular(s) <= triangular(t),
    decreases t - s,
{
    if s < t {
        lemma_triangular_monotone(s, (t - 1) as nat);
    }
}

/// In the plane, row `k` holds the derivative of total order `t` with
/// `k == triangular(t) + dy`.
pub proof fn lemma_derivative_orders_index(k: nat)
    ensures
        ({
            let (dx, dy) = derivative_orders(2, k);
            k == triangular(dx + dy) + dy
        }),
    decreases k,
{
    if k > 0 {
        lemma_derivative_orders_index((k - 1) as nat);
    }
}

/// A row at or past the rows of order up to `n` holds a derivative of
/// total order above `n`.
pub proof fn lemma_rows_past_order(tdim: nat, n: nat, k: nat)
    requires
        tdim == 1 || tdim == 2,
        k >= num_derivatives(tdim, n),
    ensures
        ({
            let (dx, dy) = derivative_orders(tdim, k);
            dx + dy > n
        }),
{
    if tdim == 2 {
        lemma_num_derivatives_triangular(n);
        lemma_derivative_orders_index(k);
        let (dx, dy) = derivative_orders(2, k);
        let t = dx + dy;
        if t <= n {
            lemma_triangular_monotone(t + 1, n + 1);
            assert(triangular(t + 1) == triangular(t) + t + 1);
        }
    }
}

/// The position of entry `(deriv, point, basis, component)` in a buffer
/// with `point_count` points, `basis_count` functions and `value_size`
/// components.
pub open spec fn flat_index(
    deriv: int,
    point: int,
    basis: int,
    component: int,
    point_count: int,
    basis_count: int,
    value_size: int,
) -> int {
    ((deriv * point_count + point) * basis_count + basis) * value_size + component
}

/// `x * n + y` with `y < n` lies below `m * n` when `x < m`, and determines
/// `x` and `y`.
proof fn lemma_mixed_radix(x: int, y: int, m: int, n: int)
    requires
        0 <= x < m,
        0 <= y < n,
    ensures
        0 <= x * n + y < m * n,
        forall|x2: int, y2: int|
            0 <= x2 && 0 <= y2 < n && #[trigger] (x2 * n + y2) == x * n + y ==> x2 == x && y2 == y,
{
    assert(0 <= x * n + y < m * n) by (nonlinear_arith)
        requires
            0 <= x < m,
            0 <= y < n,
    ;
    assert forall|x2: int, y2: int|
        0 <= x2 && 0 <= y2 < n && #[trigger] (x2 * n + y2) == x * n + y implies x2 == x && y2
        == y by {
        if x2 < x {
            assert(x2 * n + y2 < x * n) by (nonlinear_arith)
                requires
                    0 <= x2 < x,
                    0 <= y2 < n,
            ;
        }
        if x2 > x {
            assert(x * n + y < x2 * n) by (nonlinear_arith)
                requires
                    0 <= x < x2,
                    0 <= y < n,
            ;
        }
    }
}

/// Entries within the counts sit below the length of the buffer, each at
/// its own position.
pub proof fn lemma_flat_index(
    d: int,
    p: int,
    b: int,
    c: int,
    dc: int,
    pc: int,
    bc: int,
    vs: int,
)
    requires
        0 <= d < dc,
        0 <= p < pc,
        0 <= b < bc,
        0 <= c < vs,
    ensures
        0 <= flat_index(d, p, b, c, pc, bc, vs) < dc * pc * bc * vs,
        forall|d2: int, p2: int, b2: int, c2: int|
            0 <= d2 < dc && 0 <= p2 < pc && 0 <= b2 < bc && 0 <= c2 < vs && #[trigger] flat_index(
                d2,
                p2,
                b2,
                c2,
                pc,
                bc,
                vs,
            ) == flat_index(d, p, b, c, pc, bc, vs) ==> d2 == d && p2 == p && b2 == b && c2 == c,
{
    lemma_mixed_radix(d, p, dc, pc);
    lemma_mixed_radix(d * pc + p, b, dc * pc, bc);
    lemma_mixed_radix((d * pc + p) * bc + b, c, dc * pc * bc, vs);
    assert forall|d2: int, p2: int, b2: int, c2: int|
        0 <= d2 < dc && 0 <= p2 < pc && 0 <= b2 < bc && 0 <= c2 < vs && #[trigger] flat_index(
            d2,
            p2,
            b2,
            c2,
            pc,
            bc,
            vs,
        ) == flat_index(d, p, b, c, pc, bc, vs) implies d2 == d && p2 == p && b2 == b && c2
        == c by {
        lemma_mixed_radix(d2, p2, dc, pc);
        lemma_mixed_radix(d2 * pc + p2, b2, dc * pc, bc);
        assert((d2 * pc + p2) * bc + b2 >= 0);
        assert(((d2 * pc + p2) * bc + b2) * vs + c2 == ((d * pc + p) * bc + b) * vs + c);
        assert((d2 * pc + p2) * bc + b2 == (d * pc + p) * bc + b);
        assert(d2 * pc + p2 == d * pc + p);
    }
}

/// A dense buffer of tabulated values, indexed by derivative, point, basis
/// function and value component.
pub struct TabulatedData<T> {
    data: Vec<T>,
    deriv_count: usize,
    point_count: usize,
    basis_count: usize,
    value_size: usize,
}

impl<T> TabulatedData<T> {
    #[verifier::type_invariant]
    spec fn sized(self) -> bool {
        self.data@.len() == self.deriv_count * self.point_count * self.basis_count
            * self.value_size
    }

    /// The entries, in the order of `flat_index`.
    pub closed spec fn values(self) -> Seq<T> {
        self.data@
    }

    /// The number of derivative rows.
    pub closed spec fn derivs(self) -> nat {
        self.deriv_count as nat
    }

    /// The number of points.
    pub closed spec fn points(self) -> nat {
        self.point_count as nat
    }

    /// The number of basis functions.
    pub closed spec fn functions(self) -> nat {
        self.basis_count as nat
    }

    /// The number of value components.
    pub closed spec fn components(self) -> nat {
        self.value_size as nat
    }

    /// The four indices are within the counts.
    pub open spec fn in_range(self, deriv: int, point: int, basis: int, component: int) -> bool {
        &&& 0 <= deriv < self.derivs()
        &&& 0 <= point < self.points()
        &&& 0 <= basis < self.functions()
        &&& 0 <= component < self.components()
    }

    /// The position of an entry in `values`.
    pub open spec fn index_of(self, deriv: int, point: int, basis: int, component: int) -> int {
        flat_index(
            deriv,
            point,
            basis,
            component,
            self.points() as int,
            self.functions() as int,
            self.components() as int,
        )
    }

    /// The entry at the four indices.
    pub open spec fn entry(self, deriv: int, point: int, basis: int, component: int) -> T {
        self.values()[self.index_of(deriv, point, basis, component)]
    }

    /// The two buffers have the same four counts.
    pub open spec fn same_counts(self, other: Self) -> bool {
        &&& self.derivs() == other.derivs()
        &&& self.points() == other.points()
        &&& self.functions() == other.functions()
        &&& self.components() == other.components()
    }
}

impl<T: Copy> TabulatedData<T> {
    /// A buffer for tabulating `element` with derivatives up to order
    /// `nderivs` at `npoints` points, every entry `fill`.
    pub fn new<F: FiniteElement>(element: &F, nderivs: usize, npoints: usize, fill: T) -> (r: Self)
        requires
            num_derivatives(element.element_cell().tdim(), nderivs as nat) <= usize::MAX,
            num_derivatives(element.element_cell().tdim(), nderivs as nat) * npoints
                * element.element_cell().num_vertices() <= usize::MAX,
        ensures
            r.derivs() == num_derivatives(element.element_cell().tdim(), nderivs as nat),
            r.points() == npoints,
            r.functions() == element.element_cell().num_vertices(),
            r.components() == 1,
            forall|d: int, p: int, b: int, c: int|
                r.in_range(d, p, b, c) ==> #[trigger] r.entry(d, p, b, c) == fill,
    {
        let cell = element.cell_type();
        let deriv_count = derivative_count(cell.dim(), nderivs);
        let basis_count = element.dim();
        let value_size = element.value_size();
        proof {
            let (dc, np, bc) = (deriv_count as int, npoints as int, basis_count as int);
            assert(dc * np <= dc * np * bc) by (nonlinear_arith)
                requires
                    dc >= 0 && np >= 0 && bc >= 1,
            ;
            assert(dc * np * bc * 1 == dc * np * bc);
        }
        let r = TabulatedData::with_counts(deriv_count, npoints, basis_count, value_size, fill);
        assert forall|d: int, p: int, b: int, c: int| r.in_range(d, p, b, c) implies #[trigger] r.entry(
            d,
            p,
            b,
            c,
        ) == fill by {
            lemma_flat_index(
                d,
                p,
                b,
                c,
                deriv_count as int,
                npoints as int,
                basis_count as int,
                value_size as int,
            );
        }
        r
    }

    /// Whether a buffer for `element` with derivatives up to order `nderivs`
    /// at `npoints` points has a length that `usize` can hold, as `new`
    /// requires.
    pub fn size_fits<F: FiniteElement>(element: &F, nderivs: usize, npoints: usize) -> (r: bool)
        ensures
            r == (num_derivatives(element.element_cell().tdim(), nderivs as nat) <= usize::MAX
                && num_derivatives(element.element_cell().tdim(), nderivs as nat) * npoints
                * element.element_cell().num_vertices() <= usize::MAX),
    {
        let cell = element.cell_type();
        let tdim = cell.dim();
        let nbasis = cell.vertex_count();
        proof {
            lemma_num_derivatives_triangular(nderivs as nat);
        }
        let counted = if tdim == 1 {
            nderivs.checked_add(1)
        } else {
            match nderivs.checked_add(1) {
                Some(n) => checked_triangular(n),
                None => {
                    proof {
                        lemma_triangular_at_least(nderivs as nat + 1);
                    }
                    None
                },
            }
        };
        let rows = match counted {
            Some(n) => n,
            None => {
                return false;
            },
        };
        let ghost (rs, np, nb) = (rows as int, npoints as int, nbasis as int);
        match rows.checked_mul(npoints) {
            Some(with_points) => match with_points.checked_mul(nbasis) {
                Some(_) => true,
                None => false,
            },
            None => {
                assert(rs * np <= rs * np * nb) by (nonlinear_arith)
                    requires
                        rs >= 0 && np >= 0 && nb >= 1,
                ;
                false
            },
        }
    }

    /// A buffer with the given counts, every entry `fill`.
    fn with_counts(
        deriv_count: usize,
        point_count: usize,
        basis_count: usize,
        value_size: usize,
        fill: T,
    ) -> (r: Self)
        requires
            deriv_count * point_count <= usize::MAX,
            deriv_count * point_count * basis_count <= usize::MAX,
            deriv_count * point_count * basis_count * value_size <= usize::MAX,
        ensures
            r.derivs() == deriv_count,
            r.points() == point_count,
            r.functions() == basis_count,
            r.components() == value_size,
            r.values() == Seq::new(
                (deriv_count * point_count * basis_count * value_size) as nat,
                |k: int| fill,
            ),
    {
        let len = deriv_count * point_count * basis_count * value_size;
        let mut data: Vec<T> = Vec::new();
        let mut k: usize = 0;
        while k < len
            invariant
                k <= len,
                data@ == Seq::new(k as nat, |m: int| fill),
            decreases len - k,
        {
            data.push(fill);
            k = k + 1;
            assert(data@ =~= Seq::new(k as nat, |m: int| fill));
        }
        TabulatedData { data, deriv_count, point_count, basis_count, value_size }
    }

    /// The entry at the four indices; `IndexOutOfBounds` when one of them is
    /// at or past its count.
    pub fn get(&self, deriv: usize, point: usize, basis: usize, component: usize) -> (r: Result<
        T,
        TabulationError,
    >)
        ensures
            self.in_range(deriv as int, point as int, basis as int, component as int) ==> r == Ok::<
                T,
                TabulationError,
            >(self.entry(deriv as int, point as int, basis as int, component as int)),
            !self.in_range(deriv as int, point as int, basis as int, component as int) ==> r
                == Err::<T, TabulationError>(TabulationError::IndexOutOfBounds),
    {
        proof {
            use_type_invariant(self);
        }
        match self.position(deriv, point, basis, component) {
            Some(index) => Ok(self.data[index]),
            None => Err(TabulationError::IndexOutOfBounds),
        }
    }

    /// Overwrite the entry at the four indices with `value`;
    /// `IndexOutOfBounds`, and the buffer unchanged, when one of them is at
    /// or past its count.
    pub fn set(
        &mut self,
        deriv: usize,
        point: usize,
        basis: usize,
        component: usize,
        value: T,
    ) -> (r: Result<(), TabulationError>)
        ensures
            final(self).same_counts(*old(self)),
            old(self).values().len() == old(self).derivs() * old(self).points() * old(
                self,
            ).functions() * old(self).components(),
            final(self).values().len() == old(self).values().len(),
            old(self).in_range(deriv as int, point as int, basis as int, component as int) ==> {
                &&& r is Ok
                &&& 0 <= old(self).index_of(deriv as int, point as int, basis as int, component as int)
                    < old(self).values().len()
                &&& final(self).values() == old(self).values().update(
                    old(self).index_of(deriv as int, point as int, basis as int, component as int),
                    value,
                )
            },
            !old(self).in_range(deriv as int, point as int, basis as int, component as int) ==> {
                &&& r == Err::<(), TabulationError>(TabulationError::IndexOutOfBounds)
                &&& final(self).values() == old(self).values()
            },
    {
        proof {
            use_type_invariant(&*self);
        }
        match self.position(deriv, point, basis, component) {
            Some(index) => {
                self.data[index] = value;
                Ok(())
            },
            None => Err(TabulationError::IndexOutOfBounds),
        }
    }

    /// Where the entry at the four indices sits in `data`, if they are within
    /// the counts.
    fn position(&self, deriv: usize, point: usize, basis: usize, component: usize) -> (r: Option<
        usize,
    >)
        ensures
            self.in_range(deriv as int, point as int, basis as int, component as int) ==> {
                &&& r is Some
                &&& r->Some_0 as int == self.index_of(
                    deriv as int,
                    point as int,
                    basis as int,
                    component as int,
                )
                &&& r->Some_0 < self.values().len()
            },
            !self.in_range(deriv as int, point as int, basis as int, component as int) ==> r
                is None,
    {
        if deriv >= self.deriv_count || point >= self.point_count || basis >= self.basis_count
            || component >= self.value_size {
            return None;
        }
        proof {
            use_type_invariant(self);
        }
        let len = self.data.len();
        let ghost (dc, pc, bc, vs) = (
            self.deriv_count as int,
            self.point_count as int,
            self.basis_count as int,
            self.value_size as int,
        );
        proof {
            lemma_flat_index(deriv as int, point as int, basis as int, component as int, dc, pc, bc, vs);
            lemma_mixed_radix(deriv as int, point as int, dc, pc);
            lemma_mixed_radix(deriv * pc + point, basis as int, dc * pc, bc);
            lemma_mixed_radix((deriv * pc + point) * bc + basis, component as int, dc * pc * bc, vs);
            assert(dc * pc <= dc * pc * bc) by (nonlinear_arith)
                requires
                    dc >= 0 && pc >= 0 && bc >= 1,
            ;
            assert(dc * pc * bc <= dc * pc * bc * vs) by (nonlinear_arith)
                requires
                    dc * pc * bc >= 0 && vs >= 1,
            ;
            assert(deriv * pc <= deriv * pc + point);
        }
        let row = deriv * self.point_count + point;
        let function = row * self.basis_count + basis;
        Some(function * self.value_size + component)
    }

    /// The number of derivative rows.
    pub fn deriv_count(&self) -> (r: usize)
        ensures
            r == self.derivs(),
    {
        self.deriv_count
    }

    /// The number of points.
    pub fn point_count(&self) -> (r: usize)
        ensures
            r == self.points(),
    {
        self.point_count
    }

    /// The number of basis functions.
    pub fn basis_count(&self) -> (r: usize)
        ensures
            r == self.functions(),
    {
        self.basis_count
    }

    /// The number of value components.
    pub fn value_size(&self) -> (r: usize)
        ensures
            r == self.components(),
    {
        self.value_size
    }
}

} // verus!
