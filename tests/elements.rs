use rusty_element::cell::ReferenceCellType;
use rusty_element::element::polynomial::Bilinear;
use rusty_element::element::{
    derivative_count, derivative_orders_of, ElementError, ElementFamily, FiniteElement,
    LagrangeElement, LagrangeElementIntervalDegree1, LagrangeElementQuadrilateralDegree1,
    LagrangeElementTriangleDegree1, TabulatedData, TabulationError,
};
use rusty_element::map::{identity_pull_back, identity_push_forward, MapType};

fn assert_close(value: f64, expected: f64) {
    assert!(
        (value - expected).abs() <= 1e-12 * expected.abs().max(1.0),
        "{} differs from {}",
        value,
        expected
    );
}

/// The entry as a real number: tabulations hold values times `den * den`.
fn as_real(data: &TabulatedData<i64>, deriv: usize, point: usize, basis: usize, den: i64) -> f64 {
    data.get(deriv, point, basis, 0).unwrap() as f64 / (den * den) as f64
}

#[test]
fn test_lagrange_1() {
    let e = LagrangeElement::new(ReferenceCellType::Triangle, 1).unwrap();
    assert_eq!(e.value_size(), 1);
}

#[test]
fn test_lagrange_1_interval() {
    let e = LagrangeElementIntervalDegree1 {};
    assert_eq!(e.value_size(), 1);
    let mut data = TabulatedData::new(&e, 0, 4, 0i64);
    // The points 0.0, 0.2, 0.4 and 1.0, in fifths.
    let points = vec![0, 1, 2, 5];
    e.tabulate(&points, 5, 0, &mut data);

    assert_close(as_real(&data, 0, 0, 0, 5), 1.0);
    assert_close(as_real(&data, 0, 0, 1, 5), 0.0);
    assert_close(as_real(&data, 0, 1, 0, 5), 0.8);
    assert_close(as_real(&data, 0, 1, 1, 5), 0.2);
    assert_close(as_real(&data, 0, 2, 0, 5), 0.6);
    assert_close(as_real(&data, 0, 2, 1, 5), 0.4);
    assert_close(as_real(&data, 0, 3, 0, 5), 0.0);
    assert_close(as_real(&data, 0, 3, 1, 5), 1.0);
}

#[test]
fn test_lagrange_1_triangle() {
    let e = LagrangeElementTriangleDegree1 {};
    assert_eq!(e.value_size(), 1);
    let mut data = TabulatedData::new(&e, 0, 6, 0i64);
    // (0, 0), (1, 0), (0, 1), (0.5, 0), (0, 0.5), (0.5, 0.5), in halves.
    let points = vec![0, 0, 2, 0, 0, 2, 1, 0, 0, 1, 1, 1];
    e.tabulate(&points, 2, 0, &mut data);

    assert_close(as_real(&data, 0, 0, 0, 2), 1.0);
    assert_close(as_real(&data, 0, 0, 1, 2), 0.0);
    assert_close(as_real(&data, 0, 0, 2, 2), 0.0);
    assert_close(as_real(&data, 0, 1, 0, 2), 0.0);
    assert_close(as_real(&data, 0, 1, 1, 2), 1.0);
    assert_close(as_real(&data, 0, 1, 2, 2), 0.0);
    assert_close(as_real(&data, 0, 2, 0, 2), 0.0);
    assert_close(as_real(&data, 0, 2, 1, 2), 0.0);
    assert_close(as_real(&data, 0, 2, 2, 2), 1.0);
    assert_close(as_real(&data, 0, 3, 0, 2), 0.5);
    assert_close(as_real(&data, 0, 3, 1, 2), 0.5);
    assert_close(as_real(&data, 0, 3, 2, 2), 0.0);
    assert_close(as_real(&data, 0, 4, 0, 2), 0.5);
    assert_close(as_real(&data, 0, 4, 1, 2), 0.0);
    assert_close(as_real(&data, 0, 4, 2, 2), 0.5);
    assert_close(as_real(&data, 0, 5, 0, 2), 0.0);
    assert_close(as_real(&data, 0, 5, 1, 2), 0.5);
    assert_close(as_real(&data, 0, 5, 2, 2), 0.5);
}

#[test]
fn test_lagrange_1_quadrilateral() {
    let e = LagrangeElementQuadrilateralDegree1 {};
    assert_eq!(e.value_size(), 1);
    let mut data = TabulatedData::new(&e, 0, 6, 0i64);
    // (0, 0), (1, 0), (0, 1), (1, 1), (0.25, 0.5), (0.3, 0.2), in hundredths.
    let points = vec![0, 0, 100, 0, 0, 100, 100, 100, 25, 50, 30, 20];
    e.tabulate(&points, 100, 0, &mut data);

    assert_close(as_real(&data, 0, 0, 0, 100), 1.0);
    assert_close(as_real(&data, 0, 0, 1, 100), 0.0);
    assert_close(as_real(&data, 0, 0, 2, 100), 0.0);
    assert_close(as_real(&data, 0, 0, 3, 100), 0.0);
    assert_close(as_real(&data, 0, 1, 0, 100), 0.0);
    assert_close(as_real(&data, 0, 1, 1, 100), 1.0);
    assert_close(as_real(&data, 0, 1, 2, 100), 0.0);
    assert_close(as_real(&data, 0, 1, 3, 100), 0.0);
    assert_close(as_real(&data, 0, 2, 0, 100), 0.0);
    assert_close(as_real(&data, 0, 2, 1, 100), 0.0);
    assert_close(as_real(&data, 0, 2, 2, 100), 1.0);
    assert_close(as_real(&data, 0, 2, 3, 100), 0.0);
    assert_close(as_real(&data, 0, 3, 0, 100), 0.0);
    assert_close(as_real(&data, 0, 3, 1, 100), 0.0);
    assert_close(as_real(&data, 0, 3, 2, 100), 0.0);
    assert_close(as_real(&data, 0, 3, 3, 100), 1.0);
    assert_close(as_real(&data, 0, 4, 0, 100), 0.375);
    assert_close(as_real(&data, 0, 4, 1, 100), 0.125);
    assert_close(as_real(&data, 0, 4, 2, 100), 0.375);
    assert_close(as_real(&data, 0, 4, 3, 100), 0.125);
    assert_close(as_real(&data, 0, 5, 0, 100), 0.56);
    assert_close(as_real(&data, 0, 5, 1, 100), 0.24);
    assert_close(as_real(&data, 0, 5, 2, 100), 0.14);
    assert_close(as_real(&data, 0, 5, 3, 100), 0.06);
}

#[test]
fn test_identity() {
    let e = LagrangeElementTriangleDegree1 {};
    let mut data = TabulatedData::new(&e, 0, 1, 0.0f64);

    data.set(0, 0, 0, 0, 0.5).unwrap();
    data.set(0, 0, 1, 0, 0.4).unwrap();
    data.set(0, 0, 2, 0, 0.3).unwrap();

    identity_push_forward(&mut data);

    assert_close(data.get(0, 0, 0, 0).unwrap(), 0.5);
    assert_close(data.get(0, 0, 1, 0).unwrap(), 0.4);
    assert_close(data.get(0, 0, 2, 0).unwrap(), 0.3);

    identity_pull_back(&mut data);
    assert_close(data.get(0, 0, 1, 0).unwrap(), 0.4);
    assert_eq!(MapType::Identity, MapType::Identity);
    assert_ne!(MapType::Identity, MapType::L2Piola);
}

#[test]
fn triangle_first_derivatives_are_constant() {
    let e = LagrangeElementTriangleDegree1 {};
    let mut data = TabulatedData::new(&e, 1, 6, 0i64);
    let points = vec![0, 0, 2, 0, 0, 2, 1, 0, 0, 1, 1, 1];
    e.tabulate(&points, 2, 1, &mut data);
    assert_eq!(data.deriv_count(), 3);
    for pt in 0..6 {
        assert_eq!(data.get(1, pt, 0, 0), Ok(-4));
        assert_eq!(data.get(1, pt, 1, 0), Ok(4));
        assert_eq!(data.get(1, pt, 2, 0), Ok(0));
        assert_eq!(data.get(2, pt, 0, 0), Ok(-4));
        assert_eq!(data.get(2, pt, 1, 0), Ok(0));
        assert_eq!(data.get(2, pt, 2, 0), Ok(4));
    }
}

#[test]
fn quadrilateral_values_at_an_inner_point() {
    let e = LagrangeElementQuadrilateralDegree1 {};
    let mut data = TabulatedData::new(&e, 0, 1, 0i64);
    e.tabulate(&[3, 2], 10, 0, &mut data);
    assert_eq!(data.get(0, 0, 0, 0), Ok(56));
    assert_eq!(data.get(0, 0, 1, 0), Ok(24));
    assert_eq!(data.get(0, 0, 2, 0), Ok(14));
    assert_eq!(data.get(0, 0, 3, 0), Ok(6));
    assert_close(as_real(&data, 0, 0, 0, 10), 0.56);
    assert_close(as_real(&data, 0, 0, 3, 10), 0.06);
}

#[test]
fn quadrilateral_derivatives_up_to_third_order() {
    let e = LagrangeElementQuadrilateralDegree1 {};
    let mut data = TabulatedData::new(&e, 3, 1, 7i64);
    e.tabulate(&[3, 2], 10, 3, &mut data);
    assert_eq!(data.deriv_count(), 10);
    // d/dx: y - 1, 1 - y, -y, y at y = 0.2, times 100.
    assert_eq!(data.get(1, 0, 0, 0), Ok(-80));
    assert_eq!(data.get(1, 0, 1, 0), Ok(80));
    assert_eq!(data.get(1, 0, 2, 0), Ok(-20));
    assert_eq!(data.get(1, 0, 3, 0), Ok(20));
    // d/dy: x - 1, -x, 1 - x, x at x = 0.3, times 100.
    assert_eq!(data.get(2, 0, 0, 0), Ok(-70));
    assert_eq!(data.get(2, 0, 1, 0), Ok(-30));
    assert_eq!(data.get(2, 0, 2, 0), Ok(70));
    assert_eq!(data.get(2, 0, 3, 0), Ok(30));
    // The mixed derivative sits in row 4, between d2/dx2 and d2/dy2.
    assert_eq!(data.get(4, 0, 0, 0), Ok(100));
    assert_eq!(data.get(4, 0, 1, 0), Ok(-100));
    assert_eq!(data.get(4, 0, 2, 0), Ok(-100));
    assert_eq!(data.get(4, 0, 3, 0), Ok(100));
    for row in [3, 5, 6, 7, 8, 9] {
        for b in 0..4 {
            assert_eq!(data.get(row, 0, b, 0), Ok(0));
        }
    }
}

#[test]
fn excess_derivatives_are_zero() {
    let e = LagrangeElementIntervalDegree1 {};
    let mut data = TabulatedData::new(&e, 3, 2, 9i64);
    e.tabulate(&[1, 3], 4, 3, &mut data);
    assert_eq!(data.deriv_count(), 4);
    assert_eq!(data.get(1, 0, 0, 0), Ok(-16));
    assert_eq!(data.get(1, 1, 1, 0), Ok(16));
    for row in 2..4 {
        for pt in 0..2 {
            for b in 0..2 {
                assert_eq!(data.get(row, pt, b, 0), Ok(0));
            }
        }
    }

    let t = LagrangeElementTriangleDegree1 {};
    let mut data = TabulatedData::new(&t, 2, 1, 9i64);
    t.tabulate(&[1, 1], 3, 2, &mut data);
    assert_eq!(data.deriv_count(), 6);
    for row in 3..6 {
        for b in 0..3 {
            assert_eq!(data.get(row, 0, b, 0), Ok(0));
        }
    }
}

#[test]
fn interval_values() {
    let e = LagrangeElementIntervalDegree1 {};
    let mut data = TabulatedData::new(&e, 1, 1, 0i64);
    e.tabulate(&[1], 4, 1, &mut data);
    assert_eq!(data.get(0, 0, 0, 0), Ok(12));
    assert_eq!(data.get(0, 0, 1, 0), Ok(4));
    assert_eq!(data.get(1, 0, 0, 0), Ok(-16));
    assert_eq!(data.get(1, 0, 1, 0), Ok(16));
}

#[test]
fn buffer_sizes() {
    let e = LagrangeElementTriangleDegree1 {};
    let data = TabulatedData::new(&e, 2, 5, 0i64);
    assert_eq!(data.deriv_count(), 6);
    assert_eq!(data.point_count(), 5);
    assert_eq!(data.basis_count(), 3);
    assert_eq!(data.value_size(), 1);
    let i = LagrangeElementIntervalDegree1 {};
    let data = TabulatedData::new(&i, 2, 5, 0i64);
    assert_eq!(data.deriv_count(), 3);
    assert_eq!(data.basis_count(), 2);
    let q = LagrangeElementQuadrilateralDegree1 {};
    let data = TabulatedData::new(&q, 0, 3, 1i64);
    assert_eq!(data.deriv_count(), 1);
    assert_eq!(data.basis_count(), 4);
    assert_eq!(data.get(0, 2, 3, 0), Ok(1));
}

#[test]
fn buffer_accessors_refuse_out_of_range() {
    let e = LagrangeElementTriangleDegree1 {};
    let mut data = TabulatedData::new(&e, 0, 2, 0i64);
    assert_eq!(data.get(1, 0, 0, 0), Err(TabulationError::IndexOutOfBounds));
    assert_eq!(data.get(0, 2, 0, 0), Err(TabulationError::IndexOutOfBounds));
    assert_eq!(data.get(0, 0, 3, 0), Err(TabulationError::IndexOutOfBounds));
    assert_eq!(data.get(0, 0, 0, 1), Err(TabulationError::IndexOutOfBounds));
    assert_eq!(data.set(0, 0, 3, 0, 5), Err(TabulationError::IndexOutOfBounds));
    assert_eq!(data.set(0, 1, 2, 0, 5), Ok(()));
    assert_eq!(data.get(0, 1, 2, 0), Ok(5));
    assert_eq!(data.get(0, 1, 1, 0), Ok(0));
    assert_eq!(data.get(0, 0, 2, 0), Ok(0));
}

#[test]
fn unsupported_elements_are_refused() {
    assert_eq!(
        LagrangeElement::new(ReferenceCellType::Tetrahedron, 1).err(),
        Some(ElementError::UnsupportedElement)
    );
    assert_eq!(
        LagrangeElement::new(ReferenceCellType::Triangle, 2).err(),
        Some(ElementError::UnsupportedElement)
    );
    assert_eq!(
        LagrangeElement::new(ReferenceCellType::Interval, 0).err(),
        Some(ElementError::UnsupportedElement)
    );
    let q = LagrangeElement::new(ReferenceCellType::Quadrilateral, 1).unwrap();
    assert_eq!(q.cell_type(), ReferenceCellType::Quadrilateral);
    assert_eq!(q.dim(), 4);
}

#[test]
fn element_descriptors() {
    let e = LagrangeElement::new(ReferenceCellType::Interval, 1).unwrap();
    assert_eq!(e.degree(), 1);
    assert_eq!(e.highest_degree(), 1);
    assert_eq!(e.family(), ElementFamily::Lagrange);
    assert!(!e.discontinuous());
    assert_eq!(e.dim(), 2);
    let t = LagrangeElementTriangleDegree1 {};
    assert_eq!(t.cell_type(), ReferenceCellType::Triangle);
    assert_eq!(t.dim(), 3);
}

#[test]
fn general_element_tabulates_like_the_fixed_one() {
    let general = LagrangeElement::new(ReferenceCellType::Triangle, 1).unwrap();
    let fixed = LagrangeElementTriangleDegree1 {};
    let points = vec![1, 2, 3, 0, 0, 0];
    let mut a = TabulatedData::new(&general, 1, 3, 0i64);
    let mut b = TabulatedData::new(&fixed, 1, 3, 0i64);
    general.tabulate(&points, 4, 1, &mut a);
    fixed.tabulate(&points, 4, 1, &mut b);
    for d in 0..3 {
        for p in 0..3 {
            for f in 0..3 {
                assert_eq!(a.get(d, p, f, 0), b.get(d, p, f, 0));
            }
        }
    }
    assert_eq!(a.get(0, 0, 0, 0), Ok(4));
    assert_eq!(a.get(0, 1, 1, 0), Ok(12));
}

#[test]
fn derivative_rows() {
    assert_eq!(derivative_count(1, 3), 4);
    assert_eq!(derivative_count(2, 0), 1);
    assert_eq!(derivative_count(2, 1), 3);
    assert_eq!(derivative_count(2, 2), 6);
    assert_eq!(derivative_count(2, 4), 15);
    assert_eq!(derivative_orders_of(1, 3), (3, 0));
    assert_eq!(derivative_orders_of(2, 0), (0, 0));
    assert_eq!(derivative_orders_of(2, 1), (1, 0));
    assert_eq!(derivative_orders_of(2, 2), (0, 1));
    assert_eq!(derivative_orders_of(2, 3), (2, 0));
    assert_eq!(derivative_orders_of(2, 4), (1, 1));
    assert_eq!(derivative_orders_of(2, 5), (0, 2));
    assert_eq!(derivative_orders_of(2, 9), (0, 3));
}

#[test]
fn basis_derivatives_as_polynomials() {
    let q = LagrangeElementQuadrilateralDegree1 {};
    assert_eq!(q.basis_derivative(0, 0), Bilinear { constant: 1, x: -1, y: -1, xy: 1 });
    assert_eq!(q.basis_derivative(1, 0), Bilinear { constant: -1, x: 0, y: 1, xy: 0 });
    assert_eq!(q.basis_derivative(2, 1), Bilinear { constant: 0, x: -1, y: 0, xy: 0 });
    assert_eq!(q.basis_derivative(4, 2), Bilinear { constant: -1, x: 0, y: 0, xy: 0 });
    assert_eq!(q.basis_derivative(3, 3), Bilinear { constant: 0, x: 0, y: 0, xy: 0 });
    let b = Bilinear { constant: 2, x: 3, y: 5, xy: 7 };
    assert_eq!(b.partial_derivative(1, 0), Bilinear { constant: 3, x: 0, y: 7, xy: 0 });
    assert_eq!(b.partial_derivative(0, 1), Bilinear { constant: 5, x: 7, y: 0, xy: 0 });
    let unit = Bilinear { constant: 1, x: -1, y: 1, xy: -1 };
    assert_eq!(unit.evaluate_scaled(3, 2, 10), 100 - 30 + 20 - 6);
}

#[test]
fn tabulating_no_points() {
    let e = LagrangeElementIntervalDegree1 {};
    let mut data = TabulatedData::new(&e, 2, 0, 0i64);
    e.tabulate(&[], 1, 2, &mut data);
    assert_eq!(data.point_count(), 0);
    assert_eq!(data.get(0, 0, 0, 0), Err(TabulationError::IndexOutOfBounds));
}

#[test]
fn buffer_sizes_that_do_not_fit() {
    let t = LagrangeElementTriangleDegree1 {};
    assert!(TabulatedData::<i64>::size_fits(&t, 2, 5));
    assert!(TabulatedData::<i64>::size_fits(&t, 0, 0));
    assert!(!TabulatedData::<i64>::size_fits(&t, usize::MAX, 0));
    assert!(!TabulatedData::<i64>::size_fits(&t, 1 << 40, 1));
    let i = LagrangeElementIntervalDegree1 {};
    assert!(!TabulatedData::<i64>::size_fits(&i, usize::MAX, 0));
    assert!(TabulatedData::<i64>::size_fits(&i, usize::MAX - 1, 0));
    assert!(!TabulatedData::<i64>::size_fits(&i, 0, usize::MAX));
    assert!(TabulatedData::<i64>::size_fits(&i, 0, usize::MAX / 2));
}
