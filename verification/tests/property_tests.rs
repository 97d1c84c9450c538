use geometry::error::GeometryError;
use geometry::line::Line;
use geometry::rational::Rational;
use geometry::triangle::Triangle;
use geometry::vec3d::Vec3d;

#[test]
fn mul_by_zero_gives_zero_vector() {
    let v = Vec3d::new(
        Rational::from_int(1),
        Rational::from_int(2),
        Rational::from_int(3),
    );
    let zero = Vec3d::new(
        Rational::from_int(0),
        Rational::from_int(0),
        Rational::from_int(0),
    );
    assert_eq!(v.mul(Rational::from_int(0)), zero);
}

#[test]
fn div_then_mul_round_trip() {
    let v = Vec3d::new(
        Rational::from_int(1),
        Rational::from_int(2),
        Rational::from_int(3),
    );
    let s = Rational::from_int(2);
    assert_eq!(v.div(s).unwrap().mul(s), v);
    let neg = Rational::new(-3, 2);
    assert_eq!(v.div(neg).unwrap().mul(neg), v);
}

#[test]
fn degenerate_surface_fails() {
    let zero = Rational::from_int(0);
    let one = Rational::from_int(1);
    let p1 = Vec3d::new(zero, zero, zero);
    let p3 = Vec3d::new(zero, one, zero);
    assert!(matches!(
        Triangle::new(&p1, &p1, &p3).surface(),
        Err(GeometryError::DegenerateGeometry)
    ));
}

#[test]
fn scalar_arithmetic_is_exact() {
    let half = Rational::new(1, 2);
    let third = Rational::new(1, 3);
    assert_eq!(half.add(&third), Rational::new(5, 6));
    assert_eq!(half.sub(&third), Rational::new(1, 6));
    assert_eq!(half.mul(&third), Rational::new(1, 6));
    assert_eq!(half.div(&third).unwrap(), Rational::new(3, 2));
    assert!(matches!(
        half.div(&Rational::from_int(0)),
        Err(GeometryError::DivisionByZero)
    ));
}

#[test]
fn scalar_sqrt_exact_or_none() {
    assert_eq!(
        Rational::new(9, 4).sqrt().unwrap(),
        Rational::new(3, 2)
    );
    assert_eq!(Rational::from_int(49).sqrt().unwrap(), Rational::from_int(7));
    assert!(Rational::from_int(2).sqrt().is_none());
    assert!(Rational::from_int(-4).sqrt().is_none());
}

#[test]
fn display_rounds_to_two_decimals() {
    assert_eq!(Rational::new(3, 2).to_decimal_string(), "1.50");
    assert_eq!(Rational::new(1, 3).to_decimal_string(), "0.33");
    assert_eq!(Rational::new(-1, 3).to_decimal_string(), "-0.33");
    assert_eq!(Rational::new(1, 200).to_decimal_string(), "0.01");
    assert_eq!(Rational::new(-1, 1000).to_decimal_string(), "0.00");
    assert_eq!(Rational::from_int(-12).to_decimal_string(), "-12.00");
}

#[test]
fn line_direction_forms_agree() {
    let v = Vec3d::new(
        Rational::from_int(0),
        Rational::from_int(3),
        Rational::from_int(4),
    );
    let borrowed = Line::from_ref(&v);
    let owned = Line::from(v);
    assert_eq!(borrowed.length().unwrap(), Rational::from_int(5));
    assert_eq!(owned.length().unwrap(), Rational::from_int(5));
    assert_eq!(
        owned.middle_point(),
        Vec3d::new(
            Rational::from_int(0),
            Rational::new(3, 2),
            Rational::from_int(2),
        )
    );
}

#[test]
fn cross_of_unit_axes() {
    let zero = Rational::from_int(0);
    let one = Rational::from_int(1);
    let x_axis = Vec3d::new(one, zero, zero);
    let y_axis = Vec3d::new(zero, one, zero);
    assert_eq!(x_axis.cross(&y_axis), Vec3d::new(zero, zero, one));
    assert_eq!(
        y_axis.cross(&x_axis),
        Vec3d::new(zero, zero, Rational::from_int(-1))
    );
}
