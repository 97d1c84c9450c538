use geometry::error::GeometryError;
use geometry::rational::Rational;
use geometry::vec3d::Vec3d;

#[test]
fn lib_display() {
    let p = Vec3d::new(
        Rational::from_int(1),
        Rational::from_int(2),
        Rational::from_int(3),
    );
    assert_eq!(p.to_display_string(), "(1.00, 2.00, 3.00)")
}

#[test]
fn lib_add() {
    let p1 = Vec3d::new(
        Rational::from_int(1),
        Rational::from_int(2),
        Rational::from_int(3),
    );
    let p2 = Vec3d::new(
        Rational::from_int(1),
        Rational::from_int(2),
        Rational::from_int(3),
    );
    let p3 = p1.add(&p2);
    assert_eq!(p3.x, Rational::from_int(2));
    assert_eq!(p3.y, Rational::from_int(4));
    assert_eq!(p3.z, Rational::from_int(6));
}

#[test]
fn lib_sub() {
    let p1 = Vec3d::new(
        Rational::from_int(1),
        Rational::from_int(2),
        Rational::from_int(3),
    );
    let p2 = Vec3d::new(
        Rational::from_int(1),
        Rational::from_int(2),
        Rational::from_int(3),
    );
    let p3 = p1.sub(&p2);
    assert_eq!(p3.x, Rational::from_int(0));
    assert_eq!(p3.y, Rational::from_int(0));
    assert_eq!(p3.z, Rational::from_int(0));
}

#[test]
fn lib_add_ass() {
    let mut p1 = Vec3d::new(
        Rational::from_int(1),
        Rational::from_int(2),
        Rational::from_int(3),
    );
    let p2 = Vec3d::new(
        Rational::from_int(1),
        Rational::from_int(2),
        Rational::from_int(3),
    );
    p1.add_assign(&p2);
    assert_eq!(p1.x, Rational::from_int(2));
    assert_eq!(p1.y, Rational::from_int(4));
    assert_eq!(p1.z, Rational::from_int(6));
}

#[test]
fn lib_sub_ass() {
    let mut p1 = Vec3d::new(
        Rational::from_int(1),
        Rational::from_int(2),
        Rational::from_int(3),
    );
    let p2 = Vec3d::new(
        Rational::from_int(1),
        Rational::from_int(2),
        Rational::from_int(3),
    );
    p1.sub_assign(&p2);
    assert_eq!(p1.x, Rational::from_int(0));
    assert_eq!(p1.y, Rational::from_int(0));
    assert_eq!(p1.z, Rational::from_int(0));
}

#[test]
fn lib_test_eqaulity() {
    let p1 = Vec3d::new(
        Rational::from_int(1),
        Rational::from_int(2),
        Rational::from_int(3),
    );
    let p2 = Vec3d::new(
        Rational::from_int(1),
        Rational::from_int(2),
        Rational::from_int(3),
    );
    assert_eq!(p1, p2);
    let p3 = p1.sub(&p2);
    assert_ne!(p2, p3);
}

#[test]
fn lib_test_length() {
    let p1 = Vec3d::new(
        Rational::from_int(0),
        Rational::from_int(3),
        Rational::from_int(4),
    );
    assert_eq!(p1.length().unwrap(), Rational::from_int(5))
}

#[test]
fn lib_test_dot() {
    let p1 = Vec3d::new(
        Rational::from_int(2),
        Rational::from_int(3),
        Rational::from_int(6),
    );
    let p2 = Vec3d::new(
        Rational::from_int(2),
        Rational::from_int(3),
        Rational::from_int(6),
    );

    let len = p1.length().unwrap();
    let a = p1.dot(&p2).div(&len.mul(&len)).unwrap();

    assert_eq!(a, Rational::from_int(1))
}

#[test]
fn lib_cross() {
    let p1 = Vec3d::new(
        Rational::from_int(1),
        Rational::from_int(2),
        Rational::from_int(3),
    );
    let p2 = Vec3d::new(
        Rational::from_int(1),
        Rational::from_int(2),
        Rational::from_int(3),
    );
    let zero = Vec3d::new(
        Rational::from_int(0),
        Rational::from_int(0),
        Rational::from_int(0),
    );
    assert_eq!(p1.cross(&p2), zero)
}

#[test]
fn lib_test_mult() {
    let p1 = Vec3d::new(
        Rational::from_int(1),
        Rational::from_int(2),
        Rational::from_int(3),
    );
    let p2 = Vec3d::new(
        Rational::from_int(1),
        Rational::from_int(2),
        Rational::from_int(3),
    );
    assert_eq!(p1.mul(Rational::from_int(1)), p2);
    assert_eq!(
        p1.mul(Rational::from_int(2)),
        Vec3d::new(
            Rational::from_int(2),
            Rational::from_int(4),
            Rational::from_int(6),
        )
    );
}

#[test]
fn lib_test_div() {
    let p1 = Vec3d::new(
        Rational::from_int(1),
        Rational::from_int(2),
        Rational::from_int(3),
    );
    assert_eq!(p1.div(Rational::from_int(1)).unwrap(), p1);
    assert!(matches!(
        p1.div(Rational::from_int(0)),
        Err(GeometryError::DivisionByZero)
    ));
}

#[test]
fn lib_test_normalize() {
    let p1 = Vec3d::new(
        Rational::from_int(2),
        Rational::from_int(3),
        Rational::from_int(6),
    );
    let zero = Vec3d::new(
        Rational::from_int(0),
        Rational::from_int(0),
        Rational::from_int(0),
    );
    let p1_len = p1.length().unwrap();

    assert_ne!(p1.length().unwrap(), Rational::from_int(0));
    assert_eq!(
        p1.normalize().unwrap(),
        Vec3d::new(
            Rational::from_int(2).div(&p1_len).unwrap(),
            Rational::from_int(3).div(&p1_len).unwrap(),
            Rational::from_int(6).div(&p1_len).unwrap(),
        )
    );

    assert_eq!(zero.length().unwrap(), Rational::from_int(0));
    assert!(matches!(
        zero.normalize(),
        Err(GeometryError::ZeroNormVector)
    ));
}
