use geometry::line::LineRef;
use geometry::rational::Rational;
use geometry::vec3d::Vec3d;

#[test]
fn line_test_length() {
    let zero = Rational::from_int(0);
    let p1 = Vec3d::new(zero, zero, Rational::from_int(1));
    let p2 = Vec3d::new(zero, zero, Rational::from_int(2));
    let l = LineRef::new(&p1, &p2);

    assert_eq!(l.length().unwrap(), Rational::from_int(1));

    let own_line = l.to_line();

    assert_eq!(own_line.length().unwrap(), Rational::from_int(1))
}

#[test]
fn test_middle_point() {
    let zero = Rational::from_int(0);
    let p1 = Vec3d::new(zero, zero, Rational::from_int(1));
    let p2 = Vec3d::new(zero, zero, Rational::from_int(2));
    let l = LineRef::new(&p1, &p2);

    let middle_point = Vec3d::new(zero, zero, Rational::new(3, 2));

    assert_eq!(l.middle_point(), middle_point);
    let own_line = l.to_line();
    assert_eq!(own_line.middle_point().add(&p2), middle_point);
}
