use geometry::rational::Rational;
use geometry::triangle::Triangle;
use geometry::vec3d::Vec3d;

#[test]
fn t_area() {
    let zero = Rational::from_int(0);
    let one = Rational::from_int(1);
    let p1 = Vec3d::new(zero, zero, zero);
    let p2 = Vec3d::new(one, zero, zero);
    let p3 = Vec3d::new(zero, one, zero);

    assert_eq!(Triangle::new(&p1, &p2, &p3).area().unwrap(), Rational::new(1, 2));
    assert_eq!(Triangle::new(&p1, &p1, &p3).area().unwrap(), zero); // Collinear
}

#[test]
fn t_barycenter() {
    let zero = Rational::from_int(0);
    let one = Rational::from_int(1);
    let p1 = Vec3d::new(zero, zero, zero);
    let p2 = Vec3d::new(one, zero, zero);
    let p3 = Vec3d::new(zero, one, zero);

    assert_eq!(
        Triangle::new(&p1, &p2, &p3).barycentre(),
        Vec3d::new(Rational::new(1, 3), Rational::new(1, 3), zero)
    );
}

#[test]
fn surface() {
    let zero = Rational::from_int(0);
    let one = Rational::from_int(1);
    let p1 = Vec3d::new(zero, zero, zero);
    let p2 = Vec3d::new(one, zero, zero);
    let p3 = Vec3d::new(zero, one, zero);

    assert_eq!(
        Triangle::new(&p1, &p2, &p3).surface().unwrap().n,
        Vec3d::new(zero, zero, one)
    );
}
