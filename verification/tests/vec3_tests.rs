use pathtracer::scalar::Scalar;
use pathtracer::vec3::red;
use pathtracer::vec3::Vec3;

fn s(x: f32) -> Scalar {
    Scalar::from_bits(x.to_bits())
}

fn f(x: Scalar) -> f32 {
    f32::from_bits(x.to_bits())
}

fn v3(x: f32, y: f32, z: f32) -> Vec3 {
    Vec3::new(s(x), s(y), s(z))
}

fn length(v: &Vec3) -> f32 {
    (f(v.x()) * f(v.x()) + f(v.y()) * f(v.y()) + f(v.z()) * f(v.z())).sqrt()
}

fn scaled(v: &Vec3, k: f32) -> Vec3 {
    v3(f(v.x()) * k, f(v.y()) * k, f(v.z()) * k)
}

fn sub(a: &Vec3, b: &Vec3) -> Vec3 {
    v3(f(a.x()) - f(b.x()), f(a.y()) - f(b.y()), f(a.z()) - f(b.z()))
}

fn unit_vector(v: &Vec3) -> Vec3 {
    let len = length(v);
    v3(f(v.x()) / len, f(v.y()) / len, f(v.z()) / len)
}

fn make_unit_vector(v: &mut Vec3) {
    let k = 1.0 / length(v);
    *v = v3(f(v.x()) * k, f(v.y()) * k, f(v.z()) * k);
}

fn dot(a: &Vec3, b: &Vec3) -> f32 {
    (f(a.x()) * f(b.x())) + (f(a.y()) * f(b.y())) + (f(a.z()) * f(b.z()))
}

fn cross(a: &Vec3, b: &Vec3) -> Vec3 {
    v3(
        f(a.y()) * f(b.z()) - f(a.z()) * f(b.y()),
        -(f(a.x()) * f(b.z()) - f(a.z()) * f(b.x())),
        f(a.x()) * f(b.y()) - f(a.y()) * f(b.x()),
    )
}

fn is_close(v1: &Vec3, v2: &Vec3, thresh: f32) -> bool {
    sub(v1, v2).all_below(s(thresh))
}

#[test]
fn vec3_test() {
    let v = v3(4.0, 8.0, 19.0);
    let mut x = v3(2.0, 2.0, 2.0);
    assert_eq!(length(&v), 21.0);
    assert_eq!(v.neg(), v3(-4.0, -8.0, -19.0));
    assert_eq!(dot(&x, &v), 62.0);
    assert_eq!(scaled(&v, 2.0), v3(8.0, 16.0, 38.0));
    assert!(is_close(&unit_vector(&v3(1.0, 1.0, 1.0)), &v3(0.577, 0.577, 0.577), 0.001));
    assert!(is_close(&unit_vector(&v3(1.0, 0.0, 0.0)), &v3(1.0, 0.0, 0.0), 0.001));

    make_unit_vector(&mut x);
    assert!(is_close(&x, &v3(0.577, 0.577, 0.577), 0.001));

    assert_eq!(cross(&v3(1.0, 1.0, 1.0), &v3(1.0, 1.0, 1.0)), v3(0.0, 0.0, 0.0));
    assert_eq!(cross(&v3(-1.0, 1.0, 1.0), &v3(1.0, 1.0, 1.0)), v3(0.0, 2.0, -2.0));
}

#[test]
fn components_come_back_as_given() {
    let v = v3(1.5, -2.5, 3.25);
    assert_eq!(v.x().to_bits(), 1.5f32.to_bits());
    assert_eq!(v.y().to_bits(), (-2.5f32).to_bits());
    assert_eq!(v.z().to_bits(), 3.25f32.to_bits());
    assert_eq!(v.r().to_bits(), v.x().to_bits());
    assert_eq!(v.g().to_bits(), v.y().to_bits());
    assert_eq!(v.b().to_bits(), v.z().to_bits());
}

#[test]
fn named_triples() {
    assert_eq!(Vec3::zeros(), v3(0.0, 0.0, 0.0));
    assert_eq!(Vec3::ones(), v3(1.0, 1.0, 1.0));
    assert_eq!(red(), v3(1.0, 0.0, 0.0));
    assert_eq!(red().r().to_bits(), 1.0f32.to_bits());
    assert_eq!(red().g().to_bits(), 0);
    assert_eq!(red().b().to_bits(), 0);
}

#[test]
fn equality_is_that_of_numbers() {
    assert_eq!(v3(0.0, -0.0, 0.0), v3(-0.0, 0.0, -0.0));
    assert_ne!(v3(f32::NAN, 0.0, 0.0), v3(f32::NAN, 0.0, 0.0));
    assert_ne!(v3(1.0, 2.0, 3.0), v3(1.0, 2.0, 3.5));
    assert_ne!(v3(1.0, 2.0, 3.0), v3(1.0, 2.5, 3.0));
    assert_ne!(v3(1.0, 2.0, 3.0), v3(1.5, 2.0, 3.0));
}

#[test]
fn neg_changes_every_sign() {
    let v = v3(0.0, -7.0, f32::INFINITY).neg();
    assert_eq!(v.x().to_bits(), (-0.0f32).to_bits());
    assert_eq!(v.y().to_bits(), 7.0f32.to_bits());
    assert_eq!(v.z().to_bits(), f32::NEG_INFINITY.to_bits());
    assert_eq!(v.neg(), v3(0.0, -7.0, f32::INFINITY));
}

#[test]
fn all_below_asks_every_component() {
    assert!(v3(0.1, -4.0, 0.2).all_below(s(0.5)));
    assert!(!v3(0.5, 0.0, 0.0).all_below(s(0.5)));
    assert!(!v3(0.0, 0.6, 0.0).all_below(s(0.5)));
    assert!(!v3(0.0, 0.0, 0.7).all_below(s(0.5)));
    assert!(!v3(0.0, f32::NAN, 0.0).all_below(s(0.5)));
    assert!(!v3(0.0, 0.0, 0.0).all_below(s(f32::NAN)));
}
