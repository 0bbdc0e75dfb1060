use pathtracer::material::Lambertian;
use pathtracer::material::Material;
use pathtracer::material::Metal;
use pathtracer::objects::HitRecord;
use pathtracer::ray::Ray;
use pathtracer::scalar::Scalar;
use pathtracer::vec3::Vec3;

fn s(x: f32) -> Scalar {
    Scalar::from_bits(x.to_bits())
}

fn f(x: Scalar) -> f32 {
    f32::from_bits(x.to_bits())
}

fn v3(x: f32, y: f32, z: f32) -> Vec3 {
    Vec3::new(s(x), s(y), s(z))
}

fn dot(a: &Vec3, b: &Vec3) -> f32 {
    (f(a.x()) * f(b.x())) + (f(a.y()) * f(b.y())) + (f(a.z()) * f(b.z()))
}

fn unit_vector(v: &Vec3) -> Vec3 {
    let len = dot(v, v).sqrt();
    v3(f(v.x()) / len, f(v.y()) / len, f(v.z()) / len)
}

fn reflect(v: &Vec3, normal: &Vec3) -> Vec3 {
    let k = dot(v, normal);
    v3(
        f(v.x()) - f(normal.x()) * 2.0 * k,
        f(v.y()) - f(normal.y()) * 2.0 * k,
        f(v.z()) - f(normal.z()) * 2.0 * k,
    )
}

fn record(p: Vec3, normal: Vec3) -> HitRecord {
    HitRecord { t: s(1.0), p, normal, material: 0 }
}

#[test]
fn material_test() {
    let albedo = v3(0.8, 0.6, 0.2);
    let dir = v3(1.0, 1.0, 1.0);
    let l = Material::Lambertian(Lambertian { albedo });
    let hit_rec = HitRecord { t: s(1.0), p: dir.clone(), normal: dir.clone(), material: 0 };
    let inside = v3(0.25, -0.5, 0.125);
    let direction = v3(1.0 + 0.25, 1.0 - 0.5, 1.0 + 0.125);
    assert!(dot(&inside, &inside) < 1.0);

    let (_scattered_ray, attenuation) = l.scatter(&hit_rec, &direction, s(0.0)).unwrap();
    assert_eq!(attenuation, albedo);
}

#[test]
fn a_diffuse_material_always_scatters() {
    let albedo = v3(0.8, 0.3, 0.3);
    let diffuse = Lambertian { albedo };
    let hit_rec = record(v3(0.0, 0.0, -0.5), v3(0.0, 0.0, 1.0));
    for direction in [v3(0.0, 0.0, 1.0), v3(0.3, -0.2, 0.1), v3(0.0, 0.0, 0.0), v3(0.0, 0.0, -1.0)] {
        let (ray, attenuation) = diffuse.scatter(&hit_rec, &direction).expect("always scatters");
        assert_eq!(ray, Ray::new(&hit_rec.p, &direction));
        assert_eq!(attenuation, albedo);
        for facing in [1.0, 0.0, -1.0, f32::NAN] {
            let (ray, attenuation) = Material::Lambertian(diffuse)
                .scatter(&hit_rec, &direction, s(facing))
                .expect("always scatters");
            assert_eq!(ray.origin(), &hit_rec.p);
            assert_eq!(ray.direction(), &direction);
            assert_eq!(attenuation, albedo);
        }
    }
}

#[test]
fn a_metal_scatters_a_reflection_that_leaves_the_surface() {
    let albedo = v3(0.8, 0.6, 0.2);
    let metal = Metal { albedo };
    let normal = v3(0.0, 1.0, 0.0);
    let hit_rec = record(v3(2.0, 0.0, 0.0), normal);
    let incoming = unit_vector(&v3(1.0, -1.0, 0.0));
    let reflected = reflect(&incoming, &normal);
    let facing = dot(&reflected, &normal);
    assert!(facing > 0.0);
    let (ray, attenuation) = metal.scatter(&hit_rec, &reflected, s(facing)).expect("reflects");
    assert_eq!(ray, Ray::new(&v3(2.0, 0.0, 0.0), &reflected));
    assert!((f(ray.direction().x()) - f(incoming.x())).abs() < 1.0e-6);
    assert!((f(ray.direction().y()) + f(incoming.y())).abs() < 1.0e-6);
    assert_eq!(attenuation, albedo);
    let through = Material::Metal(metal).scatter(&hit_rec, &reflected, s(facing));
    assert_eq!(through, Some((Ray::new(&hit_rec.p, &reflected), albedo)));
}

#[test]
fn a_metal_absorbs_a_reflection_that_enters_the_surface() {
    let metal = Metal { albedo: v3(0.8, 0.8, 0.8) };
    let normal = v3(0.0, 1.0, 0.0);
    let hit_rec = record(v3(0.0, 0.0, 0.0), normal);
    let from_inside = unit_vector(&v3(1.0, 1.0, 0.0));
    let reflected = reflect(&from_inside, &normal);
    let facing = dot(&reflected, &normal);
    assert!(facing < 0.0);
    assert_eq!(metal.scatter(&hit_rec, &reflected, s(facing)), None);
    assert_eq!(Material::Metal(metal).scatter(&hit_rec, &reflected, s(facing)), None);
    let grazing = v3(1.0, 0.0, 0.0);
    assert_eq!(metal.scatter(&hit_rec, &grazing, s(dot(&grazing, &normal))), None);
    assert_eq!(metal.scatter(&hit_rec, &grazing, s(-0.0)), None);
    assert_eq!(metal.scatter(&hit_rec, &grazing, s(f32::NAN)), None);
    assert!(metal.scatter(&hit_rec, &grazing, s(1.0e-45)).is_some());
}

#[test]
fn the_albedo_is_that_of_the_variant() {
    let a = v3(0.8, 0.3, 0.3);
    let b = v3(0.8, 0.6, 0.2);
    assert_eq!(Material::Lambertian(Lambertian { albedo: a }).albedo(), a);
    assert_eq!(Material::Metal(Metal { albedo: b }).albedo(), b);
}
