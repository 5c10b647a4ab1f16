use raytrace::camera::Camera;
use raytrace::hittable_vec::HittableVec;
use raytrace::ray::Ray;
use raytrace::sphere::Sphere;
use raytrace::vec3::Vec3;

fn reference_world() -> HittableVec {
    let mut world = HittableVec::default();
    world.add(Sphere::new(Vec3::new(0, 0, -18), 9));
    world.add(Sphere::new(Vec3::new(0, -1809, -18), 1800));
    world
}

#[test]
fn add_appends_and_clear_empties() {
    let mut world = HittableVec::default();
    assert!(world.objects.is_empty());
    let s = Sphere::new(Vec3::new(1, 2, 3), 4);
    world.add(s);
    world.add(s);
    assert_eq!(world.objects, vec![s, s]);
    world.clear();
    assert!(world.objects.is_empty());
}

#[test]
fn empty_scene_is_never_hit() {
    let world = HittableVec::default();
    let r = Ray::new(Vec3::new(0, 0, 0), Vec3::new(0, 0, -1));
    assert!(!world.hit_anything(&r, 0, 1_000_000_000));
}

#[test]
fn overlapping_spheres_hit_in_either_order() {
    let a = Sphere::new(Vec3::new(0, 0, -10), 3);
    let b = Sphere::new(Vec3::new(0, 0, -14), 3);
    let r = Ray::new(Vec3::new(0, 0, 0), Vec3::new(0, 0, -1));
    for order in [[a, b], [b, a]] {
        let mut world = HittableVec::default();
        world.add(order[0]);
        world.add(order[1]);
        assert!(world.hit_anything(&r, 0, 1000));
        assert!(!world.hit_anything(&r, 0, 7));
        assert!(world.hit_anything(&r, 0, 8));
    }
}

#[test]
fn reference_scene_centre_and_sky() {
    let world = reference_world();
    let cam = Camera::new();
    let (w, h) = (384i64, 216i64);
    let den = (w - 1) * (h - 1);
    let centre = cam.get_ray((w / 2) * (h - 1), (h / 2) * (w - 1), den);
    assert!(world.hit_anything(&centre, 0, 1_000_000_000));
    let sky = cam.get_ray(0, (h - 1) * (w - 1), den);
    assert!(!world.hit_anything(&sky, 0, 1_000_000_000));
}
