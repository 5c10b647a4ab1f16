use raytrace::camera::Camera;
use raytrace::hittable::HitRecord;
use raytrace::ray::Ray;
use raytrace::sphere::{Crossing, Sphere};
use raytrace::vec3::Vec3;

#[test]
fn ray_at_zero_and_affine() {
    let r = Ray::new(Vec3::new(1, 2, 3), Vec3::new(4, -5, 6));
    assert_eq!(r.at(0), Vec3::new(1, 2, 3));
    assert_eq!(r.at(2), Vec3::new(9, -8, 15));
    assert_eq!(r.at(5), r.at(2).add(r.direction.smul(3)));
    assert_eq!(r.at(-1), Vec3::new(-3, 7, -3));
}

#[test]
fn face_normal_turns_against_ray() {
    let r = Ray::new(Vec3::new(0, 0, 0), Vec3::new(0, 0, -1));
    let mut rec = HitRecord::default();
    rec.set_face_normal(&r, &Vec3::new(0, 0, 1));
    assert!(rec.front_face);
    assert_eq!(rec.normal, Vec3::new(0, 0, 1));
    rec.set_face_normal(&r, &Vec3::new(0, 0, -1));
    assert!(!rec.front_face);
    assert_eq!(rec.normal, Vec3::new(0, 0, 1));
    assert_eq!(rec.t, 0);
}

#[test]
fn ray_from_center_leaves_at_radius() {
    let s = Sphere::new(Vec3::new(3, 4, 5), 7);
    for d in [Vec3::new(1, 0, 0), Vec3::new(0, -1, 0), Vec3::new(0, 0, 1)] {
        let r = Ray::new(Vec3::new(3, 4, 5), d);
        assert_eq!(s.hit(&r, 0, 7), Crossing::Miss);
        assert_eq!(s.hit(&r, 0, 8), Crossing::Far);
        assert_eq!(s.hit(&r, 6, 8), Crossing::Far);
        assert_eq!(s.hit(&r, 7, 1000), Crossing::Miss);
        assert_eq!(s.hit(&r, -8, 0), Crossing::Near);
    }
}

#[test]
fn ray_passing_outside_misses() {
    let s = Sphere::new(Vec3::new(0, 0, -10), 2);
    let r = Ray::new(Vec3::new(3, 0, 0), Vec3::new(0, 0, -1));
    assert_eq!(s.hit(&r, -1000, 1000), Crossing::Miss);
}

#[test]
fn tangent_ray_misses() {
    let s = Sphere::new(Vec3::new(0, 0, -10), 2);
    let r = Ray::new(Vec3::new(2, 0, 0), Vec3::new(0, 0, -1));
    assert_eq!(s.hit(&r, -1000, 1000), Crossing::Miss);
}

#[test]
fn ray_through_sphere_takes_near_root_first() {
    let s = Sphere::new(Vec3::new(0, 0, -10), 2);
    let r = Ray::new(Vec3::new(0, 0, 0), Vec3::new(0, 0, -1));
    assert_eq!(s.hit(&r, 0, 1000), Crossing::Near);
    assert_eq!(s.hit(&r, 0, 8), Crossing::Miss);
    assert_eq!(s.hit(&r, 8, 1000), Crossing::Far);
    assert_eq!(s.hit(&r, 12, 1000), Crossing::Miss);
    assert_eq!(s.hit(&r, 0, 9), Crossing::Near);
}

#[test]
fn degenerate_sphere_is_never_hit() {
    let s = Sphere::new(Vec3::new(0, 0, -10), 0);
    let r = Ray::new(Vec3::new(0, 0, 0), Vec3::new(0, 0, -1));
    assert_eq!(s.hit(&r, 0, 1000), Crossing::Miss);
    let s = Sphere::new(Vec3::new(0, 0, -10), -2);
    assert_eq!(s.hit(&r, 0, 1000), Crossing::Miss);
    assert_eq!(s.hit(&r, -1000, 1000), Crossing::Miss);
}

#[test]
fn camera_center_ray_points_ahead() {
    let cam = Camera::new();
    assert_eq!(cam.origin, Vec3::new(0, 0, 0));
    assert_eq!(cam.horizontal, Vec3::new(64, 0, 0));
    assert_eq!(cam.vertical, Vec3::new(0, 36, 0));
    assert_eq!(cam.lower_left_corner, Vec3::new(-32, -18, -18));
    let r = cam.get_ray(1, 1, 2);
    assert_eq!(r.origin, Vec3::new(0, 0, 0));
    assert_eq!(r.direction, Vec3::new(0, 0, -36));
    let r = cam.get_ray(0, 0, 1);
    assert_eq!(r.direction, Vec3::new(-32, -18, -18));
}

fn reference_scene() -> (Sphere, Sphere) {
    // In units of 1/18: a ball at (0, 0, -1) of radius 0.5 and a ground
    // ball at (0, -100.5, -1) of radius 100.
    (
        Sphere::new(Vec3::new(0, 0, -18), 9),
        Sphere::new(Vec3::new(0, -1809, -18), 1800),
    )
}

#[test]
fn centre_pixel_hits_small_sphere() {
    let (small, ground) = reference_scene();
    let cam = Camera::new();
    let (w, h) = (384i64, 216i64);
    let den = (w - 1) * (h - 1);
    let r = cam.get_ray((w / 2) * (h - 1), (h / 2) * (w - 1), den);
    assert_eq!(small.hit(&r, 0, 1_000_000_000), Crossing::Near);
    assert_eq!(ground.hit(&r, 0, 1_000_000_000), Crossing::Miss);
}

#[test]
fn top_row_pixel_sees_background() {
    let (small, ground) = reference_scene();
    let cam = Camera::new();
    let (w, h) = (384i64, 216i64);
    let den = (w - 1) * (h - 1);
    for i in [0i64, 100, 191, 383] {
        let r = cam.get_ray(i * (h - 1), (h - 1) * (w - 1), den);
        assert_eq!(small.hit(&r, 0, 1_000_000_000), Crossing::Miss);
        assert_eq!(ground.hit(&r, 0, 1_000_000_000), Crossing::Miss);
    }
}

#[test]
fn bottom_row_pixel_sees_ground() {
    let (_, ground) = reference_scene();
    let cam = Camera::new();
    let r = cam.get_ray(1, 0, 2);
    assert_eq!(ground.hit(&r, 0, 1_000_000_000), Crossing::Near);
}
