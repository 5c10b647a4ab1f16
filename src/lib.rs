pub mod camera;
pub mod hittable;
pub mod hittable_vec;
pub mod ppm;
pub mod ray;
pub mod sphere;
pub mod vec3;
