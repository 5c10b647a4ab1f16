use raytrace::vec3::{cross, dot, Vec3};

#[test]
fn test_add() {
    let a = Vec3::new(1, 2, 3);
    let b = Vec3::new(2, 3, 4);

    assert_eq!(a.add(b), Vec3::new(3, 5, 7));
}

#[test]
fn test_scalar_mul() {
    let a = Vec3::new(1, 2, 3);
    let m = 2;

    assert_eq!(a.smul(m), Vec3::new(2, 4, 6));
}

#[test]
fn test_neg() {
    let a = Vec3::new(1, 2, 3);
    assert_eq!(a.neg(), Vec3::new(-1, -2, -3));
}

#[test]
fn test_dot() {
    let a = Vec3::new(1, 2, 3);
    let b = Vec3::new(1, 2, 3);

    assert_eq!(a.dot(b), 14);
}

#[test]
fn test_cross() {
    let a: Vec3 = Vec3::new(2, 3, 4);
    let b: Vec3 = Vec3::new(5, 6, 7);

    assert_eq!(a.cross(b), Vec3::new(-3, 6, -3));
}

#[test]
fn exact_scalar_division() {
    let a = Vec3::new(2, -4, 6);
    assert_eq!(a.sdiv(2), Vec3::new(1, -2, 3));
    assert_eq!(a.sdiv(-2), Vec3::new(-1, 2, -3));
}

#[test]
fn sub_and_hadamard() {
    let a = Vec3::new(5, 7, 9);
    let b = Vec3::new(1, 2, 3);
    assert_eq!(a.sub(b), Vec3::new(4, 5, 6));
    assert_eq!(a.mul(b), Vec3::new(5, 14, 27));
}

#[test]
fn length_squared_is_sum_of_squares() {
    let a = Vec3::new(1, 2, 3);
    assert_eq!(a.length_squared(), 14);
    assert_eq!(a.length_squared(), a.dot(a));
    assert_eq!(Vec3::new(-3, 0, 4).length_squared(), 25);
}

#[test]
fn free_functions_agree_with_methods() {
    let a = Vec3::new(2, 3, 4);
    let b = Vec3::new(5, 6, 7);
    assert_eq!(dot(&a, &b), 56);
    assert_eq!(cross(&a, &b), a.cross(b));
}

#[test]
fn algebra_laws_on_values() {
    let a = Vec3::new(1, -2, 3);
    let b = Vec3::new(-4, 5, 6);
    let c = Vec3::new(7, 8, -9);
    assert_eq!(a.add(b), b.add(a));
    assert_eq!(a.add(b).add(c), a.add(b.add(c)));
    assert_eq!(a.smul(7).sdiv(7), a);
    assert_eq!(a.cross(b), b.cross(a).neg());
}

#[test]
fn accessors_and_defaults() {
    let a = Vec3::new(1, 2, 3);
    assert_eq!((a.x(), a.y(), a.z()), (1, 2, 3));
    assert_eq!(Vec3::from_vec3(&a), a);
    assert_eq!(Vec3::default(), Vec3::new(0, 0, 0));
}
