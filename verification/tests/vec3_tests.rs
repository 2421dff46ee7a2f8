use raytracer::fixed::Fx;
use raytracer::vec3::Vec3;

fn fx(n: i64) -> Fx {
    Fx::from_units(n)
}

#[test]
fn test_new() {
    let v = Vec3::new(fx(1), fx(2), fx(3));
    assert_eq!(v.x().raw(), 1_000_000);
    assert_eq!(v.y().raw(), 2_000_000);
    assert_eq!(v.z().raw(), 3_000_000);
}

#[test]
fn test_length_squared() {
    let v = Vec3::new(fx(1), fx(2), fx(3));
    let vls = v.length_squared();
    assert_eq!(vls.raw(), 14_000_000);
}

#[test]
fn test_length() {
    let v = Vec3::new(fx(3), fx(4), fx(0));
    let vl = v.length();
    assert_eq!(vl.raw(), 5_000_000);
}

#[test]
fn test_unit_vector() {
    let v = Vec3::new(fx(3), fx(4), fx(0));
    let v = v.unit_vector();
    assert_eq!(v.length().raw(), 1_000_000);
    assert_eq!(v.x().raw(), 600_000);
    assert_eq!(v.y().raw(), 800_000);
    assert_eq!(v.z().raw(), 0);
}

#[test]
fn test_add() {
    let v = Vec3::new(fx(1), fx(2), fx(3));
    let b = Vec3::new(fx(4), fx(5), fx(6));
    let vpb = v.add(b);
    assert_eq!(vpb.x().raw(), 5_000_000);
    assert_eq!(vpb.y().raw(), 7_000_000);
    assert_eq!(vpb.z().raw(), 9_000_000);
}

#[test]
fn test_sub() {
    let v = Vec3::new(fx(1), fx(2), fx(3));
    let b = Vec3::new(fx(4), fx(6), fx(8));
    let bmv = b.sub(v);
    assert_eq!(bmv.x().raw(), 3_000_000);
    assert_eq!(bmv.y().raw(), 4_000_000);
    assert_eq!(bmv.z().raw(), 5_000_000);
}

#[test]
fn test_index() {
    let v = Vec3::new(fx(1), fx(2), fx(3));
    assert_eq!(v.index(0).raw(), 1_000_000);
    assert_eq!(v.index(1).raw(), 2_000_000);
    assert_eq!(v.index(2).raw(), 3_000_000);
}

#[test]
fn test_index_mut() {
    let mut v = Vec3::new(fx(1), fx(2), fx(3));
    v.index_mut(0, fx(4));
    v.index_mut(1, fx(5));
    v.index_mut(2, fx(6));
    assert_eq!(v.index(0).raw(), 4_000_000);
    assert_eq!(v.index(1).raw(), 5_000_000);
    assert_eq!(v.index(2).raw(), 6_000_000);
}

#[test]
fn test_mul_f32() {
    let v = Vec3::new(fx(1), fx(2), fx(3));
    let vm = v.mul(fx(2));
    assert_eq!(vm.x().raw(), 2_000_000);
    assert_eq!(vm.y().raw(), 4_000_000);
    assert_eq!(vm.z().raw(), 6_000_000);
}

#[test]
fn test_mul_self() {
    let v = Vec3::new(fx(1), fx(2), fx(3));
    let b = Vec3::new(fx(4), fx(5), fx(6));
    let vb = v.const_mul(&b);
    assert_eq!(vb.x().raw(), 4_000_000);
    assert_eq!(vb.y().raw(), 10_000_000);
    assert_eq!(vb.z().raw(), 18_000_000);
}

#[test]
fn test_div_f32() {
    let v = Vec3::new(fx(9), fx(3), fx(12));
    let vd = v.div(fx(3));
    assert_eq!(vd.x().raw(), 3_000_000);
    assert_eq!(vd.y().raw(), 1_000_000);
    assert_eq!(vd.z().raw(), 4_000_000);
}

#[test]
fn test_div_self() {
    let v = Vec3::new(fx(10), fx(21), fx(30));
    let b = Vec3::new(fx(5), fx(7), fx(3));
    let vdb = v.div_vec(b);
    assert_eq!(vdb.x().raw(), 2_000_000);
    assert_eq!(vdb.y().raw(), 3_000_000);
    assert_eq!(vdb.z().raw(), 10_000_000);
}

#[test]
fn test_neg() {
    let v = Vec3::new(fx(1), fx(2), fx(3));
    let nv = v.neg();
    assert_eq!(nv.x().raw(), -1_000_000);
    assert_eq!(nv.y().raw(), -2_000_000);
    assert_eq!(nv.z().raw(), -3_000_000);
}
