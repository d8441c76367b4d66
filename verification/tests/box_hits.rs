use boxtrace::block::{Block, Face, FACE_TOLERANCE_BITS};
use boxtrace::color::Color;
use boxtrace::material::Material;
use boxtrace::scalar::{Scalar, MINUS_ONE_BITS, ONE_BITS};
use boxtrace::vector::Vec3;

fn s(x: f32) -> Scalar {
    Scalar::from_bits(x.to_bits())
}

fn v(x: f32, y: f32, z: f32) -> Vec3 {
    Vec3::new(s(x), s(y), s(z))
}

fn value(x: Scalar) -> f32 {
    f32::from_bits(x.to_bits())
}

/// The plane parameters of a ray against a box, as a host computes them.
fn slabs(min: [f32; 3], max: [f32; 3], origin: [f32; 3], dir: [f32; 3]) -> (Vec3, Vec3) {
    let mut t_min = [0.0f32; 3];
    let mut t_max = [0.0f32; 3];
    for a in 0..3 {
        let inv = 1.0 / dir[a];
        t_min[a] = (min[a] - origin[a]) * inv;
        t_max[a] = (max[a] - origin[a]) * inv;
    }
    (v(t_min[0], t_min[1], t_min[2]), v(t_max[0], t_max[1], t_max[2]))
}

fn offsets(corner: [f32; 3], point: [f32; 3]) -> Vec3 {
    v(point[0] - corner[0], point[1] - corner[1], point[2] - corner[2])
}

const MIN: [f32; 3] = [-1.0, -1.0, -1.0];
const MAX: [f32; 3] = [1.0, 1.0, 1.0];

#[test]
fn ray_down_the_z_axis_hits_the_front_face() {
    let origin = [0.0, 0.0, 5.0];
    let dir = [0.0, 0.0, -1.0];
    let (t_min, t_max) = slabs(MIN, MAX, origin, dir);
    let distance = Block::ray_intersect(&t_min, &t_max).expect("the ray hits");
    assert_eq!(value(distance), 4.0);
    let t = value(distance);
    let point = [origin[0] + dir[0] * t, origin[1] + dir[1] * t, origin[2] + dir[2] * t];
    assert_eq!(point, [0.0, 0.0, 1.0]);
    let from_min = offsets(MIN, point);
    let from_max = offsets(MAX, point);
    assert_eq!(Block::face(&from_min, &from_max), Face::MaxZ);
    assert_eq!(Block::get_normal(&from_min, &from_max), v(0.0, 0.0, 1.0));
}

#[test]
fn ray_from_inside_the_box_misses() {
    let (t_min, t_max) = slabs(MIN, MAX, [0.0, 0.0, 0.0], [0.0, 0.0, -1.0]);
    assert_eq!(Block::ray_intersect(&t_min, &t_max), None);
    let (t_min, t_max) = slabs(MIN, MAX, [0.5, -0.25, 0.1], [0.3, 0.4, -0.5]);
    assert_eq!(Block::ray_intersect(&t_min, &t_max), None);
}

#[test]
fn ray_pointing_away_misses() {
    let (t_min, t_max) = slabs(MIN, MAX, [0.0, 0.0, 5.0], [0.0, 0.0, 1.0]);
    assert_eq!(Block::ray_intersect(&t_min, &t_max), None);
    let (t_min, t_max) = slabs(MIN, MAX, [3.0, 3.0, 3.0], [1.0, 1.0, 1.0]);
    assert_eq!(Block::ray_intersect(&t_min, &t_max), None);
}

#[test]
fn ray_passing_beside_the_box_misses() {
    let (t_min, t_max) = slabs(MIN, MAX, [2.0, 0.0, 5.0], [0.0, 0.0, -1.0]);
    assert_eq!(Block::ray_intersect(&t_min, &t_max), None);
}

#[test]
fn oblique_ray_hits_at_the_entry_parameter() {
    let (t_min, t_max) = slabs(MIN, MAX, [-3.0, 0.0, 0.0], [2.0, 0.5, 0.0]);
    let distance = Block::ray_intersect(&t_min, &t_max).expect("the ray hits");
    assert_eq!(value(distance), 1.0);
}

/// The slab test written out in hardware arithmetic.
fn hardware_entry(t_min: [f32; 3], t_max: [f32; 3]) -> Option<f32> {
    let t1 = [t_min[0].min(t_max[0]), t_min[1].min(t_max[1]), t_min[2].min(t_max[2])];
    let t2 = [t_min[0].max(t_max[0]), t_min[1].max(t_max[1]), t_min[2].max(t_max[2])];
    let t_near = t1[0].max(t1[1]).max(t1[2]);
    let t_far = t2[0].min(t2[1]).min(t2[2]);
    if t_near > 0.0 && t_near < t_far {
        Some(t_near)
    } else {
        None
    }
}

#[test]
fn ray_in_a_face_plane_has_a_nan_parameter() {
    // The origin lies in the plane x = 1 and the ray runs parallel to it:
    // the parameter of that plane is 0 * infinity, and the other plane of the
    // axis, at minus infinity, closes the slab.
    let (t_min, t_max) = slabs(MIN, MAX, [1.0, 0.0, 5.0], [0.0, 0.0, -1.0]);
    assert!(value(t_max.x).is_nan());
    assert_eq!(value(t_min.x), f32::NEG_INFINITY);
    assert_eq!(Block::ray_intersect(&t_min, &t_max), None);
    // With the origin in the plane x = -1 the other plane, at plus infinity,
    // is the entry of the axis.
    let (t_min, t_max) = slabs(MIN, MAX, [-1.0, 0.0, 5.0], [0.0, 0.0, -1.0]);
    assert!(value(t_min.x).is_nan());
    assert_eq!(value(t_max.x), f32::INFINITY);
    assert_eq!(Block::ray_intersect(&t_min, &t_max), None);
    assert_eq!(
        hardware_entry(
            [value(t_min.x), value(t_min.y), value(t_min.z)],
            [value(t_max.x), value(t_max.y), value(t_max.z)],
        ),
        None
    );
}

#[test]
fn slab_test_agrees_with_hardware_arithmetic() {
    let xs = [
        f32::NEG_INFINITY, -3.0, -1.0, -0.0, 0.0, 1.0e-45, 0.5, 1.0, 2.0, 4.0, f32::INFINITY,
        f32::NAN,
    ];
    let mut hits = 0;
    for a in xs {
        for b in xs {
            for c in xs {
                for d in xs {
                    let t_min = [a, c, 0.25];
                    let t_max = [b, d, 3.5];
                    let got = Block::ray_intersect(
                        &v(t_min[0], t_min[1], t_min[2]),
                        &v(t_max[0], t_max[1], t_max[2]),
                    );
                    let want = hardware_entry(t_min, t_max);
                    assert_eq!(got.map(value), want, "{:?} {:?}", t_min, t_max);
                    if want.is_some() {
                        hits += 1;
                    }
                }
            }
        }
    }
    assert!(hits > 0);
}

#[test]
fn entry_requires_near_before_far() {
    let t_min = v(2.0, 1.0, 1.0);
    let t_max = v(3.0, 1.5, 4.0);
    assert_eq!(Block::ray_intersect(&t_min, &t_max), None);
    let t_max = v(3.0, 2.5, 4.0);
    assert_eq!(Block::ray_intersect(&t_min, &t_max).map(value), Some(2.0));
    let t_max = v(3.0, 2.0, 4.0);
    assert_eq!(Block::ray_intersect(&t_min, &t_max), None);
}

#[test]
fn faces_are_tried_in_a_fixed_order() {
    let zero = v(0.0, 0.0, 0.0);
    let far = v(2.0, 2.0, 2.0);
    // A corner point lies on three planes: the x face wins.
    assert_eq!(Block::face(&zero, &far), Face::MinX);
    assert_eq!(Block::face(&far, &zero), Face::MaxX);
    assert_eq!(Block::face(&v(1.0, 0.0, 0.0), &v(-1.0, -2.0, 0.0)), Face::MinY);
    assert_eq!(Block::face(&v(1.0, 2.0, 0.0), &v(-1.0, 0.0, 0.0)), Face::MaxY);
    assert_eq!(Block::face(&v(1.0, 1.0, 0.0), &v(-1.0, -1.0, -2.0)), Face::MinZ);
    assert_eq!(Block::face(&v(1.0, 1.0, 2.0), &v(-1.0, -1.0, 0.0)), Face::MaxZ);
    // A point on no plane falls to the last face.
    assert_eq!(Block::face(&v(1.0, 1.0, 1.0), &v(-1.0, -1.0, -1.0)), Face::MaxZ);
}

#[test]
fn face_tolerance_is_a_thousandth() {
    assert_eq!(FACE_TOLERANCE_BITS, 0.001f32.to_bits());
    let far = v(2.0, 2.0, 2.0);
    assert_eq!(Block::face(&v(0.0009, 1.0, 1.0), &far), Face::MinX);
    assert_eq!(Block::face(&v(-0.0009, 1.0, 1.0), &far), Face::MinX);
    assert_eq!(Block::face(&v(0.001, 1.0, 1.0), &far), Face::MaxZ);
    assert_eq!(Block::face(&v(f32::NAN, 0.0, 1.0), &far), Face::MinY);
}

#[test]
fn normals_are_unit_axis_vectors() {
    assert_eq!(ONE_BITS, 1.0f32.to_bits());
    assert_eq!(MINUS_ONE_BITS, (-1.0f32).to_bits());
    assert_eq!(Face::MinX.normal(), v(-1.0, 0.0, 0.0));
    assert_eq!(Face::MaxX.normal(), v(1.0, 0.0, 0.0));
    assert_eq!(Face::MinY.normal(), v(0.0, -1.0, 0.0));
    assert_eq!(Face::MaxY.normal(), v(0.0, 1.0, 0.0));
    assert_eq!(Face::MinZ.normal(), v(0.0, 0.0, -1.0));
    assert_eq!(Face::MaxZ.normal(), v(0.0, 0.0, 1.0));
}

#[test]
fn a_box_needs_its_corners_in_order() {
    let m = Material::new(Color::new(80, 0, 0), s(1.0), [s(0.9), s(0.1), s(0.0), s(0.0)], s(0.0));
    let b = Block::new(v(-7.0, -1.0, -7.0), v(7.0, -0.5, -2.0), m).expect("corners in order");
    assert_eq!(b.min_corner, v(-7.0, -1.0, -7.0));
    assert_eq!(b.max_corner, v(7.0, -0.5, -2.0));
    assert_eq!(b.material, m);
    assert!(Block::new(v(0.0, 0.0, 0.0), v(0.0, 0.0, 0.0), m).is_some());
    assert!(Block::new(v(1.0, 0.0, 0.0), v(0.0, 1.0, 1.0), m).is_none());
    assert!(Block::new(v(0.0, 1.0, 0.0), v(1.0, 0.0, 1.0), m).is_none());
    assert!(Block::new(v(0.0, 0.0, 1.0), v(1.0, 1.0, 0.0), m).is_none());
    assert!(Block::new(v(f32::NAN, 0.0, 0.0), v(1.0, 1.0, 1.0), m).is_none());
}
