use boxtrace::color::Color;
use boxtrace::material::Material;
use boxtrace::ray_intersect::Intersect;
use boxtrace::scalar::Scalar;
use boxtrace::trace::{cast_ray, first_occluder, nearest_hit, sky_color, RayStep, MAX_DEPTH};
use boxtrace::vector::Vec3;

fn s(x: f32) -> Scalar {
    Scalar::from_bits(x.to_bits())
}

fn material(albedo: [f32; 4]) -> Material {
    Material::new(
        Color::new(80, 0, 0),
        s(1.0),
        [s(albedo[0]), s(albedo[1]), s(albedo[2]), s(albedo[3])],
        s(1.33),
    )
}

fn hit(distance: f32, albedo: [f32; 4]) -> Intersect {
    let p = Vec3::new(s(0.0), s(0.0), s(0.0));
    Intersect::new(p, p, s(distance), material(albedo))
}

const DIFFUSE: [f32; 4] = [1.0, 0.0, 0.0, 0.0];
const WATER: [f32; 4] = [0.1, 0.8, 0.1, 0.6];
const LEAVES: [f32; 4] = [0.8, 0.2, 0.1, 0.0];

#[test]
fn nearest_hit_has_the_least_distance() {
    let hits = vec![hit(5.0, DIFFUSE), Intersect::empty(), hit(2.0, DIFFUSE), hit(3.0, DIFFUSE)];
    assert_eq!(nearest_hit(&hits), Some(2));
}

#[test]
fn nearest_hit_keeps_the_first_of_equal_distances() {
    let hits = vec![hit(5.0, DIFFUSE), hit(2.0, DIFFUSE), hit(2.0, WATER)];
    assert_eq!(nearest_hit(&hits), Some(1));
}

#[test]
fn nearest_hit_of_misses_is_none() {
    assert_eq!(nearest_hit(&vec![Intersect::empty(), Intersect::empty()]), None);
    assert_eq!(nearest_hit(&Vec::new()), None);
}

#[test]
fn nearest_hit_passes_over_infinite_and_nan_distances() {
    let hits = vec![hit(f32::INFINITY, DIFFUSE), hit(f32::NAN, DIFFUSE)];
    assert_eq!(nearest_hit(&hits), None);
    let hits = vec![hit(f32::NAN, DIFFUSE), hit(7.0, DIFFUSE), hit(f32::INFINITY, DIFFUSE)];
    assert_eq!(nearest_hit(&hits), Some(1));
}

#[test]
fn first_occluder_is_the_first_in_scene_order_not_the_nearest() {
    let hits = vec![Intersect::empty(), hit(3.0, DIFFUSE), hit(1.0, DIFFUSE)];
    assert_eq!(first_occluder(&hits, s(4.0)), Some(1));
}

#[test]
fn occluder_beyond_the_light_casts_no_shadow() {
    let hits = vec![hit(4.0, DIFFUSE), hit(9.0, DIFFUSE)];
    assert_eq!(first_occluder(&hits, s(4.0)), None);
    assert_eq!(first_occluder(&hits, s(4.5)), Some(0));
    assert_eq!(first_occluder(&hits, s(f32::NAN)), None);
    assert_eq!(first_occluder(&Vec::new(), s(4.0)), None);
}

#[test]
fn ray_beyond_the_depth_cap_is_sky_whatever_it_hits() {
    let hits = vec![hit(1.0, WATER)];
    assert_eq!(MAX_DEPTH, 3);
    assert_eq!(cast_ray(4, &hits), RayStep::Background(sky_color()));
    assert_eq!(cast_ray(u32::MAX, &hits), RayStep::Background(sky_color()));
    assert_eq!(cast_ray(4, &Vec::new()), RayStep::Background(Color::new(68, 142, 228)));
}

#[test]
fn ray_into_an_empty_scene_is_sky() {
    for depth in 0..=4 {
        assert_eq!(cast_ray(depth, &Vec::new()), RayStep::Background(sky_color()));
    }
    assert_eq!(cast_ray(0, &vec![Intersect::empty()]), RayStep::Background(sky_color()));
}

#[test]
fn diffuse_surface_spawns_no_secondary_ray() {
    let hits = vec![hit(2.0, DIFFUSE)];
    for depth in 0..=3 {
        assert_eq!(
            cast_ray(depth, &hits),
            RayStep::Surface { object: 0, reflect: false, refract: false, depth: depth + 1 }
        );
    }
}

#[test]
fn secondary_rays_follow_the_material_of_the_nearest_hit() {
    let hits = vec![hit(6.0, DIFFUSE), hit(2.0, WATER), hit(3.0, LEAVES)];
    assert_eq!(
        cast_ray(0, &hits),
        RayStep::Surface { object: 1, reflect: true, refract: true, depth: 1 }
    );
    let hits = vec![hit(6.0, DIFFUSE), hit(4.0, WATER), hit(3.0, LEAVES)];
    assert_eq!(
        cast_ray(3, &hits),
        RayStep::Surface { object: 2, reflect: true, refract: false, depth: 4 }
    );
}

#[test]
fn negative_or_nan_weights_spawn_nothing() {
    let hits = vec![hit(2.0, [1.0, 0.0, -0.5, f32::NAN])];
    assert_eq!(
        cast_ray(0, &hits),
        RayStep::Surface { object: 0, reflect: false, refract: false, depth: 1 }
    );
    assert!(!material([1.0, 0.0, -0.0, 0.0]).is_reflective());
    assert!(material([0.0, 0.0, 1.0e-45, 0.0]).is_reflective());
    assert!(material([0.0, 0.0, 0.0, 0.6]).is_transparent());
}

#[test]
fn empty_record_is_a_miss() {
    let e = Intersect::empty();
    assert!(!e.is_intersecting);
    assert_eq!(e.material, Material::black());
    let h = hit(2.0, DIFFUSE);
    assert!(h.is_intersecting);
    assert_eq!(h.distance, s(2.0));
}
