use pathtracer::hit::{can_be_ranked, front_face, nearest, HitRecord};
use pathtracer::objects::{march, plane_hit, sphere_hit, March, MarchStep, MARCH_LIMIT};
use std::cell::Cell;
use pathtracer::scalar::Scalar;

fn num(x: f64) -> Scalar {
    Scalar::from_bits(x.to_bits())
}

fn value(hit: Option<Scalar>) -> Option<f64> {
    hit.map(|t| f64::from_bits(t.to_bits()))
}

fn dot(a: [f64; 3], b: [f64; 3]) -> f64 {
    a[0] * b[0] + a[1] * b[1] + a[2] * b[2]
}

/// The hit of a ray on a sphere about the origin, computed as a host does:
/// the parameter, the outward normal and the side.
fn trace_sphere(origin: [f64; 3], dir: [f64; 3], radius: f64, tmin: f64, tmax: f64) -> Option<(f64, [f64; 3], bool)> {
    let a = dot(dir, dir);
    let half_b = dot(origin, dir);
    let c = dot(origin, origin) - radius * radius;
    let discriminant = half_b * half_b - a * c;
    let root = discriminant.sqrt();
    let near = (-half_b - root) / a;
    let far = (-half_b + root) / a;
    let t = value(sphere_hit(num(discriminant), num(near), num(far), num(tmin), num(tmax)))?;
    let point = [origin[0] + t * dir[0], origin[1] + t * dir[1], origin[2] + t * dir[2]];
    let outward = [point[0] / radius, point[1] / radius, point[2] / radius];
    let front = front_face(num(dot(dir, outward)));
    let normal = if front { outward } else { [-outward[0], -outward[1], -outward[2]] };
    Some((t, normal, front))
}

#[test]
fn sphere_hit_from_outside_is_distance_less_radius() {
    let (t, normal, front) = trace_sphere([0.0, 0.0, -5.0], [0.0, 0.0, 1.0], 1.0, 0.001, f64::INFINITY).unwrap();
    assert_eq!(t, 4.0);
    assert_eq!(normal, [0.0, 0.0, -1.0]);
    assert!(front);
    let (t, normal, front) = trace_sphere([3.0, 4.0, 0.0], [-0.6, -0.8, 0.0], 2.0, 0.001, f64::INFINITY).unwrap();
    assert!((t - 3.0).abs() < 1e-12);
    assert!((normal[0] - 0.6).abs() < 1e-12 && (normal[1] - 0.8).abs() < 1e-12);
    assert!(front);
}

#[test]
fn sphere_hit_from_inside_flips_the_normal() {
    let (t, normal, front) = trace_sphere([0.0, 0.0, 0.0], [1.0, 0.0, 0.0], 2.0, 0.001, f64::INFINITY).unwrap();
    assert_eq!(t, 2.0);
    assert!(!front);
    assert_eq!(normal, [-1.0, 0.0, 0.0]);
    let (t, normal, front) = trace_sphere([0.5, 0.0, 0.0], [0.0, 1.0, 0.0], 1.0, 0.001, f64::INFINITY).unwrap();
    assert!((t - 0.75f64.sqrt()).abs() < 1e-12);
    assert!(!front);
    assert!(dot(normal, [0.0, 1.0, 0.0]) < 0.0);
}

#[test]
fn sphere_missed_has_no_hit() {
    assert_eq!(trace_sphere([0.0, 3.0, -5.0], [0.0, 0.0, 1.0], 1.0, 0.001, f64::INFINITY), None);
    assert_eq!(value(sphere_hit(num(-1.0), num(2.0), num(3.0), num(0.001), num(f64::INFINITY))), None);
    assert_eq!(value(sphere_hit(num(-5e-324), num(2.0), num(3.0), num(0.001), num(f64::INFINITY))), None);
}

#[test]
fn sphere_grazed_is_hit() {
    assert_eq!(value(sphere_hit(num(0.0), num(2.0), num(2.0), num(0.001), num(f64::INFINITY))), Some(2.0));
    assert_eq!(value(sphere_hit(num(-0.0), num(2.0), num(2.0), num(0.001), num(f64::INFINITY))), Some(2.0));
}

#[test]
fn sphere_behind_the_ray_has_no_hit() {
    assert_eq!(trace_sphere([0.0, 0.0, 5.0], [0.0, 0.0, 1.0], 1.0, 0.001, f64::INFINITY), None);
    assert_eq!(value(sphere_hit(num(1.0), num(-6.0), num(-4.0), num(0.001), num(f64::INFINITY))), None);
}

#[test]
fn sphere_roots_are_chosen_by_range() {
    let inf = f64::INFINITY;
    assert_eq!(value(sphere_hit(num(1.0), num(2.0), num(3.0), num(0.001), num(inf))), Some(2.0));
    assert_eq!(value(sphere_hit(num(1.0), num(-2.0), num(3.0), num(0.001), num(inf))), Some(3.0));
    assert_eq!(value(sphere_hit(num(1.0), num(3.0), num(-2.0), num(0.001), num(inf))), Some(3.0));
    assert_eq!(value(sphere_hit(num(1.0), num(3.0), num(2.0), num(0.001), num(inf))), Some(2.0));
    assert_eq!(value(sphere_hit(num(1.0), num(0.001), num(3.0), num(0.001), num(inf))), Some(0.001));
    assert_eq!(value(sphere_hit(num(1.0), num(0.0009), num(3.0), num(0.001), num(inf))), Some(3.0));
}

#[test]
fn sphere_beyond_tmax_has_no_hit() {
    assert_eq!(value(sphere_hit(num(1.0), num(2.0), num(3.0), num(0.001), num(1.5))), None);
    assert_eq!(value(sphere_hit(num(1.0), num(2.0), num(3.0), num(0.001), num(2.0))), Some(2.0));
    assert_eq!(value(sphere_hit(num(1.0), num(-2.0), num(3.0), num(0.001), num(2.5))), None);
    assert_eq!(trace_sphere([0.0, 0.0, -5.0], [0.0, 0.0, 1.0], 1.0, 0.001, 3.9), None);
}

#[test]
fn sphere_with_a_nan_root_fails_soft() {
    let nan = f64::NAN;
    let inf = f64::INFINITY;
    assert_eq!(value(sphere_hit(num(1.0), num(nan), num(2.0), num(0.001), num(inf))), Some(2.0));
    assert_eq!(value(sphere_hit(num(1.0), num(2.0), num(nan), num(0.001), num(inf))).map(f64::is_nan), Some(true));
    assert_eq!(value(sphere_hit(num(1.0), num(nan), num(-2.0), num(0.001), num(inf))).map(f64::is_nan), Some(true));
    assert_eq!(value(sphere_hit(num(nan), num(2.0), num(3.0), num(0.001), num(inf))), Some(2.0));
}

#[test]
fn plane_hit_accepts_a_crossing_in_range() {
    assert_eq!(value(plane_hit(num(0.5), num(4.0), num(0.001), num(f64::INFINITY))), Some(4.0));
    assert_eq!(value(plane_hit(num(1.0), num(0.001), num(0.001), num(10.0))), Some(0.001));
    assert_eq!(value(plane_hit(num(1.0), num(10.0), num(0.001), num(10.0))), Some(10.0));
}

#[test]
fn plane_hit_rejects_a_crossing_out_of_range() {
    assert_eq!(value(plane_hit(num(0.5), num(0.0005), num(0.001), num(f64::INFINITY))), None);
    assert_eq!(value(plane_hit(num(0.5), num(-4.0), num(0.001), num(f64::INFINITY))), None);
    assert_eq!(value(plane_hit(num(0.5), num(11.0), num(0.001), num(10.0))), None);
    assert_eq!(value(plane_hit(num(0.5), num(f64::NAN), num(0.001), num(10.0))), None);
}

#[test]
fn plane_hit_rejects_rays_along_or_away() {
    assert_eq!(value(plane_hit(num(0.0), num(4.0), num(0.001), num(f64::INFINITY))), None);
    assert_eq!(value(plane_hit(num(f64::EPSILON), num(4.0), num(0.001), num(f64::INFINITY))), None);
    assert_eq!(value(plane_hit(num(-0.5), num(4.0), num(0.001), num(f64::INFINITY))), None);
    assert_eq!(value(plane_hit(num(f64::NAN), num(4.0), num(0.001), num(f64::INFINITY))), None);
    assert_eq!(value(plane_hit(num(f64::EPSILON * 1.5), num(4.0), num(0.001), num(f64::INFINITY))), Some(4.0));
}

#[test]
fn march_hits_where_the_surface_is_close() {
    let mut march = March::new();
    assert_eq!(march.probe(num(0.5), num(0.001), num(100.0)), MarchStep::Advance);
    assert_eq!(march.probe(num(1e-17), num(0.501), num(100.0)), MarchStep::Hit);
    let mut inside = March::new();
    assert_eq!(inside.probe(num(-3.0), num(0.001), num(100.0)), MarchStep::Hit);
    let mut at_epsilon = March::new();
    assert_eq!(at_epsilon.probe(num(f64::EPSILON), num(0.001), num(100.0)), MarchStep::Advance);
}

#[test]
fn march_misses_beyond_tmax() {
    let mut march = March::new();
    assert_eq!(march.probe(num(60.0), num(0.001), num(100.0)), MarchStep::Advance);
    assert_eq!(march.probe(num(60.0), num(60.001), num(100.0)), MarchStep::Advance);
    assert_eq!(march.probe(num(60.0), num(120.001), num(100.0)), MarchStep::Miss);
    let mut at_limit = March::new();
    assert_eq!(at_limit.probe(num(1.0), num(100.0), num(100.0)), MarchStep::Advance);
}

#[test]
fn march_tests_the_distance_before_the_range() {
    let mut march = March::new();
    assert_eq!(march.probe(num(0.0), num(200.0), num(100.0)), MarchStep::Hit);
}

#[test]
fn march_gives_up_at_the_cap() {
    assert_eq!(MARCH_LIMIT, 1000);
    let mut march = March::new();
    for _ in 0..999 {
        assert_eq!(march.probe(num(1.0), num(1.0), num(f64::INFINITY)), MarchStep::Advance);
    }
    assert_eq!(march.probe(num(1.0), num(1.0), num(f64::INFINITY)), MarchStep::Miss);
    assert_eq!(march.probe(num(0.0), num(1.0), num(f64::INFINITY)), MarchStep::Miss);
    let mut last = March::new();
    for _ in 0..999 {
        last.probe(num(1.0), num(1.0), num(f64::INFINITY));
    }
    assert_eq!(last.probe(num(0.0), num(1.0), num(f64::INFINITY)), MarchStep::Hit);
}

#[test]
fn march_with_a_nan_distance_goes_on() {
    let mut march = March::new();
    assert_eq!(march.probe(num(f64::NAN), num(1.0), num(100.0)), MarchStep::Advance);
    assert_eq!(march.probe(num(1.0), num(f64::NAN), num(100.0)), MarchStep::Advance);
}

#[test]
fn front_face_is_against_the_normal() {
    assert!(front_face(num(-1.0)));
    assert!(front_face(num(-5e-324)));
    assert!(front_face(num(0.0)));
    assert!(front_face(num(-0.0)));
    assert!(!front_face(num(5e-324)));
    assert!(!front_face(num(1.0)));
    assert!(!front_face(num(f64::NAN)));
}

#[test]
fn nearest_of_nothing_is_nothing() {
    assert_eq!(nearest(&vec![]), None);
    assert_eq!(nearest(&vec![None, None, None]), None);
}

#[test]
fn nearest_is_the_smallest_parameter() {
    assert_eq!(nearest(&vec![Some(num(3.0)), None, Some(num(2.0)), Some(num(5.0))]), Some(2));
    assert_eq!(nearest(&vec![None, Some(num(1.0)), Some(num(2.0))]), Some(1));
    assert_eq!(nearest(&vec![Some(num(4.0)), Some(num(3.0)), Some(num(2.0)), Some(num(1.0))]), Some(3));
    assert_eq!(nearest(&vec![Some(num(f64::INFINITY)), Some(num(1e300))]), Some(1));
    assert_eq!(nearest(&vec![Some(num(0.5)), Some(num(-0.5))]), Some(1));
}

#[test]
fn nearest_of_equals_is_the_first() {
    assert_eq!(nearest(&vec![Some(num(3.0)), Some(num(2.0)), None, Some(num(2.0))]), Some(1));
    assert_eq!(nearest(&vec![Some(num(0.0)), Some(num(-0.0))]), Some(0));
    assert_eq!(nearest(&vec![Some(num(-0.0)), Some(num(0.0))]), Some(0));
}

#[test]
fn nearest_of_one_is_that_one() {
    assert_eq!(nearest(&vec![None, Some(num(7.0))]), Some(1));
    assert_eq!(nearest(&vec![Some(num(f64::NAN)), None]), Some(0));
}

#[test]
fn a_record_from_outside_keeps_the_outward_normal() {
    let record = HitRecord::from_hit(num(-0.8), [1.0, 2.0, 3.0], [0.0, 1.0, 0.0], [0.0, -1.0, 0.0], num(4.0), "clay");
    assert!(record.front_face);
    assert_eq!(record.normal, [0.0, 1.0, 0.0]);
    assert_eq!(record.point, [1.0, 2.0, 3.0]);
    assert_eq!(record.t.to_bits(), 4.0f64.to_bits());
    assert_eq!(record.material, "clay");
    let grazing = HitRecord::from_hit(num(0.0), 0u8, 'o', 'r', num(1.0), ());
    assert!(grazing.front_face);
    assert_eq!(grazing.normal, 'o');
}

#[test]
fn a_record_from_inside_keeps_the_reversed_normal() {
    let record = HitRecord::from_hit(num(0.8), [1.0, 2.0, 3.0], [0.0, 1.0, 0.0], [0.0, -1.0, 0.0], num(4.0), "clay");
    assert!(!record.front_face);
    assert_eq!(record.normal, [0.0, -1.0, 0.0]);
    assert_eq!(record.point, [1.0, 2.0, 3.0]);
    assert_eq!(record.t.to_bits(), 4.0f64.to_bits());
    let unknown = HitRecord::from_hit(num(f64::NAN), 0u8, 'o', 'r', num(1.0), ());
    assert!(!unknown.front_face);
    assert_eq!(unknown.normal, 'r');
}

#[test]
fn hits_that_are_numbers_can_be_ranked() {
    assert!(can_be_ranked(&vec![]));
    assert!(can_be_ranked(&vec![None, None]));
    assert!(can_be_ranked(&vec![Some(num(1.0)), None, Some(num(f64::INFINITY)), Some(num(-0.0))]));
}

#[test]
fn a_single_hit_can_always_be_ranked() {
    assert!(can_be_ranked(&vec![Some(num(f64::NAN))]));
    assert!(can_be_ranked(&vec![None, Some(num(f64::NAN)), None]));
}

#[test]
fn a_nan_among_several_hits_cannot_be_ranked() {
    assert!(!can_be_ranked(&vec![Some(num(f64::NAN)), Some(num(1.0))]));
    assert!(!can_be_ranked(&vec![Some(num(1.0)), None, Some(num(f64::NAN))]));
    assert!(!can_be_ranked(&vec![Some(num(1.0)), Some(num(2.0)), Some(num(-f64::NAN)), Some(num(3.0))]));
    assert!(!can_be_ranked(&vec![Some(num(f64::NAN)), Some(num(f64::NAN))]));
}

/// Marches along the z axis from `origin` in the direction `heading` towards
/// the unit sphere about the origin, and counts the probes.
fn march_to_unit_sphere(origin: f64, heading: f64, tmin: f64, tmax: f64) -> (Option<f64>, u32) {
    let probes = Cell::new(0u32);
    let reached = march(
        tmin,
        num(tmax),
        &|depth: &f64| {
            probes.set(probes.get() + 1);
            (origin + depth * heading).abs() - 1.0
        },
        &|depth: f64, gap: f64| depth + gap,
        &|number: &f64| num(*number),
    );
    (reached, probes.get())
}

#[test]
fn a_march_reaches_the_surface() {
    let (reached, probes) = march_to_unit_sphere(-5.0, 1.0, 0.001, f64::INFINITY);
    assert!((reached.unwrap() - 4.0).abs() < 1e-12);
    assert!(probes <= 4);
    let (from_inside, _) = march_to_unit_sphere(0.0, 1.0, 0.001, f64::INFINITY);
    assert_eq!(from_inside, Some(0.001));
}

#[test]
fn a_march_away_from_the_surface_misses() {
    // Depths 0.001, 4.002, 12.004, 28.008 and 60.016 lie within the range;
    // the sixth probe, at 124.032, finds the depth beyond it.
    let (reached, probes) = march_to_unit_sphere(5.0, 1.0, 0.001, 100.0);
    assert_eq!(reached, None);
    assert_eq!(probes, 6);
}

#[test]
fn a_march_stops_short_of_a_surface_beyond_tmax() {
    // A cautious field, half the true distance, takes many steps to arrive.
    let cautious = |tmax: f64| {
        march(
            0.0f64,
            num(tmax),
            &|depth: &f64| 0.5 * ((-5.0 + depth).abs() - 1.0),
            &|depth: f64, gap: f64| depth + gap,
            &|number: &f64| num(*number),
        )
    };
    assert_eq!(cautious(1.5), None);
    assert_eq!(cautious(3.9), None);
    let reached = cautious(4.0).unwrap();
    assert!((reached - 4.0).abs() < 1e-12);
}

#[test]
fn a_march_tests_the_surface_before_the_range() {
    let (reached, probes) = march_to_unit_sphere(-5.0, 1.0, 5.0, 4.5);
    assert_eq!(reached, Some(5.0));
    assert_eq!(probes, 1);
    let (beyond, probes) = march_to_unit_sphere(-5.0, 1.0, 0.0, 3.0);
    assert_eq!(beyond, Some(4.0));
    assert_eq!(probes, 2);
}

#[test]
fn a_march_that_never_arrives_probes_a_thousand_times() {
    let probes = Cell::new(0u32);
    let reached = march(
        0.001f64,
        num(f64::INFINITY),
        &|_: &f64| {
            probes.set(probes.get() + 1);
            1.0
        },
        &|depth: f64, gap: f64| depth + gap,
        &|number: &f64| num(*number),
    );
    assert_eq!(reached, None);
    assert_eq!(probes.get(), 1000);
}

#[test]
fn a_march_hits_at_the_depth_it_stands_at() {
    let reached = march(
        10u32,
        num(f64::INFINITY),
        &|depth: &u32| 13 - *depth,
        &|depth: u32, gap: u32| depth + gap.min(2),
        &|number: &u32| num(*number as f64),
    );
    assert_eq!(reached, Some(13));
}
