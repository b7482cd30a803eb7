use raytrace::color::channel_to_byte;
use raytrace::geometry::nearest_hit;
use raytrace::geometry::orient_normal;
use raytrace::geometry::pick_root;
use raytrace::geometry::RootChoice;
use raytrace::order::order_code;
use raytrace::scatter::scatter_plan;
use raytrace::scatter::ScatterPlan;
use raytrace::scatter::SurfaceEvent;
use raytrace::trace::bounce_event;
use raytrace::trace::budget_spent;
use raytrace::trace::trace_step;
use raytrace::trace::TraceAction;
use raytrace::trace::TraceEvent;

/// The order code of a float, computed by the library from its bit pattern.
fn code(x: f32) -> u64 {
    order_code(x.to_bits())
}

#[test]
fn order_codes_sort_like_floats() {
    let xs = [-1000.0f32, -1.0, -1e-8, 0.0, 1e-8, 0.001, 0.5, 1.0, f32::MAX];
    for w in xs.windows(2) {
        assert!(code(w[0]) < code(w[1]));
    }
}

#[test]
fn channel_clamps_and_scales() {
    assert_eq!(channel_to_byte(0), 0);
    assert_eq!(channel_to_byte(-5), 0);
    assert_eq!(channel_to_byte(-1_000_000), 0);
    assert_eq!(channel_to_byte(250_000), 64);
    assert_eq!(channel_to_byte(500_000), 128);
    assert_eq!(channel_to_byte(999_000), 254);
    assert_eq!(channel_to_byte(1_000_000), 254);
}

#[test]
fn overexposed_channel_never_reaches_255() {
    // An accumulated channel of 1.2 — well over full brightness — is clamped
    // at the 0.999 ceiling, so the emitted byte stays below 255.
    assert_eq!(channel_to_byte(1_200_000), 254);
    assert_eq!(channel_to_byte(i64::MAX), 254);
    for m in (0i64..3_000_000).step_by(997) {
        assert!(channel_to_byte(m) <= 254);
    }
}

#[test]
fn root_outside_discriminant_misses() {
    let t = |x: f32| code(x);
    assert_eq!(
        pick_root(false, t(0.001), t(f32::MAX), t(1.0), t(2.0)),
        RootChoice::Miss
    );
}

#[test]
fn near_root_is_preferred() {
    let t = |x: f32| code(x);
    assert_eq!(
        pick_root(true, t(0.001), t(f32::MAX), t(1.0), t(2.0)),
        RootChoice::Near
    );
}

#[test]
fn far_root_taken_when_near_is_behind() {
    // Ray origin inside the sphere: the near root is negative.
    let t = |x: f32| code(x);
    assert_eq!(
        pick_root(true, t(0.001), t(f32::MAX), t(-1.0), t(1.0)),
        RootChoice::Far
    );
}

#[test]
fn both_roots_out_of_range_miss() {
    let t = |x: f32| code(x);
    assert_eq!(
        pick_root(true, t(0.001), t(0.5), t(1.0), t(2.0)),
        RootChoice::Miss
    );
    // Both roots behind the ray.
    assert_eq!(
        pick_root(true, t(0.001), t(f32::MAX), t(-2.0), t(-1.0)),
        RootChoice::Miss
    );
}

#[test]
fn interval_bounds_are_inclusive() {
    let t = |x: f32| code(x);
    assert_eq!(
        pick_root(true, t(1.0), t(2.0), t(1.0), t(3.0)),
        RootChoice::Near
    );
    assert_eq!(
        pick_root(true, t(1.0), t(2.0), t(0.5), t(2.0)),
        RootChoice::Far
    );
}

#[test]
fn front_face_iff_dot_negative() {
    let zero = code(0.0);
    let facing = orient_normal(code(-0.7), zero);
    assert!(facing.front_face);
    assert!(!facing.flip);
    let behind = orient_normal(code(0.7), zero);
    assert!(!behind.front_face);
    assert!(behind.flip);
    // A grazing ray (dot exactly zero) counts as a back face.
    let grazing = orient_normal(zero, zero);
    assert!(!grazing.front_face);
    assert!(grazing.flip);
}

#[test]
fn empty_scene_has_no_hit() {
    assert_eq!(nearest_hit(&Vec::new()), None);
    assert_eq!(nearest_hit(&vec![None, None, None]), None);
}

#[test]
fn nearest_candidate_wins() {
    let keys = vec![
        Some(code(7.5)),
        None,
        Some(code(0.25)),
        Some(code(3.0)),
    ];
    assert_eq!(nearest_hit(&keys), Some(2));
}

#[test]
fn tie_falls_to_the_later_candidate() {
    let keys = vec![Some(code(1.0)), Some(code(2.0)), Some(code(1.0))];
    assert_eq!(nearest_hit(&keys), Some(2));
}

#[test]
fn single_candidate_wins() {
    let keys = vec![None, Some(code(42.0))];
    assert_eq!(nearest_hit(&keys), Some(1));
}

#[test]
fn shrinking_scan_matches_full_candidates() {
    // Geometries as (has_roots, near, far) root triples.
    let items: [(bool, f32, f32); 5] = [
        (true, 2.0, 5.0),
        (false, 0.0, 0.0),
        (true, -1.0, 3.0),
        (true, 4.0, 6.0),
        (true, 0.5, 0.75),
    ];
    let tmin = 0.001f32;
    let tmax = f32::MAX;

    // The scan as a renderer would run it: each geometry sees the best hit
    // found so far as its upper bound.
    let mut best = tmax;
    let mut winner: Option<usize> = None;
    for (i, &(has, near, far)) in items.iter().enumerate() {
        let chosen = match pick_root(has, code(tmin), code(best), code(near), code(far)) {
            RootChoice::Near => Some(near),
            RootChoice::Far => Some(far),
            RootChoice::Miss => None,
        };
        if let Some(t) = chosen {
            best = t;
            winner = Some(i);
        }
    }

    // Every candidate against the full interval, then the library's
    // selection: the same geometry wins with the same hit parameter.
    let keys: Vec<Option<u64>> = items
        .iter()
        .map(|&(has, near, far)| {
            match pick_root(has, code(tmin), code(tmax), code(near), code(far)) {
                RootChoice::Near => Some(code(near)),
                RootChoice::Far => Some(code(far)),
                RootChoice::Miss => None,
            }
        })
        .collect();
    let full = nearest_hit(&keys);
    assert_eq!(winner, Some(4));
    assert_eq!(full, Some(4));
    assert_eq!(code(best), keys[4].unwrap());
}

#[test]
fn diffuse_scatter_never_absorbs() {
    assert_eq!(
        scatter_plan(&SurfaceEvent::Diffuse { near_zero: false }),
        ScatterPlan::DiffuseSampled
    );
    // A degenerate sampled direction is remapped to the surface normal.
    assert_eq!(
        scatter_plan(&SurfaceEvent::Diffuse { near_zero: true }),
        ScatterPlan::DiffuseNormal
    );
}

#[test]
fn metal_absorbs_reflections_into_the_surface() {
    let zero = code(0.0);
    assert_eq!(
        scatter_plan(&SurfaceEvent::Specular { dot: code(0.3), zero }),
        ScatterPlan::SpecularReflect
    );
    assert_eq!(
        scatter_plan(&SurfaceEvent::Specular { dot: code(-0.3), zero }),
        ScatterPlan::Absorb
    );
    assert_eq!(
        scatter_plan(&SurfaceEvent::Specular { dot: zero, zero }),
        ScatterPlan::Absorb
    );
}

#[test]
fn glass_reflects_on_total_internal_reflection() {
    let p = scatter_plan(&SurfaceEvent::Glass {
        no_refraction: true,
        draw: code(0.9),
        reflectance: code(0.04),
    });
    assert_eq!(p, ScatterPlan::GlassReflect);
}

#[test]
fn glass_splits_on_the_reflectance_draw() {
    // At normal incidence with an index of refraction of 1.5, Schlick's
    // approximation gives a reflectance of ((1 - 1.5) / (1 + 1.5))^2 = 0.04:
    // a draw below it reflects, any other draw refracts.
    let reflectance = code(0.04);
    let below = scatter_plan(&SurfaceEvent::Glass {
        no_refraction: false,
        draw: code(0.01),
        reflectance,
    });
    assert_eq!(below, ScatterPlan::GlassReflect);
    let above = scatter_plan(&SurfaceEvent::Glass {
        no_refraction: false,
        draw: code(0.9),
        reflectance,
    });
    assert_eq!(above, ScatterPlan::GlassRefract);
}

#[test]
fn bounce_events_classify_observations() {
    assert_eq!(bounce_event(false, false), TraceEvent::Miss);
    assert_eq!(bounce_event(true, false), TraceEvent::Absorbed);
    assert_eq!(bounce_event(true, true), TraceEvent::Scattered);
}

#[test]
fn budget_is_spent_only_at_zero() {
    assert!(budget_spent(0));
    assert!(!budget_spent(1));
    assert!(!budget_spent(50));
}

#[test]
fn spent_bounce_budget_goes_black() {
    assert_eq!(trace_step(0, &TraceEvent::Miss), TraceAction::EmitBlack);
    assert_eq!(trace_step(0, &TraceEvent::Scattered), TraceAction::EmitBlack);
}

#[test]
fn miss_paints_the_background() {
    assert_eq!(trace_step(50, &TraceEvent::Miss), TraceAction::EmitBackground);
}

#[test]
fn absorbed_ray_goes_black() {
    assert_eq!(trace_step(50, &TraceEvent::Absorbed), TraceAction::EmitBlack);
}

#[test]
fn scattered_ray_bounces_on() {
    assert_eq!(trace_step(1, &TraceEvent::Scattered), TraceAction::Bounce);
}
