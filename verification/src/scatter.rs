//! Decisions of the material scattering model.
//!
//! Each surface kind turns an incoming ray and a hit into an attenuated
//! scattered ray, or absorbs the ray. The directions and colors are floating
//! point and stay with the renderer; which of those outcomes is taken is an
//! exact decision, taken here from the comparisons the renderer reports.

use vstd::prelude::*;

verus! {

/// The exact observations that decide how a surface scatters. Each variant
/// matches one surface kind of the material model.
#[derive(Clone, Copy, Debug, PartialEq, Eq, Structural)]
pub enum SurfaceEvent {
    /// A diffuse (Lambertian) surface. `near_zero` reports that every
    /// component of the sampled direction `normal + random unit vector` is
    /// below the degeneracy threshold in magnitude.
    Diffuse { near_zero: bool },
    /// A metal surface. `dot` is the order code of the dot product of the
    /// fuzzed reflection with the surface normal; `zero` is the order code
    /// of zero.
    Specular { dot: u64, zero: u64 },
    /// A dielectric surface. `no_refraction` reports that Snell's law has no
    /// solution (total internal reflection); `draw` is the order code of a
    /// uniform random draw and `reflectance` that of Schlick's reflectance
    /// approximation.
    Glass { no_refraction: bool, draw: u64, reflectance: u64 },
}

/// What the material model does with the ray.
#[derive(Clone, Copy, Debug, PartialEq, Eq, Structural)]
pub enum ScatterPlan {
    /// Diffuse bounce along `normal + random unit vector`.
    DiffuseSampled,
    /// Degenerate diffuse bounce, remapped to the surface normal itself.
    DiffuseNormal,
    /// Specular bounce along the fuzzed reflection.
    SpecularReflect,
    /// Glass bounce along the mirror reflection.
    GlassReflect,
    /// Glass bounce along the refracted direction.
    GlassRefract,
    /// The ray is absorbed: no scattered ray, the path goes black.
    Absorb,
}

/// The plan each surface event demands. A diffuse surface always scatters,
/// remapping a degenerate direction to the normal; a metal absorbs the ray
/// exactly when the fuzzed reflection does not point off the surface; glass
/// always scatters, reflecting when refraction is impossible or when the
/// random draw falls below the reflectance, and refracting otherwise.
pub open spec fn plan_of(e: SurfaceEvent) -> ScatterPlan {
    match e {
        SurfaceEvent::Diffuse { near_zero } => if near_zero {
            ScatterPlan::DiffuseNormal
        } else {
            ScatterPlan::DiffuseSampled
        },
        SurfaceEvent::Specular { dot, zero } => if dot > zero {
            ScatterPlan::SpecularReflect
        } else {
            ScatterPlan::Absorb
        },
        SurfaceEvent::Glass { no_refraction, draw, reflectance } => if no_refraction
            || draw < reflectance {
            ScatterPlan::GlassReflect
        } else {
            ScatterPlan::GlassRefract
        },
    }
}

/// Decides how a surface scatters the ray.
pub fn scatter_plan(e: &SurfaceEvent) -> (p: ScatterPlan)
    ensures
        p == plan_of(*e),
{
    match *e {
        SurfaceEvent::Diffuse { near_zero } => {
            if near_zero {
                ScatterPlan::DiffuseNormal
            } else {
                ScatterPlan::DiffuseSampled
            }
        },
        SurfaceEvent::Specular { dot, zero } => {
            if dot > zero {
                ScatterPlan::SpecularReflect
            } else {
                ScatterPlan::Absorb
            }
        },
        SurfaceEvent::Glass { no_refraction, draw, reflectance } => {
            if no_refraction || draw < reflectance {
                ScatterPlan::GlassReflect
            } else {
                ScatterPlan::GlassRefract
            }
        },
    }
}

/// A diffuse surface never absorbs the ray, and a degenerate sampled
/// direction is always remapped to the surface normal.
pub proof fn lemma_diffuse_always_scatters(near_zero: bool)
    ensures
        plan_of(SurfaceEvent::Diffuse { near_zero }) != ScatterPlan::Absorb,
        near_zero ==> plan_of(SurfaceEvent::Diffuse { near_zero })
            == ScatterPlan::DiffuseNormal,
{
}

/// Glass never absorbs the ray: it reflects exactly when refraction is
/// impossible or the draw falls below the reflectance, and refracts
/// otherwise.
pub proof fn lemma_glass_always_scatters(no_refraction: bool, draw: u64, reflectance: u64)
    ensures
        plan_of(SurfaceEvent::Glass { no_refraction, draw, reflectance })
            != ScatterPlan::Absorb,
        plan_of(SurfaceEvent::Glass { no_refraction, draw, reflectance })
            == ScatterPlan::GlassReflect <==> (no_refraction || draw < reflectance),
{
}

/// A metal absorbs the ray exactly when the fuzzed reflection fails to point
/// off the surface: when the dot product with the normal is not positive.
pub proof fn lemma_metal_absorbs_iff(dot: u64, zero: u64)
    ensures
        plan_of(SurfaceEvent::Specular { dot, zero }) == ScatterPlan::Absorb <==> dot <= zero,
{
}

} // verus!
