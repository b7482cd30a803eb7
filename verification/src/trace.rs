//! Decisions of the recursive path-tracing integrator.
//!
//! Each bounce, the integrator intersects the ray with the scene, asks the
//! hit material to scatter, and either emits a terminal color or attenuates
//! and recurses. The colors are floating point and stay with the renderer;
//! which of those steps is taken is decided here.

use vstd::prelude::*;

use crate::geometry::nearest_ok;
use crate::scatter::ScatterPlan;
use crate::scatter::SurfaceEvent;
use crate::scatter::plan_of;

verus! {

/// What one bounce of the integrator observed.
#[derive(Clone, Copy, Debug, PartialEq, Eq, Structural)]
pub enum TraceEvent {
    /// The ray hit nothing in range.
    Miss,
    /// The ray hit a surface and the material absorbed it.
    Absorbed,
    /// The ray hit a surface and the material scattered it.
    Scattered,
}

/// What the integrator does with the bounce.
#[derive(Clone, Copy, Debug, PartialEq, Eq, Structural)]
pub enum TraceAction {
    /// Emit the background gradient for this ray.
    EmitBackground,
    /// Emit black: the ray was absorbed or its bounce budget is spent.
    EmitBlack,
    /// Multiply in the attenuation and trace the scattered ray with one
    /// bounce fewer.
    Bounce,
}

/// The action each bounce demands. A spent budget emits black before the
/// scene is even consulted; a miss emits the background gradient; an
/// absorbed ray emits black; a scattered ray is traced on.
pub open spec fn action_of(bounces: u32, e: TraceEvent) -> TraceAction {
    if bounces == 0 {
        TraceAction::EmitBlack
    } else {
        match e {
            TraceEvent::Miss => TraceAction::EmitBackground,
            TraceEvent::Absorbed => TraceAction::EmitBlack,
            TraceEvent::Scattered => TraceAction::Bounce,
        }
    }
}

/// Decides one step of the integrator, from the remaining bounce budget and
/// what the bounce observed.
pub fn trace_step(bounces: u32, e: &TraceEvent) -> (a: TraceAction)
    ensures
        a == action_of(bounces, *e),
{
    if bounces == 0 {
        return TraceAction::EmitBlack;
    }
    match *e {
        TraceEvent::Miss => TraceAction::EmitBackground,
        TraceEvent::Absorbed => TraceAction::EmitBlack,
        TraceEvent::Scattered => TraceAction::Bounce,
    }
}

/// Whether the bounce budget is spent. The integrator then emits black
/// before the scene is even consulted: with no budget, every event's action
/// is to emit black.
pub fn budget_spent(bounces: u32) -> (spent: bool)
    ensures
        spent == (bounces == 0),
        spent ==> forall|e: TraceEvent| #[trigger] action_of(bounces, e) == TraceAction::EmitBlack,
{
    bounces == 0
}

/// The event a bounce observes, from what the renderer saw: whether the
/// scene scan found a hit, and whether the material scattered the ray.
pub open spec fn observed_event(hit_found: bool, scattered: bool) -> TraceEvent {
    if !hit_found {
        TraceEvent::Miss
    } else if !scattered {
        TraceEvent::Absorbed
    } else {
        TraceEvent::Scattered
    }
}

/// Classifies one bounce of the integrator from what the renderer observed.
pub fn bounce_event(hit_found: bool, scattered: bool) -> (e: TraceEvent)
    ensures
        e == observed_event(hit_found, scattered),
{
    if !hit_found {
        TraceEvent::Miss
    } else if !scattered {
        TraceEvent::Absorbed
    } else {
        TraceEvent::Scattered
    }
}

/// The event a bounce observes, from the scene scan's result and — when
/// something was hit — the surface's scatter plan.
pub open spec fn event_of(hit: Option<int>, plan: ScatterPlan) -> TraceEvent {
    match hit {
        Option::None => TraceEvent::Miss,
        Option::Some(_) => if plan == ScatterPlan::Absorb {
            TraceEvent::Absorbed
        } else {
            TraceEvent::Scattered
        },
    }
}

/// What the renderer observes determines the integrator's event: a bounce
/// classified from "hit found" and "material scattered" is the event of the
/// scan's result and the surface's plan, where "scattered" is any plan but
/// absorption.
pub proof fn lemma_observed_event_matches(hit: Option<int>, plan: ScatterPlan)
    ensures
        observed_event(hit is Some, plan != ScatterPlan::Absorb) == event_of(hit, plan),
{
}

/// In a scene with no geometry — every scan candidate empty — any result the
/// scene scan may return is a miss, and with bounce budget left the
/// integrator emits the background gradient for every ray.
pub proof fn lemma_empty_scene_emits_background(
    keys: Seq<Option<u64>>,
    r: Option<int>,
    plan: ScatterPlan,
    bounces: u32,
)
    requires
        forall|j: int| 0 <= j < keys.len() ==> keys[j] is None,
        nearest_ok(keys, r),
        bounces >= 1,
    ensures
        r is None,
        action_of(bounces, event_of(r, plan)) == TraceAction::EmitBackground,
{
}

/// A ray that hits a diffuse or glass surface within its bounce budget is
/// never cut off: those surfaces always scatter, so the integrator always
/// traces on.
pub proof fn lemma_diffuse_and_glass_bounce(hit: int, e: SurfaceEvent, bounces: u32)
    requires
        bounces >= 1,
        !(e is Specular),
    ensures
        action_of(bounces, event_of(Option::Some(hit), plan_of(e))) == TraceAction::Bounce,
{
}

} // verus!
