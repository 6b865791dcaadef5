//! The decisions of recursive ray tracing, apart from the light arithmetic:
//! with no bounce left the ray is black; otherwise the scene is queried; a
//! miss shows the sky, an absorbed ray is black, and a scattered ray is
//! traced again with one bounce less.
use vstd::prelude::*;

verus! {

/// What the caller observed since the last action.
#[derive(Clone, Copy, Debug, PartialEq, Eq, Structural)]
pub enum TraceEvent {
    /// Tracing of a ray begins.
    Start,
    /// The scene query found no hit.
    Miss,
    /// The hit material absorbed the ray.
    Absorbed,
    /// The hit material scattered the ray.
    Scattered,
}

/// What the caller does next.
#[derive(Clone, Copy, Debug, PartialEq, Eq, Structural)]
pub enum TraceAction {
    /// The ray contributes black.
    Black,
    /// Intersect the ray with the scene, then report a miss, an absorption
    /// or a scatter.
    QueryScene,
    /// The ray contributes the sky gradient for its direction.
    Sky,
    /// The ray contributes the attenuation times the light of the scattered
    /// ray traced with `depth` bounces.
    Recurse { depth: u32 },
}

pub open spec fn trace_decision(depth: u32, event: TraceEvent) -> TraceAction {
    if depth == 0 {
        TraceAction::Black
    } else {
        match event {
            TraceEvent::Start => TraceAction::QueryScene,
            TraceEvent::Miss => TraceAction::Sky,
            TraceEvent::Absorbed => TraceAction::Black,
            TraceEvent::Scattered => TraceAction::Recurse { depth: (depth - 1) as u32 },
        }
    }
}

/// The next action of a trace with `depth` bounces left, after `event`.
pub fn trace_step(depth: u32, event: TraceEvent) -> (r: TraceAction)
    ensures
        r == trace_decision(depth, event),
{
    if depth == 0 {
        TraceAction::Black
    } else {
        match event {
            TraceEvent::Start => TraceAction::QueryScene,
            TraceEvent::Miss => TraceAction::Sky,
            TraceEvent::Absorbed => TraceAction::Black,
            TraceEvent::Scattered => TraceAction::Recurse { depth: depth - 1 },
        }
    }
}

/// The number of scene queries made by a trace that starts with `depth`
/// bounces, where `outcomes[i]` is what the `i`-th query led to.
pub open spec fn scene_queries(depth: u32, outcomes: Seq<TraceEvent>) -> nat
    decreases depth,
{
    if trace_decision(depth, TraceEvent::Start) == TraceAction::QueryScene {
        1 + if outcomes.len() > 0 {
            match trace_decision(depth, outcomes[0]) {
                TraceAction::Recurse { depth: d } => if d < depth {
                    scene_queries(d, outcomes.drop_first())
                } else {
                    0
                },
                _ => 0,
            }
        } else {
            0
        }
    } else {
        0
    }
}

/// Tracing always ends: whatever the scene and the materials answer, a trace
/// with `depth` bounces queries the scene at most `depth` times, and with no
/// bounce left not at all.
pub proof fn lemma_scene_queries_bounded(depth: u32, outcomes: Seq<TraceEvent>)
    ensures
        scene_queries(depth, outcomes) <= depth,
    decreases depth,
{
    if depth > 0 && outcomes.len() > 0 {
        if let TraceAction::Recurse { depth: d } = trace_decision(depth, outcomes[0]) {
            lemma_scene_queries_bounded(d, outcomes.drop_first());
        }
    }
}

} // verus!
