use vstd::prelude::*;

use crate::scene::LightKind;

verus! {

// ---------------------------------------------------------------------------
// Closest-hit selection.
//
// A ray meets a sphere at up to two parametric distances. The caller solves
// the quadratic in its own scalar arithmetic and hands each distance over as
// an order-preserving integer key; a distance whose every comparison is
// false (the solver's signal that no real root exists) is `None`. The
// largest key stands for an unreachable distance: the scan starts from it
// and accepts only strictly nearer hits, so a root that far away is never
// selected.
// ---------------------------------------------------------------------------

/// The two parametric distances at which a ray meets one sphere, in the
/// order the solver returns them, each encoded as an order-preserving key.
#[derive(Clone, Copy, PartialEq, Eq, Structural, Debug)]
pub struct RootPair {
    pub t1: Option<u64>,
    pub t2: Option<u64>,
}

/// The key of a candidate root; a root with no real value compares like the
/// unreachable distance and so is never selected.
pub open spec fn key_of(root: Option<u64>) -> u64 {
    match root {
        Option::Some(t) => t,
        Option::None => u64::MAX,
    }
}

/// The candidate roots in scan order, flattened: position `2 * i` holds
/// sphere `i`'s first root and position `2 * i + 1` its second.
pub open spec fn root_at(roots: Seq<RootPair>, j: int) -> Option<u64>
    recommends
        0 <= j < 2 * roots.len(),
{
    if j % 2 == 0 {
        roots[j / 2].t1
    } else {
        roots[j / 2].t2
    }
}

/// Whether a candidate root can be selected: it must lie inside the
/// inclusive range and strictly nearer than the unreachable distance.
pub open spec fn selectable(root: Option<u64>, t_min: u64, t_max: u64) -> bool {
    t_min <= key_of(root) && key_of(root) <= t_max && key_of(root) < u64::MAX
}

/// Scans every sphere's pair of roots in order and returns the index of the
/// sphere owning the nearest selectable root together with that distance, or
/// no index and the unreachable distance when no root qualifies. The
/// returned distance is a selectable root of the returned sphere, no
/// selectable root anywhere lies nearer, and every selectable root of an
/// earlier sphere lies strictly farther — so on a tie the earliest sphere in
/// scan order wins.
pub fn closest_hit(roots: &Vec<RootPair>, t_min: u64, t_max: u64) -> (r: (Option<usize>, u64))
    ensures
        r.0 is Some <==> exists|j: int|
            0 <= j < 2 * roots@.len() && selectable(#[trigger] root_at(roots@, j), t_min, t_max),
        r.0 is None ==> r.1 == u64::MAX,
        r.0 matches Some(i) ==> (i < roots@.len() && selectable(Option::Some(r.1), t_min, t_max)
            && (root_at(roots@, 2 * (i as int)) == Option::<u64>::Some(r.1) || root_at(
            roots@,
            2 * (i as int) + 1,
        ) == Option::<u64>::Some(r.1))),
        r.0 matches Some(i) ==> (forall|k: int|
            0 <= k < 2 * (i as int) && selectable(#[trigger] root_at(roots@, k), t_min, t_max)
                ==> r.1 < key_of(root_at(roots@, k))),
        forall|j: int|
            0 <= j < 2 * roots@.len() && selectable(#[trigger] root_at(roots@, j), t_min, t_max)
                ==> r.1 <= key_of(root_at(roots@, j)),
{
    let mut closest_t: u64 = u64::MAX;
    let mut closest_i: Option<usize> = None;
    let mut idx: usize = 0;
    while idx < roots.len()
        invariant
            idx <= roots@.len(),
            closest_i is None ==> closest_t == u64::MAX,
            closest_i is Some <==> exists|j: int|
                0 <= j < 2 * (idx as int) && selectable(
                    #[trigger] root_at(roots@, j),
                    t_min,
                    t_max,
                ),
            closest_i matches Some(i) ==> (i < idx && selectable(
                Option::Some(closest_t),
                t_min,
                t_max,
            ) && (root_at(roots@, 2 * (i as int)) == Option::<u64>::Some(closest_t) || root_at(
                roots@,
                2 * (i as int) + 1,
            ) == Option::<u64>::Some(closest_t))),
            closest_i matches Some(i) ==> (forall|k: int|
                0 <= k < 2 * (i as int) && selectable(#[trigger] root_at(roots@, k), t_min, t_max)
                    ==> closest_t < key_of(root_at(roots@, k))),
            forall|j: int|
                0 <= j < 2 * (idx as int) && selectable(#[trigger] root_at(roots@, j), t_min, t_max)
                    ==> closest_t <= key_of(root_at(roots@, j)),
        decreases roots@.len() - idx,
    {
        let pair = roots[idx];
        if let Some(t) = pair.t1 {
            if t_min <= t && t <= t_max && t < closest_t {
                closest_t = t;
                closest_i = Some(idx);
            }
        }
        if let Some(t) = pair.t2 {
            if t_min <= t && t <= t_max && t < closest_t {
                closest_t = t;
                closest_i = Some(idx);
            }
        }
        idx = idx + 1;
    }
    (closest_i, closest_t)
}

// ---------------------------------------------------------------------------
// Gathering light at a shaded point.
// ---------------------------------------------------------------------------

/// How a non-ambient light's shadow ray is cast from a shaded point: toward
/// the light's position or along its stored direction, and whether the
/// occlusion search stops one parametric unit away or runs unbounded.
#[derive(Clone, Copy, PartialEq, Eq, Structural, Debug)]
pub struct ShadowQuery {
    pub toward_position: bool,
    pub bounded: bool,
}

/// Selects how one light is gathered: an ambient light needs no shadow ray
/// and contributes its whole intensity unconditionally; a point light must
/// win a shadow test bounded one unit toward its position; a directional
/// light must win an unbounded shadow test along its direction.
pub fn shadow_query(kind: LightKind) -> (q: Option<ShadowQuery>)
    ensures
        q is None <==> kind is Ambient,
        kind is Point ==> (q matches Some(s) && s.toward_position && s.bounded),
        kind is Directional ==> (q matches Some(s) && !s.toward_position && !s.bounded),
{
    match kind {
        LightKind::Ambient => None,
        LightKind::Point => Some(ShadowQuery { toward_position: true, bounded: true }),
        LightKind::Directional => Some(ShadowQuery { toward_position: false, bounded: false }),
    }
}

/// Which of a non-ambient light's two terms apply at a shaded point.
#[derive(Clone, Copy, PartialEq, Eq, Structural, Debug)]
pub struct LightTerms {
    pub diffuse: bool,
    pub specular: bool,
}

/// Decides which terms an unoccluded light adds: an occluded light
/// contributes nothing at all; the diffuse term further needs the surface
/// normal to face the light; the specular term further needs specular
/// shading enabled on the surface and the mirrored light ray to face the
/// viewer.
pub fn light_terms(
    occluded: bool,
    normal_faces_light: bool,
    specular_enabled: bool,
    reflection_faces_viewer: bool,
) -> (t: LightTerms)
    ensures
        t.diffuse == (!occluded && normal_faces_light),
        t.specular == (!occluded && specular_enabled && reflection_faces_viewer),
{
    LightTerms {
        diffuse: !occluded && normal_faces_light,
        specular: !occluded && specular_enabled && reflection_faces_viewer,
    }
}

// ---------------------------------------------------------------------------
// The depth-bounded reflection decision.
// ---------------------------------------------------------------------------

/// What the tracer does once the closest-hit scan has answered.
#[derive(Clone, Copy, PartialEq, Eq, Structural, Debug)]
pub enum TraceStep {
    /// No sphere was hit: the background color is returned, whatever the
    /// remaining bounce budget and whatever lights the scene holds.
    Background,
    /// A sphere was hit but the bounce budget is spent or the surface does
    /// not reflect: the locally shaded color is returned unchanged.
    LocalColor,
    /// A reflective sphere was hit with budget to spare: one reflected ray
    /// is traced with a budget exactly one smaller and blended in.
    Reflect { remaining: u32 },
}

/// Decides the tracer's step from the scan's outcome (`hit`), whether the
/// hit surface reflects (`reflective`), and the remaining bounce budget.
pub fn trace_step(hit: bool, reflective: bool, depth: u32) -> (s: TraceStep)
    ensures
        (s is Background) == !hit,
        (s is LocalColor) == (hit && (depth == 0 || !reflective)),
        (s is Reflect) == (hit && reflective && depth > 0),
        s matches TraceStep::Reflect { remaining } ==> remaining == depth - 1,
{
    if !hit {
        TraceStep::Background
    } else if depth == 0 || !reflective {
        TraceStep::LocalColor
    } else {
        TraceStep::Reflect { remaining: depth - 1 }
    }
}

/// What one level of a trace meets: whether the ray hit a sphere and, if
/// so, whether that sphere's surface reflects.
pub struct PathEvent {
    pub hit: bool,
    pub reflective: bool,
}

/// The number of reflective bounces a trace performs when its successive
/// levels meet `events` and the bounce budget starts at `depth`: the trace
/// bounces while budget remains and the level's event is a reflective hit,
/// and each bounce hands the next level a budget exactly one smaller.
pub open spec fn bounces(events: Seq<PathEvent>, depth: nat) -> nat
    decreases events.len(),
{
    if events.len() == 0 || depth == 0 {
        0
    } else if events[0].hit && events[0].reflective {
        1 + bounces(events.drop_first(), (depth - 1) as nat)
    } else {
        0
    }
}

/// Law: the bounce budget is never overspent — however the scene answers
/// along the path, a trace that starts with budget `depth` performs at most
/// `depth` reflective bounces.
pub proof fn lemma_bounces_within_budget(events: Seq<PathEvent>, depth: nat)
    ensures
        bounces(events, depth) <= depth,
    decreases events.len(),
{
    if events.len() != 0 && depth != 0 && events[0].hit && events[0].reflective {
        lemma_bounces_within_budget(events.drop_first(), (depth - 1) as nat);
    }
}

/// Law: the budget is spent by exactly one unit per bounce and by nothing
/// else — along a path that meets reflective hits at every level, the whole
/// budget is turned into bounces.
pub proof fn lemma_budget_spent_exactly(events: Seq<PathEvent>, depth: nat)
    requires
        depth <= events.len(),
        forall|j: int| 0 <= j < events.len() ==> (#[trigger] events[j]).hit && events[j].reflective,
    ensures
        bounces(events, depth) == depth,
    decreases events.len(),
{
    if events.len() != 0 && depth != 0 {
        assert forall|j: int|
            0 <= j < events.drop_first().len() implies (#[trigger] events.drop_first()[j]).hit
            && events.drop_first()[j].reflective by {
            assert(events.drop_first()[j] == events[j + 1]);
        }
        lemma_budget_spent_exactly(events.drop_first(), (depth - 1) as nat);
    }
}

} // verus!
