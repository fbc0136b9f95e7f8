//! Scene traversal and shading decisions.
//!
//! Hit-testing a scene is first-hit-in-list-order, not nearest-hit: the
//! resolver walks the ordered primitive list and takes the first primitive
//! that reports any intersection in range, even when a later primitive is
//! geometrically closer.  The functions here state and prove that order
//! contract, the shadow rule (any occluder at all shadows the point), and
//! the shading decision tree, independently of the floating-point geometry
//! that produces the per-primitive hit reports.

use vstd::prelude::*;

verus! {

/// The closed set of primitive shapes the renderer knows.
#[derive(Clone, Copy, Debug, PartialEq, Eq, Structural)]
pub enum PrimitiveKind {
    Sphere,
    Cube,
    Flat,
    Cylinder,
}

/// The base color each primitive kind reports, as an RGB byte triple.
pub open spec fn spec_surface_color(kind: PrimitiveKind) -> (u8, u8, u8) {
    match kind {
        PrimitiveKind::Sphere => (255u8, 0u8, 0u8),
        PrimitiveKind::Cube => (0u8, 0u8, 255u8),
        PrimitiveKind::Flat => (0u8, 255u8, 0u8),
        PrimitiveKind::Cylinder => (255u8, 0u8, 255u8),
    }
}

/// Base RGB color of a primitive kind: red sphere, blue cube, green plane,
/// magenta cylinder.
pub fn surface_color(kind: PrimitiveKind) -> (rgb: (u8, u8, u8))
    ensures
        rgb == spec_surface_color(kind),
{
    match kind {
        PrimitiveKind::Sphere => (255u8, 0u8, 0u8),
        PrimitiveKind::Cube => (0u8, 0u8, 255u8),
        PrimitiveKind::Flat => (0u8, 255u8, 0u8),
        PrimitiveKind::Cylinder => (255u8, 0u8, 255u8),
    }
}

/// The first index at or after `k` whose primitive reported a hit, if any.
pub open spec fn spec_first_hit_from(hits: Seq<bool>, k: int) -> Option<int>
    decreases hits.len() - k,
{
    if k < 0 || k >= hits.len() {
        None
    } else if hits[k] {
        Some(k)
    } else {
        spec_first_hit_from(hits, k + 1)
    }
}

/// The index of the first primitive in scene order that reported a hit.
pub open spec fn spec_first_hit(hits: Seq<bool>) -> Option<int> {
    spec_first_hit_from(hits, 0)
}

/// Picks the primitive the resolver shades: the first entry of `hits`
/// (one flag per scene primitive, in scene order) that reported an
/// intersection, regardless of which hit is geometrically nearest.
pub fn first_hit_index(hits: &Vec<bool>) -> (r: Option<usize>)
    ensures
        r matches Some(i) ==> i < hits@.len() && hits@[i as int]
            && (forall|j: int| 0 <= j < i ==> !hits@[j]),
        r is None ==> forall|j: int| 0 <= j < hits@.len() ==> !hits@[j],
        r matches Some(i) ==> spec_first_hit(hits@) == Some(i as int),
        r is None ==> spec_first_hit(hits@) is None,
{
    let n = hits.len();
    let mut i: usize = 0;
    while i < n
        invariant
            n == hits@.len(),
            0 <= i <= n,
            forall|j: int| 0 <= j < i ==> !hits@[j],
            spec_first_hit(hits@) == spec_first_hit_from(hits@, i as int),
        decreases n - i,
    {
        if hits[i] {
            return Some(i);
        }
        i = i + 1;
    }
    None
}

/// First-hit-order law: when the primitive at index `a` reports a hit, the
/// traversal settles on an index no later than `a` — a geometrically closer
/// primitive further down the list is never chosen over it.
pub proof fn lemma_first_hit_precedence(hits: Seq<bool>, a: int)
    requires
        0 <= a < hits.len(),
        hits[a],
    ensures
        spec_first_hit(hits) matches Some(i) && 0 <= i <= a,
{
    lemma_first_hit_from_precedence(hits, 0, a);
}

proof fn lemma_first_hit_from_precedence(hits: Seq<bool>, k: int, a: int)
    requires
        0 <= k <= a < hits.len(),
        hits[a],
    ensures
        spec_first_hit_from(hits, k) matches Some(i) && k <= i <= a,
    decreases a - k,
{
    if !hits[k] {
        lemma_first_hit_from_precedence(hits, k + 1, a);
    }
}

/// Shadow rule: the point is shadowed exactly when some primitive —
/// any primitive, at any distance — occludes the shadow ray.
pub fn any_hit(hits: &Vec<bool>) -> (r: bool)
    ensures
        r == exists|i: int| 0 <= i < hits@.len() && hits@[i],
{
    let n = hits.len();
    let mut i: usize = 0;
    while i < n
        invariant
            n == hits@.len(),
            0 <= i <= n,
            forall|j: int| 0 <= j < i ==> !hits@[j],
        decreases n - i,
    {
        if hits[i] {
            return true;
        }
        i = i + 1;
    }
    false
}

/// What the shading resolver does with a primary-ray hit report.
#[derive(Clone, Copy, Debug, PartialEq, Eq, Structural)]
pub enum ShadeAction {
    /// Return black: the ray missed the scene, or the point is shadowed.
    Black,
    /// Trace the scattered ray and return that color unchanged.
    Scatter,
    /// Shade the point with Lambertian lighting off the surface color.
    Lambert,
}

/// The resolver's decision tree for one ray: no hit is black; a hit on a
/// material whose scatter was accepted bounces; otherwise a shadowed point
/// is black and a lit one is Lambertian-shaded.  A rejected scatter
/// (direction into the surface) falls through as if no material were there.
pub open spec fn spec_shade_action(
    hit: bool,
    has_material: bool,
    scatter_accepted: bool,
    shadowed: bool,
) -> ShadeAction {
    if !hit {
        ShadeAction::Black
    } else if has_material && scatter_accepted {
        ShadeAction::Scatter
    } else if shadowed {
        ShadeAction::Black
    } else {
        ShadeAction::Lambert
    }
}

/// Decides how one primary-ray hit report is resolved into a color.
pub fn shade_action(
    hit: bool,
    has_material: bool,
    scatter_accepted: bool,
    shadowed: bool,
) -> (action: ShadeAction)
    ensures
        action == spec_shade_action(hit, has_material, scatter_accepted, shadowed),
{
    if !hit {
        ShadeAction::Black
    } else if has_material && scatter_accepted {
        ShadeAction::Scatter
    } else if shadowed {
        ShadeAction::Black
    } else {
        ShadeAction::Lambert
    }
}

} // verus!
