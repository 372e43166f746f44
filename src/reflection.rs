//! The bound on mirror recursion in shading.
//!
//! A surface hit at recursion depth `depth` spawns a reflected ray only while
//! `depth` is below the scene's reflection limit and the surface is reflective
//! enough to matter; the reflected ray is shaded at `depth + 1`.

use vstd::prelude::*;

verus! {

/// A hit at `depth` is followed by a reflected ray.
pub open spec fn reflects(depth: int, max_reflections: int, reflective: bool) -> bool {
    depth < max_reflections && reflective
}

/// The depth at which the reflected ray is shaded, or `None` when no
/// reflected ray is cast.
pub fn next_reflection(depth: u32, max_reflections: u32, reflective: bool) -> (r: Option<u32>)
    ensures
        r is Some <==> reflects(depth as int, max_reflections as int, reflective),
        r matches Some(d) ==> d == depth + 1 && d <= max_reflections,
{
    if depth < max_reflections && reflective {
        Some(depth + 1)
    } else {
        None
    }
}

/// However reflective the surfaces met along the way (`reflective[k]` for the
/// hit at depth `start + k`), a chain of nested reflections that this rule
/// allows reaches no depth beyond the limit, and none is cast from the limit.
pub proof fn lemma_reflection_depth_bounded(
    start: int,
    max_reflections: int,
    reflective: Seq<bool>,
)
    requires
        start >= 0,
        forall|k: int|
            0 <= k < reflective.len() ==> #[trigger] reflects(
                start + k,
                max_reflections,
                reflective[k],
            ),
    ensures
        reflective.len() > 0 ==> start + reflective.len() <= max_reflections,
        forall|f: bool| !reflects(max_reflections, max_reflections, f),
{
    if reflective.len() > 0 {
        let k = reflective.len() - 1;
        assert(reflects(start + k, max_reflections, reflective[k]));
    }
}

} // verus!
