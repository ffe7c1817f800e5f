//! Decisions of the recursive light integrator that do not depend on the color
//! arithmetic: which object a ray strikes first, and when a path is cut off.
//!
//! Hit distances reach these functions as integer keys whose order agrees with the
//! order of the distances. Distances are positive (at least the self-intersection
//! epsilon), and for positive IEEE-754 single-precision values the bit pattern read
//! as a `u32` is such a key.

use vstd::prelude::*;

verus! {

/// The recursion ceiling of the integrator. A path that has already scattered this
/// many times is cut off and contributes black. This is a safety valve against closed
/// reflective or refractive cavities rather than a physical cutoff: the energy that
/// longer paths would carry is lost.
pub const DEPTH_LIMIT: usize = 100;

/// Entry `i` is the nearest hit of `keys`: it is a hit, every earlier hit is strictly
/// farther, and no later hit is nearer. Of several equally near hits the first is the
/// nearest.
pub open spec fn is_nearest(keys: Seq<Option<u32>>, i: int) -> bool {
    &&& 0 <= i < keys.len()
    &&& keys[i] is Some
    &&& forall|j: int|
        0 <= j < i && #[trigger] keys[j] is Some ==> keys[j].unwrap() > keys[i].unwrap()
    &&& forall|j: int|
        i < j < keys.len() && #[trigger] keys[j] is Some ==> keys[j].unwrap() >= keys[i].unwrap()
}

/// No entry of `keys` is a hit.
pub open spec fn all_missed(keys: Seq<Option<u32>>) -> bool {
    forall|j: int| 0 <= j < keys.len() ==> #[trigger] keys[j] is None
}

/// At most one entry is the nearest hit.
pub proof fn lemma_nearest_unique(keys: Seq<Option<u32>>, i: int, k: int)
    requires
        is_nearest(keys, i),
        is_nearest(keys, k),
    ensures
        i == k,
{
    if i < k {
        assert(keys[i] is Some);
    } else if k < i {
        assert(keys[k] is Some);
    }
}

/// The index of the object that a ray strikes first, given one entry per object: the
/// key of its hit distance, or `None` where it misses. `None` when every object misses.
pub fn nearest(keys: &Vec<Option<u32>>) -> (r: Option<usize>)
    ensures
        r is None <==> all_missed(keys@),
        r matches Some(i) ==> is_nearest(keys@, i as int),
{
    let mut best: Option<usize> = None;
    let mut i: usize = 0;
    while i < keys.len()
        invariant
            i <= keys@.len(),
            best is None ==> forall|j: int| 0 <= j < i ==> #[trigger] keys@[j] is None,
            best matches Some(b) ==> {
                &&& b < i
                &&& keys@[b as int] is Some
                &&& forall|j: int|
                    0 <= j < b && #[trigger] keys@[j] is Some ==> keys@[j].unwrap()
                        > keys@[b as int].unwrap()
                &&& forall|j: int|
                    b < j < i && #[trigger] keys@[j] is Some ==> keys@[j].unwrap()
                        >= keys@[b as int].unwrap()
            },
        decreases keys@.len() - i,
    {
        if let Some(k) = keys[i] {
            match best {
                None => {
                    best = Some(i);
                },
                Some(b) => {
                    if let Some(kb) = keys[b] {
                        if k < kb {
                            best = Some(i);
                        }
                    }
                },
            }
        }
        i = i + 1;
    }
    best
}

/// What the integrator does with a ray.
#[derive(Debug, Clone, Copy, PartialEq, Eq, Structural)]
pub enum PathStep {
    /// The depth ceiling is reached: the ray contributes black.
    Absorbed,
    /// The ray strikes nothing: it takes the background's color.
    Escaped,
    /// The ray strikes `object` first and scatters; the scattered ray is traced at `depth`.
    Scattered { object: usize, depth: usize },
}

/// The step taken for a ray traced at `depth` whose hits are `keys`.
pub open spec fn step_spec(depth: int, keys: Seq<Option<u32>>) -> PathStep {
    if depth >= DEPTH_LIMIT {
        PathStep::Absorbed
    } else if all_missed(keys) {
        PathStep::Escaped
    } else {
        PathStep::Scattered {
            object: (choose|i: int| is_nearest(keys, i)) as usize,
            depth: (depth + 1) as usize,
        }
    }
}

/// Decides the next step for a ray traced at recursion `depth`, given the key of its
/// hit distance on each object (`None` where it misses).
pub fn path_step(depth: usize, keys: &Vec<Option<u32>>) -> (r: PathStep)
    ensures
        r == step_spec(depth as int, keys@),
        r is Absorbed <==> depth >= DEPTH_LIMIT,
        r is Escaped <==> depth < DEPTH_LIMIT && all_missed(keys@),
        r matches PathStep::Scattered { object, depth: next } ==> is_nearest(keys@, object as int)
            && next == depth + 1,
{
    if depth >= DEPTH_LIMIT {
        return PathStep::Absorbed;
    }
    match nearest(keys) {
        None => PathStep::Escaped,
        Some(i) => {
            proof {
                let c = choose|c: int| is_nearest(keys@, c);
                lemma_nearest_unique(keys@, i as int, c);
            }
            PathStep::Scattered { object: i, depth: depth + 1 }
        },
    }
}

/// A ray in a scene without objects, traced below the depth ceiling, always takes the
/// background's color.
pub proof fn lemma_empty_scene_escapes(depth: int)
    requires
        0 <= depth < DEPTH_LIMIT,
    ensures
        step_spec(depth, Seq::<Option<u32>>::empty()) == PathStep::Escaped,
{
}

} // verus!
