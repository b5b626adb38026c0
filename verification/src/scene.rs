//! Which root of the ray-sphere quadratic is the hit.
//!
//! A ray `P(t) = origin + t * direction` meets a sphere where
//! `a t^2 + 2 half_b t + c = 0`. Of its two roots, `near = (-half_b - sqrt(d)) / a`
//! and `far = (-half_b + sqrt(d)) / a`, the hit is the closest one that lies
//! beyond `t_min`. The roots and `t_min` come here as order keys: `Some(k)`
//! for a number, where keys order as the numbers do, and `None` for a value
//! that is not a number, which no comparison holds for.
use vstd::prelude::*;

verus! {

/// Which root of the quadratic is the hit.
#[derive(Debug, Clone, Copy, PartialEq, Eq, Structural)]
pub enum Root {
    /// The smaller root: the front face, seen from outside the sphere.
    Near,
    /// The larger root: the back face, seen from inside the sphere.
    Far,
}

/// `t` lies beyond `t_min`: both are numbers and `t > t_min`.
pub open spec fn beyond(t: Option<u32>, t_min: Option<u32>) -> bool {
    t is Some && t_min is Some && t.unwrap() > t_min.unwrap()
}

/// The key of the root that `r` names.
pub open spec fn root_key(r: Root, near: Option<u32>, far: Option<u32>) -> Option<u32> {
    match r {
        Root::Near => near,
        Root::Far => far,
    }
}

/// The hit of `Sphere::hit_after`: the near root if it lies beyond `t_min`,
/// else the far root if it does, else none.
pub open spec fn hit_root(near: Option<u32>, far: Option<u32>, t_min: Option<u32>) -> Option<Root> {
    if beyond(near, t_min) {
        Some(Root::Near)
    } else if beyond(far, t_min) {
        Some(Root::Far)
    } else {
        None
    }
}

/// Picks the root that `Sphere::hit_after` returns, from the keys of the two
/// roots and of `t_min`.
pub fn select_root(near: Option<u32>, far: Option<u32>, t_min: Option<u32>) -> (r: Option<Root>)
    ensures
        r == hit_root(near, far, t_min),
{
    match (near, far, t_min) {
        (Some(n), _, Some(m)) if n > m => Some(Root::Near),
        (_, Some(f), Some(m)) if f > m => Some(Root::Far),
        _ => None,
    }
}

/// When the near root is no larger than the far one, as the quadratic's roots
/// are, the hit is the closest root beyond `t_min`, and there is a hit exactly
/// when some root lies beyond `t_min`.
pub proof fn lemma_select_root_is_closest(near: u32, far: u32, t_min: Option<u32>)
    requires
        near <= far,
    ensures
        ({
            let r = hit_root(Some(near), Some(far), t_min);
            &&& r is None <==> !beyond(Some(near), t_min) && !beyond(Some(far), t_min)
            &&& r matches Some(root) ==> {
                let k = root_key(root, Some(near), Some(far)).unwrap();
                &&& beyond(Some(k), t_min)
                &&& forall|other: Root| #[trigger] beyond(root_key(other, Some(near), Some(far)), t_min)
                    ==> k <= root_key(other, Some(near), Some(far)).unwrap()
            }
        }),
{
}

} // verus!
