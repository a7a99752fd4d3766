use crate::budget::{reflection_env, scatter_env, RenderEnv};
use vstd::prelude::*;

verus! {

/// Direction of a secondary ray spawned at a hit.
#[derive(Clone, Copy, Debug, PartialEq, Eq, Structural)]
pub enum SecondaryRay {
    /// The specular bounce along the hit's reflection direction.
    Reflection,
    /// The scattered ray along the hit's scattering direction of this index.
    Scattering(usize),
}

/// One secondary ray to trace, with the context to trace it in.
#[derive(Clone, Copy, Debug)]
pub struct SecondaryTrace {
    pub ray: SecondaryRay,
    pub env: RenderEnv,
}

/// The secondary rays of a hit. None once the budget is spent; otherwise a
/// reflection when the surface reflects, then one ray per scattering
/// direction when the per-ray share of scattering is non-zero, each with the
/// budget split across the directions.
pub open spec fn secondary_plan(
    env: RenderEnv,
    reflective: bool,
    directions: nat,
    scatters: bool,
) -> Seq<SecondaryTrace> {
    let reflection = if reflective && env.max_light_rays > 0 {
        seq![SecondaryTrace { ray: SecondaryRay::Reflection, env: reflection_env(env).unwrap() }]
    } else {
        Seq::empty()
    };
    let scattering = if scatters && directions > 0 && env.max_light_rays > 0 {
        Seq::new(
            directions,
            |i: int|
                SecondaryTrace {
                    ray: SecondaryRay::Scattering(i as usize),
                    env: scatter_env(env, directions),
                },
        )
    } else {
        Seq::empty()
    };
    reflection + scattering
}

/// Decides the secondary rays of a hit in context `env`. `reflective` tells
/// whether the surface's reflectiveness is non-zero, `directions` is the
/// number of scattering directions, and `scatters` whether the share of
/// scattering that each of them carries is non-zero.
pub fn secondary_rays(env: &RenderEnv, reflective: bool, directions: usize, scatters: bool) -> (r:
    Vec<SecondaryTrace>)
    ensures
        r@ == secondary_plan(*env, reflective, directions as nat, scatters),
{
    let mut out: Vec<SecondaryTrace> = Vec::new();
    if reflective {
        match env.reflected() {
            Some(next) => {
                out.push(SecondaryTrace { ray: SecondaryRay::Reflection, env: next });
            },
            None => {},
        }
    }
    let ghost start = out@;
    if scatters && directions > 0 && env.max_light_rays > 0 {
        let shared = env.scattered(directions);
        let mut i: usize = 0;
        while i < directions
            invariant
                i <= directions,
                shared == scatter_env(*env, directions as nat),
                out@.len() == start.len() + i,
                out@.subrange(0, start.len() as int) == start,
                forall|k: int|
                    0 <= k < i ==> #[trigger] out@[start.len() + k] == (SecondaryTrace {
                        ray: SecondaryRay::Scattering(k as usize),
                        env: shared,
                    }),
            decreases directions - i,
        {
            out.push(SecondaryTrace { ray: SecondaryRay::Scattering(i), env: shared });
            proof {
                assert(out@.subrange(0, start.len() as int) =~= start);
            }
            i = i + 1;
        }
        let ghost plan = secondary_plan(*env, reflective, directions as nat, scatters);
        assert forall|k: int| 0 <= k < out@.len() implies out@[k] == plan[k] by {
            if k < start.len() {
                assert(out@.subrange(0, start.len() as int)[k] == out@[k]);
            } else {
                assert(out@[start.len() + (k - start.len())] == out@[k]);
            }
        }
        assert(out@ =~= plan);
    } else {
        assert(out@ =~= secondary_plan(*env, reflective, directions as nat, scatters));
    }
    out
}

/// A hit spawns at most one secondary ray per scattering direction plus one
/// reflection, and none once the budget is zero. A reflection spends exactly
/// one ray of the budget; every scattered ray gets the budget divided by the
/// number of directions, which is strictly less with two directions or more.
pub proof fn lemma_secondary_rays_bounded(
    env: RenderEnv,
    reflective: bool,
    directions: nat,
    scatters: bool,
)
    ensures
        secondary_plan(env, reflective, directions, scatters).len() <= directions + 1,
        forall|k: int|
            0 <= k < secondary_plan(env, reflective, directions, scatters).len() ==> {
                let t = #[trigger] secondary_plan(env, reflective, directions, scatters)[k];
                &&& t.ray == SecondaryRay::Reflection ==> env.max_light_rays > 0
                    && t.env.max_light_rays + 1 == env.max_light_rays
                &&& t.ray is Scattering ==> directions > 0 && t.env.max_light_rays
                    == env.max_light_rays as nat / directions
                &&& env.max_light_rays > 0
                &&& (t.ray == SecondaryRay::Reflection || directions >= 2) ==> t.env.max_light_rays
                    < env.max_light_rays
                &&& t.env.max_light_rays <= env.max_light_rays
                &&& t.env.frame == env.frame
            },
        forall|k: int|
            0 <= k < secondary_plan(env, reflective, directions, scatters).len() ==> ((
            #[trigger] secondary_plan(env, reflective, directions, scatters)[k]).ray matches
                SecondaryRay::Scattering(i) ==> i < directions),
{
    if directions > 0 {
        assert(env.max_light_rays as nat / directions <= env.max_light_rays) by (nonlinear_arith)
            requires
                directions > 0,
        ;
    }
    if directions >= 2 && env.max_light_rays > 0 {
        assert(env.max_light_rays as nat / directions < env.max_light_rays) by (nonlinear_arith)
            requires
                directions >= 2,
                env.max_light_rays > 0,
        ;
    }
}

/// With the budget spent, a hit spawns no secondary ray at all, neither a
/// reflection nor a scattered ray: it contributes its direct emission only.
pub proof fn lemma_zero_budget_direct_only(
    env: RenderEnv,
    reflective: bool,
    directions: nat,
    scatters: bool,
)
    requires
        env.max_light_rays == 0,
    ensures
        secondary_plan(env, reflective, directions, scatters).len() == 0,
{
}

} // verus!
