use vstd::prelude::*;

verus! {

/// Context handed down the recursion of one traced ray.
#[derive(Clone, Copy, Debug)]
pub struct RenderEnv {
    /// Opaque per-frame counter, carried through unchanged.
    pub frame: u128,
    /// Remaining budget of secondary (reflected or scattered) rays.
    pub max_light_rays: u64,
}

/// The context of a specular bounce: none once the budget is spent, else the
/// same frame with one ray less.
pub open spec fn reflection_env(env: RenderEnv) -> Option<RenderEnv> {
    if env.max_light_rays == 0 {
        None
    } else {
        Some(RenderEnv { frame: env.frame, max_light_rays: (env.max_light_rays - 1) as u64 })
    }
}

/// The context of each of `branches` scattered rays: the budget is split by
/// integer division.
pub open spec fn scatter_env(env: RenderEnv, branches: nat) -> RenderEnv {
    RenderEnv { frame: env.frame, max_light_rays: (env.max_light_rays as nat / branches) as u64 }
}

impl RenderEnv {
    /// The context for tracing the reflected ray, or `None` when the budget
    /// allows no further bounce.
    pub fn reflected(&self) -> (r: Option<RenderEnv>)
        ensures
            r == reflection_env(*self),
    {
        if self.max_light_rays == 0 {
            None
        } else {
            Some(RenderEnv { frame: self.frame, max_light_rays: self.max_light_rays - 1 })
        }
    }

    /// The context shared by each of `branches` scattered rays.
    pub fn scattered(&self, branches: usize) -> (r: RenderEnv)
        requires
            branches > 0,
        ensures
            r == scatter_env(*self, branches as nat),
    {
        let n: u64 = branches as u64;
        RenderEnv { frame: self.frame, max_light_rays: self.max_light_rays / n }
    }
}

/// A specular bounce is refused exactly when the budget is zero, and
/// otherwise spends exactly one ray of it; the frame is kept.
pub proof fn lemma_reflection_spends_one(env: RenderEnv)
    ensures
        reflection_env(env) is None <==> env.max_light_rays == 0,
        reflection_env(env) matches Some(next) ==> next.max_light_rays + 1 == env.max_light_rays
            && next.frame == env.frame,
{
}

/// Scattering into `branches` rays gives each the budget divided by
/// `branches`: together they never hold more than the budget, a single
/// branch keeps it, and an empty budget stays empty.
pub proof fn lemma_scatter_splits_budget(env: RenderEnv, branches: nat)
    requires
        branches > 0,
    ensures
        scatter_env(env, branches).max_light_rays == env.max_light_rays as nat / branches,
        scatter_env(env, branches).max_light_rays * branches <= env.max_light_rays,
        scatter_env(env, branches).max_light_rays <= env.max_light_rays,
        branches == 1 ==> scatter_env(env, branches).max_light_rays == env.max_light_rays,
        env.max_light_rays == 0 ==> scatter_env(env, branches).max_light_rays == 0,
        scatter_env(env, branches).frame == env.frame,
{
    let b = env.max_light_rays as nat;
    assert((b / branches) * branches <= b) by (nonlinear_arith)
        requires
            branches > 0,
    ;
    assert(b / branches <= b) by (nonlinear_arith)
        requires
            branches > 0,
    ;
}

/// Along any chain of secondary rays the budget never grows, and it shrinks
/// at every specular bounce, so a trace recurses at most `max_light_rays`
/// bounces deep through reflections.
pub proof fn lemma_budget_never_grows(env: RenderEnv, branches: nat)
    requires
        branches > 0,
    ensures
        reflection_env(env) matches Some(next) ==> next.max_light_rays < env.max_light_rays,
        scatter_env(env, branches).max_light_rays <= env.max_light_rays,
{
    lemma_scatter_splits_budget(env, branches);
}

} // verus!
