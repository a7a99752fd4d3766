use raytrace::{secondary_rays, RenderEnv, SecondaryRay};

#[test]
fn no_secondary_rays_at_zero_budget_without_scattering() {
    let env = RenderEnv { frame: 0, max_light_rays: 0 };
    assert!(secondary_rays(&env, true, 0, false).is_empty());
}

#[test]
fn reflection_only() {
    let env = RenderEnv { frame: 9, max_light_rays: 5 };
    let plan = secondary_rays(&env, true, 0, false);
    assert_eq!(plan.len(), 1);
    assert_eq!(plan[0].ray, SecondaryRay::Reflection);
    assert_eq!(plan[0].env.max_light_rays, 4);
    assert_eq!(plan[0].env.frame, 9);
}

#[test]
fn non_reflective_surface_spawns_no_reflection() {
    let env = RenderEnv { frame: 0, max_light_rays: 5 };
    assert!(secondary_rays(&env, false, 0, false).is_empty());
}

#[test]
fn scattering_one_ray_per_direction() {
    let env = RenderEnv { frame: 3, max_light_rays: 7 };
    let plan = secondary_rays(&env, true, 3, true);
    let rays: Vec<SecondaryRay> = plan.iter().map(|t| t.ray).collect();
    assert_eq!(
        rays,
        vec![
            SecondaryRay::Reflection,
            SecondaryRay::Scattering(0),
            SecondaryRay::Scattering(1),
            SecondaryRay::Scattering(2)
        ]
    );
    assert_eq!(plan[0].env.max_light_rays, 6);
    for t in &plan[1..] {
        assert_eq!(t.env.max_light_rays, 2);
        assert_eq!(t.env.frame, 3);
    }
}

#[test]
fn no_scattering_at_zero_budget() {
    let env = RenderEnv { frame: 0, max_light_rays: 0 };
    assert!(secondary_rays(&env, true, 2, true).is_empty());
    assert!(secondary_rays(&env, false, 1, true).is_empty());
}

#[test]
fn scattering_with_budget_of_one() {
    let env = RenderEnv { frame: 0, max_light_rays: 1 };
    let plan = secondary_rays(&env, false, 2, true);
    assert_eq!(plan.len(), 2);
    assert!(plan.iter().all(|t| t.env.max_light_rays == 0));
    assert_eq!(plan[0].ray, SecondaryRay::Scattering(0));
    assert_eq!(plan[1].ray, SecondaryRay::Scattering(1));
}

#[test]
fn zero_scattering_share_spawns_no_scattered_rays() {
    let env = RenderEnv { frame: 0, max_light_rays: 4 };
    let plan = secondary_rays(&env, false, 5, false);
    assert!(plan.is_empty());
}
