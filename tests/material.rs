use raytrace::PointLightPropertiesCustomType;

#[test]
fn convert_applies_to_each_channel() {
    let p = PointLightPropertiesCustomType { emittance: 1, transparency: 2, reflectiveness: 3, scattering: 4 };
    let q = p.convert(|v: i32| v * 10);
    assert_eq!((q.emittance, q.transparency, q.reflectiveness, q.scattering), (10, 20, 30, 40));
}

#[test]
fn convert_ref_leaves_source_intact() {
    let p = PointLightPropertiesCustomType {
        emittance: String::from("e"),
        transparency: String::from("t"),
        reflectiveness: String::from("r"),
        scattering: String::from("s"),
    };
    let q = p.convert_ref(|v: &String| v.len() + 1);
    assert_eq!((q.emittance, q.transparency, q.reflectiveness, q.scattering), (2, 2, 2, 2));
    assert_eq!(p.scattering, "s");
}
