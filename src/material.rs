use vstd::prelude::*;

verus! {

/// The four per-channel responses of a surface point, over any channel type
/// `T`: a flat color, a texture, or a value already resolved at one point.
#[derive(Clone)]
pub struct PointLightPropertiesCustomType<T> {
    /// Self-luminance added to a ray that reaches the point.
    pub emittance: T,
    /// Fraction of incoming light passed through to farther hits.
    pub transparency: T,
    /// Fraction of a specular bounce added to the ray.
    pub reflectiveness: T,
    /// Fraction distributed across the scattering directions.
    pub scattering: T,
}

impl<T> PointLightPropertiesCustomType<T> where T: Clone {
    /// Applies `f` to each of the four responses, consuming `self`.
    pub fn convert<F, U>(self, f: F) -> (r: PointLightPropertiesCustomType<U>) where
        F: Fn(T) -> U,
        requires
            f.requires((self.emittance,)),
            f.requires((self.transparency,)),
            f.requires((self.reflectiveness,)),
            f.requires((self.scattering,)),
        ensures
            f.ensures((self.emittance,), r.emittance),
            f.ensures((self.transparency,), r.transparency),
            f.ensures((self.reflectiveness,), r.reflectiveness),
            f.ensures((self.scattering,), r.scattering),
    {
        PointLightPropertiesCustomType {
            emittance: f(self.emittance),
            transparency: f(self.transparency),
            reflectiveness: f(self.reflectiveness),
            scattering: f(self.scattering),
        }
    }

    /// Applies `f` to a reference to each of the four responses.
    pub fn convert_ref<F, U>(&self, f: F) -> (r: PointLightPropertiesCustomType<U>) where
        F: Fn(&T) -> U,
        requires
            f.requires((&self.emittance,)),
            f.requires((&self.transparency,)),
            f.requires((&self.reflectiveness,)),
            f.requires((&self.scattering,)),
        ensures
            f.ensures((&self.emittance,), r.emittance),
            f.ensures((&self.transparency,), r.transparency),
            f.ensures((&self.reflectiveness,), r.reflectiveness),
            f.ensures((&self.scattering,), r.scattering),
    {
        PointLightPropertiesCustomType {
            emittance: f(&self.emittance),
            transparency: f(&self.transparency),
            reflectiveness: f(&self.reflectiveness),
            scattering: f(&self.scattering),
        }
    }
}

} // verus!
