//! Verified core of a small recursive ray tracer.
//!
//! The floating-point shading math (vectors, colors, intersections) lives
//! outside this library; what stands here is the float-free part of the
//! renderer: per-surface material records, the recursion budget that bounds
//! secondary rays, the nearest-first ordering of hits, the camera's pixel to
//! device-coordinate mapping, and the assembly of the final RGBA8 raster.

mod budget;
mod camera;
mod material;
mod order;
mod raster;
mod secondary;

pub use budget::{
    lemma_budget_never_grows, lemma_reflection_spends_one, lemma_scatter_splits_budget,
    reflection_env, scatter_env, RenderEnv,
};
pub use camera::{
    device_coord, device_coord_of, lemma_corner_pixels, pixel_coords_of, pixel_device_coords,
    pixel_xy, DeviceCoord,
};
pub use material::PointLightPropertiesCustomType;
pub use order::{
    distance_key, is_index_permutation, is_nan_bits, is_nearest_first, lemma_key_order_is_numeric,
    nearest_first, numeric_eq, numeric_lt, order_key, EXPONENT_MASK, FRACTION_MASK, MAGNITUDE_MASK,
    SIGN_BIT,
};
pub use raster::{
    assemble_raster, collect_pixels, flatten_pixels, raster_bytes, raster_size, Raster, CHANNELS,
};
pub use secondary::{
    lemma_secondary_rays_bounded, lemma_zero_budget_direct_only, secondary_plan, secondary_rays,
    SecondaryRay, SecondaryTrace,
};
