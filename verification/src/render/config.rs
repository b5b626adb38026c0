//! Knobs for the renderer. Every "feature" is just a parameter.
use vstd::prelude::*;

verus! {

/// The renderer's control panel.
#[derive(Debug, Clone, Copy)]
pub struct RenderConfig {
    /// Shadow-ray occlusion test for direct lighting.
    pub shadows: bool,
    /// How many surface interactions a ray may have.
    /// 1 = direct view + direct light (metal appears black),
    /// 2+ = reflections.
    pub max_bounces: u32,
    /// Rays per pixel.
    pub samples_per_pixel: u32,
}

impl Default for RenderConfig {
    /// Shadows on, four bounces, one sample per pixel.
    fn default() -> (c: Self)
        ensures
            c.shadows,
            c.max_bounces == 4,
            c.samples_per_pixel == 1,
    {
        RenderConfig { shadows: true, max_bounces: 4, samples_per_pixel: 1 }
    }
}

impl RenderConfig {
    /// Builder-style setter: turns the shadow test on or off.
    pub fn shadows(self, on: bool) -> (c: Self)
        ensures
            c.shadows == on,
            c.max_bounces == self.max_bounces,
            c.samples_per_pixel == self.samples_per_pixel,
    {
        RenderConfig { shadows: on, max_bounces: self.max_bounces, samples_per_pixel: self.samples_per_pixel }
    }

    /// Builder-style setter: the number of surface interactions a ray may have.
    pub fn bounces(self, n: u32) -> (c: Self)
        ensures
            c.shadows == self.shadows,
            c.max_bounces == n,
            c.samples_per_pixel == self.samples_per_pixel,
    {
        RenderConfig { shadows: self.shadows, max_bounces: n, samples_per_pixel: self.samples_per_pixel }
    }

    /// Builder-style setter: the number of rays shot per pixel.
    pub fn samples(self, n: u32) -> (c: Self)
        ensures
            c.shadows == self.shadows,
            c.max_bounces == self.max_bounces,
            c.samples_per_pixel == n,
    {
        RenderConfig { shadows: self.shadows, max_bounces: self.max_bounces, samples_per_pixel: n }
    }
}

} // verus!
