//! The render configuration: camera, image size, sampling parameters and the
//! world to trace.

use vstd::prelude::*;
use crate::camera::Camera;
use crate::fixed::{tdiv, SCALE};
use crate::hittable::Hittable;

verus! {

pub struct Config<T> {
    pub camera: Camera,
    pub samples_per_pixel: u32,
    pub max_depth: u32,
    pub image_size: (u32, u32),
    pub world: T,
}

impl<T: Hittable> Config<T> {
    /// The image height follows from the width and the aspect ratio,
    /// truncated to a whole pixel count.
    pub fn new(world: T, camera: Camera, image_width: u32, aspect_ratio: i64) -> (r: Config<T>)
        requires
            aspect_ratio > 0,
            tdiv(image_width as int * SCALE as int, aspect_ratio as int) < 4294967296,
        ensures
            r.world == world,
            r.camera == camera,
            r.samples_per_pixel == 100,
            r.max_depth == 50,
            r.image_size.0 == image_width,
            r.image_size.1 as int == tdiv(image_width as int * SCALE as int,
                aspect_ratio as int),
    {
        proof {
            assert(0 <= (image_width as int * 65536) / (aspect_ratio as int)) by (nonlinear_arith)
                requires aspect_ratio as int > 0, image_width as int >= 0,
            ;
        }
        let image_height = (((image_width as i64) * SCALE) / aspect_ratio) as u32;
        Config {
            camera,
            samples_per_pixel: 100,
            max_depth: 50,
            image_size: (image_width, image_height),
            world,
        }
    }

    pub fn set_samples_per_pixel(self, samples_per_pixel: u32) -> (r: Config<T>)
        ensures
            r.samples_per_pixel == samples_per_pixel,
            r.camera == self.camera,
            r.max_depth == self.max_depth,
            r.image_size == self.image_size,
            r.world == self.world,
    {
        Config { samples_per_pixel, ..self }
    }

    pub fn set_max_depth(self, max_depth: u32) -> (r: Config<T>)
        ensures
            r.max_depth == max_depth,
            r.camera == self.camera,
            r.samples_per_pixel == self.samples_per_pixel,
            r.image_size == self.image_size,
            r.world == self.world,
    {
        Config { max_depth, ..self }
    }
}

} // verus!
