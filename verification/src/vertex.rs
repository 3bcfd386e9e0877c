//! A vertex: one point of a geometry.

use vstd::prelude::*;
use crate::transform::{
    quat_rotate, quat_rotated, vec3_add, vec3_difference, vec3_from_ints, vec3_mul, vec3_of_ints,
    vec3_product, vec3_sub, vec3_sum, vec4_from_ints, vec4_of_ints, Rotate, Scale, Translate,
};

verus! {

/// A point with its normal and its colour.
#[derive(Debug, Clone, Copy, PartialEq)]
pub struct Vertex {
    pub position: glam::Vec3,
    pub normal: glam::Vec3,
    pub color: glam::Vec4,
}

impl Default for Vertex {
    /// The vertex whose components are all 0.
    fn default() -> (r: Vertex)
        ensures
            r == (Vertex {
                position: vec3_of_ints(0, 0, 0),
                normal: vec3_of_ints(0, 0, 0),
                color: vec4_of_ints(0, 0, 0, 0),
            }),
    {
        Vertex {
            position: vec3_from_ints(0, 0, 0),
            normal: vec3_from_ints(0, 0, 0),
            color: vec4_from_ints(0, 0, 0, 0),
        }
    }
}

impl Translate for Vertex {
    /// The position moves; normal and colour stay.
    open spec fn translated(&self, translation: glam::Vec3) -> Vertex {
        Vertex { position: vec3_sum(self.position, translation), ..*self }
    }

    fn translate(&mut self, translation: glam::Vec3) {
        self.position = vec3_add(self.position, translation);
    }
}

impl Rotate for Vertex {
    /// The position turns about the centre; the normal turns about the
    /// origin.
    open spec fn rotated(&self, rotation: glam::Quat, center: glam::Vec3) -> Vertex {
        Vertex {
            position: vec3_sum(
                quat_rotated(rotation, vec3_difference(self.position, center)),
                center,
            ),
            normal: quat_rotated(rotation, self.normal),
            ..*self
        }
    }

    fn rotate(&mut self, rotation: glam::Quat, center: glam::Vec3) {
        self.position = vec3_add(quat_rotate(rotation, vec3_sub(self.position, center)), center);
        self.normal = quat_rotate(rotation, self.normal);
    }
}

impl Scale for Vertex {
    /// The position is scaled about the centre; normal and colour stay.
    open spec fn scaled(&self, scale: glam::Vec3, center: glam::Vec3) -> Vertex {
        Vertex {
            position: vec3_sum(vec3_product(vec3_difference(self.position, center), scale), center),
            ..*self
        }
    }

    fn scale(&mut self, scale: glam::Vec3, center: glam::Vec3) {
        self.position = vec3_add(vec3_mul(vec3_sub(self.position, center), scale), center);
    }
}

} // verus!
