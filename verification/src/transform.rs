//! Spatial deltas and the summary transform of a model.
//!
//! Vectors and quaternions are `glam` values. Their arithmetic is done by
//! `glam`; this module gives each operation a name that contracts can speak of.

use vstd::prelude::*;

verus! {

/// `glam`'s vector of three floats, carried through as an opaque value.
#[verifier::external_type_specification]
#[verifier::external_body]
pub struct ExVec3(glam::Vec3);

/// `glam`'s vector of four floats, carried through as an opaque value.
#[verifier::external_type_specification]
#[verifier::external_body]
pub struct ExVec4(glam::Vec4);

/// `glam`'s quaternion, carried through as an opaque value.
#[verifier::external_type_specification]
#[verifier::external_body]
pub struct ExQuat(glam::Quat);

/// `glam`'s four-by-four matrix, carried through as an opaque value.
#[verifier::external_type_specification]
#[verifier::external_body]
pub struct ExMat4(glam::Mat4);

/// The component-wise sum `a + b` as `glam` computes it.
pub uninterp spec fn vec3_sum(a: glam::Vec3, b: glam::Vec3) -> glam::Vec3;

/// The component-wise difference `a - b` as `glam` computes it.
pub uninterp spec fn vec3_difference(a: glam::Vec3, b: glam::Vec3) -> glam::Vec3;

/// The component-wise product `a * b` as `glam` computes it.
pub uninterp spec fn vec3_product(a: glam::Vec3, b: glam::Vec3) -> glam::Vec3;

/// The vector whose components are the given integers, converted by `glam`.
pub uninterp spec fn vec3_of_ints(x: i32, y: i32, z: i32) -> glam::Vec3;

/// The quaternion product `a * b` as `glam` computes it.
pub uninterp spec fn quat_product(a: glam::Quat, b: glam::Quat) -> glam::Quat;

/// The vector `v` rotated by the quaternion `q`, as `glam` computes `q * v`.
pub uninterp spec fn quat_rotated(q: glam::Quat, v: glam::Vec3) -> glam::Vec3;

/// The vector whose components are the given integers, converted by `glam`.
pub uninterp spec fn vec4_of_ints(x: i32, y: i32, z: i32, w: i32) -> glam::Vec4;

/// The quaternion whose four components are those of `v`.
pub uninterp spec fn quat_of_vec4(v: glam::Vec4) -> glam::Quat;

/// Calls `glam`'s `Add<Vec3> for Vec3`. Trusted: the result is the named sum
/// of the two arguments; the addition is component-wise and cannot fail.
#[verifier::external_body]
pub(crate) fn vec3_add(a: glam::Vec3, b: glam::Vec3) -> (r: glam::Vec3)
    ensures
        r == vec3_sum(a, b),
{
    a + b
}

/// Calls `glam`'s `Sub<Vec3> for Vec3`. Trusted: the result is the named
/// difference of the two arguments.
#[verifier::external_body]
pub(crate) fn vec3_sub(a: glam::Vec3, b: glam::Vec3) -> (r: glam::Vec3)
    ensures
        r == vec3_difference(a, b),
{
    a - b
}

/// Calls `glam`'s `Mul<Vec3> for Vec3`. Trusted: the result is the named
/// component-wise product of the two arguments.
#[verifier::external_body]
pub(crate) fn vec3_mul(a: glam::Vec3, b: glam::Vec3) -> (r: glam::Vec3)
    ensures
        r == vec3_product(a, b),
{
    a * b
}

/// Calls `glam`'s `IVec3::as_vec3`. Trusted: the result is the named vector of
/// the three integers.
#[verifier::external_body]
pub(crate) fn vec3_from_ints(x: i32, y: i32, z: i32) -> (r: glam::Vec3)
    ensures
        r == vec3_of_ints(x, y, z),
{
    glam::IVec3::new(x, y, z).as_vec3()
}

/// Calls `glam`'s `Mul<Quat> for Quat`. Trusted: the result is the named
/// quaternion product. Without the crate's `glam-assert` feature the call
/// accepts every pair of quaternions.
#[verifier::external_body]
pub(crate) fn quat_mul(a: glam::Quat, b: glam::Quat) -> (r: glam::Quat)
    ensures
        r == quat_product(a, b),
{
    a * b
}

/// Calls `glam`'s `Mul<Vec3> for Quat`. Trusted: the result is the named
/// rotation of `v` by `q`. Without the crate's `glam-assert` feature the call
/// accepts every quaternion.
#[verifier::external_body]
pub(crate) fn quat_rotate(q: glam::Quat, v: glam::Vec3) -> (r: glam::Vec3)
    ensures
        r == quat_rotated(q, v),
{
    q * v
}

/// Calls `glam`'s `IVec4::as_vec4`. Trusted: the result is the named vector
/// of the four integers.
#[verifier::external_body]
pub(crate) fn vec4_from_ints(x: i32, y: i32, z: i32, w: i32) -> (r: glam::Vec4)
    ensures
        r == vec4_of_ints(x, y, z, w),
{
    glam::IVec4::new(x, y, z, w).as_vec4()
}

/// Calls `glam`'s `Quat::from_vec4`. Trusted: the result is the named
/// quaternion of the vector; the call takes the components over as they are.
#[verifier::external_body]
pub(crate) fn quat_from_vec4(v: glam::Vec4) -> (r: glam::Quat)
    ensures
        r == quat_of_vec4(v),
{
    glam::Quat::from_vec4(v)
}

/// The matrix of the translation by `translation`, as `glam` builds it.
pub uninterp spec fn mat4_of_translation(translation: glam::Vec3) -> glam::Mat4;

/// The matrix of the rotation `rotation`, as `glam` builds it.
pub uninterp spec fn mat4_of_quat(rotation: glam::Quat) -> glam::Mat4;

/// The matrix of the scaling by `scale`, as `glam` builds it.
pub uninterp spec fn mat4_of_scale(scale: glam::Vec3) -> glam::Mat4;

/// The matrix product `a * b` as `glam` computes it.
pub uninterp spec fn mat4_product(a: glam::Mat4, b: glam::Mat4) -> glam::Mat4;

/// Calls `glam`'s `Mat4::from_translation`. Trusted: the result is the named
/// matrix of the vector.
#[verifier::external_body]
pub(crate) fn mat4_from_translation(translation: glam::Vec3) -> (r: glam::Mat4)
    ensures
        r == mat4_of_translation(translation),
{
    glam::Mat4::from_translation(translation)
}

/// Calls `glam`'s `Mat4::from_quat`. Trusted: the result is the named matrix
/// of the quaternion. Without the crate's `glam-assert` feature the call
/// accepts every quaternion.
#[verifier::external_body]
pub(crate) fn mat4_from_quat(rotation: glam::Quat) -> (r: glam::Mat4)
    ensures
        r == mat4_of_quat(rotation),
{
    glam::Mat4::from_quat(rotation)
}

/// Calls `glam`'s `Mat4::from_scale`. Trusted: the result is the named matrix
/// of the vector. Without the crate's `glam-assert` feature the call accepts
/// every vector.
#[verifier::external_body]
pub(crate) fn mat4_from_scale(scale: glam::Vec3) -> (r: glam::Mat4)
    ensures
        r == mat4_of_scale(scale),
{
    glam::Mat4::from_scale(scale)
}

/// Calls `glam`'s `Mul<Mat4> for Mat4`. Trusted: the result is the named
/// matrix product.
#[verifier::external_body]
pub(crate) fn mat4_mul(a: glam::Mat4, b: glam::Mat4) -> (r: glam::Mat4)
    ensures
        r == mat4_product(a, b),
{
    a * b
}

/// The vector with all components 0.
pub open spec fn vec3_zero() -> glam::Vec3 {
    vec3_of_ints(0, 0, 0)
}

/// The centre that a rotation or scaling is about: the given one, or the
/// origin.
pub open spec fn center_or_origin(center: Option<glam::Vec3>) -> glam::Vec3 {
    match center {
        Some(c) => c,
        None => vec3_zero(),
    }
}

/// The centre that a rotation or scaling is about: the given one, or the
/// origin.
pub fn center_or_zero(center: Option<glam::Vec3>) -> (r: glam::Vec3)
    ensures
        r == center_or_origin(center),
{
    match center {
        Some(c) => c,
        None => vec3_from_ints(0, 0, 0),
    }
}

/// A value that can be moved by a translation vector.
///
/// `translated` says what `translate` leaves behind. An implementation in
/// code that is not verified writes it as an ordinary function.
pub trait Translate: Sized {
    /// The value after a translation by `translation`.
    spec fn translated(&self, translation: glam::Vec3) -> Self;

    /// Moves the value by `translation`.
    fn translate(&mut self, translation: glam::Vec3)
        ensures
            *final(self) == old(self).translated(translation),
    ;
}

/// A value that can be rotated about a centre.
///
/// `rotated` says what `rotate` leaves behind. An implementation in code
/// that is not verified writes it as an ordinary function.
pub trait Rotate: Sized {
    /// The value after a rotation by `rotation` about `center`.
    spec fn rotated(&self, rotation: glam::Quat, center: glam::Vec3) -> Self;

    /// Rotates the value by `rotation` about `center`.
    fn rotate(&mut self, rotation: glam::Quat, center: glam::Vec3)
        ensures
            *final(self) == old(self).rotated(rotation, center),
    ;
}

/// A value that can be scaled about a centre.
///
/// `scaled` says what `scale` leaves behind. An implementation in code that
/// is not verified writes it as an ordinary function.
pub trait Scale: Sized {
    /// The value after a scaling by `scale` about `center`.
    spec fn scaled(&self, scale: glam::Vec3, center: glam::Vec3) -> Self;

    /// Scales the value by `scale` about `center`.
    fn scale(&mut self, scale: glam::Vec3, center: glam::Vec3)
        ensures
            *final(self) == old(self).scaled(scale, center),
    ;
}

/// The accumulated placement of a model: composed as translation, then
/// rotation, then scale.
#[derive(Debug, Clone, Copy, PartialEq)]
pub struct Transform {
    pub translation: glam::Vec3,
    pub rotation: glam::Quat,
    pub scale: glam::Vec3,
}

impl Transform {
    /// The identity transform: no translation, the identity rotation, unit scale.
    pub open spec fn identity() -> Transform {
        Transform {
            translation: vec3_of_ints(0, 0, 0),
            rotation: quat_of_vec4(vec4_of_ints(0, 0, 0, 1)),
            scale: vec3_of_ints(1, 1, 1),
        }
    }
}

impl Transform {
    /// The matrix of the transform: translation times rotation times scale.
    pub open spec fn spec_matrix(&self) -> glam::Mat4 {
        mat4_product(
            mat4_product(mat4_of_translation(self.translation), mat4_of_quat(self.rotation)),
            mat4_of_scale(self.scale),
        )
    }

    /// The matrix of the transform: translation times rotation times scale.
    pub fn matrix(&self) -> (r: glam::Mat4)
        ensures
            r == self.spec_matrix(),
    {
        mat4_mul(
            mat4_mul(mat4_from_translation(self.translation), mat4_from_quat(self.rotation)),
            mat4_from_scale(self.scale),
        )
    }
}

impl Default for Transform {
    fn default() -> (r: Transform)
        ensures
            r == Transform::identity(),
    {
        Transform {
            translation: vec3_from_ints(0, 0, 0),
            rotation: quat_from_vec4(vec4_from_ints(0, 0, 0, 1)),
            scale: vec3_from_ints(1, 1, 1),
        }
    }
}

impl Translate for Transform {
    /// Translations add up.
    open spec fn translated(&self, translation: glam::Vec3) -> Transform {
        Transform {
            translation: vec3_sum(self.translation, translation),
            rotation: self.rotation,
            scale: self.scale,
        }
    }

    fn translate(&mut self, translation: glam::Vec3) {
        self.translation = vec3_add(self.translation, translation);
    }
}

impl Rotate for Transform {
    /// A new rotation is multiplied in from the left; the centre does not
    /// enter the summary.
    open spec fn rotated(&self, rotation: glam::Quat, center: glam::Vec3) -> Transform {
        Transform {
            translation: self.translation,
            rotation: quat_product(rotation, self.rotation),
            scale: self.scale,
        }
    }

    fn rotate(&mut self, rotation: glam::Quat, center: glam::Vec3) {
        self.rotation = quat_mul(rotation, self.rotation);
    }
}

impl Scale for Transform {
    /// Scales multiply; the centre does not enter the summary.
    open spec fn scaled(&self, scale: glam::Vec3, center: glam::Vec3) -> Transform {
        Transform {
            translation: self.translation,
            rotation: self.rotation,
            scale: vec3_product(self.scale, scale),
        }
    }

    fn scale(&mut self, scale: glam::Vec3, center: glam::Vec3) {
        self.scale = vec3_mul(self.scale, scale);
    }
}

} // verus!
