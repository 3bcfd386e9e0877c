use glam::{Mat4, Quat, Vec3, Vec4};
use rether::transform::{center_or_zero, Rotate, Scale, Transform, Translate};
use rether::vertex::Vertex;

fn vertex(x: f32, y: f32, z: f32) -> Vertex {
    Vertex { position: Vec3::new(x, y, z), normal: Vec3::Z, color: Vec4::ONE }
}

#[test]
fn the_default_transform_is_the_identity() {
    let transform = Transform::default();
    assert_eq!(transform.translation, Vec3::ZERO);
    assert_eq!(transform.rotation, Quat::IDENTITY);
    assert_eq!(transform.scale, Vec3::ONE);
    assert_eq!(transform.matrix(), Mat4::IDENTITY);
}

#[test]
fn translations_add_up() {
    let mut transform = Transform::default();
    transform.translate(Vec3::new(1.0, 2.0, 3.0));
    transform.translate(Vec3::new(0.5, -2.0, 4.0));
    assert_eq!(transform.translation, Vec3::new(1.5, 0.0, 7.0));
    assert_eq!(transform.rotation, Quat::IDENTITY);
    assert_eq!(transform.scale, Vec3::ONE);
}

#[test]
fn scales_multiply() {
    let mut transform = Transform::default();
    transform.scale(Vec3::new(2.0, 3.0, 4.0), Vec3::new(9.0, 9.0, 9.0));
    transform.scale(Vec3::new(0.5, 2.0, 1.0), Vec3::ZERO);
    assert_eq!(transform.scale, Vec3::new(1.0, 6.0, 4.0));
    assert_eq!(transform.translation, Vec3::ZERO);
}

#[test]
fn a_new_rotation_is_multiplied_in_from_the_left() {
    let quarter_z = Quat::from_xyzw(0.0, 0.0, 0.5f32.sqrt(), 0.5f32.sqrt());
    let quarter_x = Quat::from_xyzw(0.5f32.sqrt(), 0.0, 0.0, 0.5f32.sqrt());
    let mut transform = Transform::default();
    transform.rotate(quarter_z, Vec3::ZERO);
    assert_eq!(transform.rotation, quarter_z * Quat::IDENTITY);
    transform.rotate(quarter_x, Vec3::new(1.0, 1.0, 1.0));
    assert_eq!(transform.rotation, quarter_x * (quarter_z * Quat::IDENTITY));
    assert_ne!(transform.rotation, quarter_z * quarter_x);
}

#[test]
fn the_matrix_is_translation_times_rotation_times_scale() {
    let rotation = Quat::from_xyzw(0.0, 0.0, 0.5f32.sqrt(), 0.5f32.sqrt());
    let transform = Transform {
        translation: Vec3::new(1.0, 2.0, 3.0),
        rotation,
        scale: Vec3::new(2.0, 2.0, 0.5),
    };
    let expected = Mat4::from_translation(Vec3::new(1.0, 2.0, 3.0))
        * Mat4::from_quat(rotation)
        * Mat4::from_scale(Vec3::new(2.0, 2.0, 0.5));
    assert_eq!(transform.matrix(), expected);
    assert_eq!(
        Transform { rotation: Quat::IDENTITY, ..transform }.matrix().w_axis,
        Vec4::new(1.0, 2.0, 3.0, 1.0)
    );
    assert_eq!(
        Transform { rotation: Quat::IDENTITY, ..transform }.matrix().x_axis,
        Vec4::new(2.0, 0.0, 0.0, 0.0)
    );
}

#[test]
fn the_centre_defaults_to_the_origin() {
    assert_eq!(center_or_zero(None), Vec3::ZERO);
    assert_eq!(center_or_zero(Some(Vec3::new(1.0, 2.0, 3.0))), Vec3::new(1.0, 2.0, 3.0));
}

#[test]
fn the_default_vertex_is_all_zero() {
    let v = Vertex::default();
    assert_eq!(v.position, Vec3::ZERO);
    assert_eq!(v.normal, Vec3::ZERO);
    assert_eq!(v.color, Vec4::ZERO);
}

#[test]
fn translate_moves_the_position_only() {
    let mut v = vertex(1.0, 2.0, 3.0);
    v.translate(Vec3::new(1.0, 0.0, -3.0));
    assert_eq!(v, Vertex { position: Vec3::new(2.0, 2.0, 0.0), normal: Vec3::Z, color: Vec4::ONE });
}

#[test]
fn scale_is_about_the_centre() {
    let mut v = vertex(3.0, 4.0, 5.0);
    v.scale(Vec3::new(2.0, 3.0, 0.5), Vec3::new(1.0, 1.0, 1.0));
    assert_eq!(v.position, Vec3::new(5.0, 10.0, 3.0));
    assert_eq!(v.normal, Vec3::Z);
    let mut w = vertex(3.0, 4.0, 5.0);
    w.scale(Vec3::new(2.0, 3.0, 0.5), Vec3::ZERO);
    assert_eq!(w.position, Vec3::new(6.0, 12.0, 2.5));
}

#[test]
fn rotate_turns_position_about_the_centre_and_normal_about_the_origin() {
    let half_turn_z = Quat::from_xyzw(0.0, 0.0, 1.0, 0.0);
    let mut v = Vertex { position: Vec3::new(3.0, 1.0, 7.0), normal: Vec3::X, color: Vec4::ONE };
    v.rotate(half_turn_z, Vec3::new(1.0, 1.0, 0.0));
    let centre = Vec3::new(1.0, 1.0, 0.0);
    assert_eq!(v.position, half_turn_z * (Vec3::new(3.0, 1.0, 7.0) - centre) + centre);
    assert_eq!(v.position, Vec3::new(-1.0, 1.0, 7.0));
    assert_eq!(v.normal, Vec3::new(-1.0, 0.0, 0.0));
    assert_eq!(v.color, Vec4::ONE);
}
