use glam::{Quat, Vec3, Vec4};
use rether::action::{ModifyAction, Mutation};
use rether::geometry::{
    BufferData, Expandable, Geometry, IndexedBufferData, IndexedGeometry, SimpleGeometry,
};
use rether::transform::{Rotate, Scale, Translate};
use rether::vertex::Vertex;

fn at(x: f32, y: f32, z: f32) -> Vertex {
    Vertex { position: Vec3::new(x, y, z), normal: Vec3::Y, color: Vec4::ONE }
}

fn positions(vertices: &[Vertex]) -> Vec<Vec3> {
    vertices.iter().map(|v| v.position).collect()
}

#[derive(Debug, Clone, Copy, PartialEq)]
struct Point {
    at: Vec3,
}

impl Translate for Point {
    fn translated(&self, translation: Vec3) -> Self {
        Point { at: self.at + translation }
    }

    fn translate(&mut self, translation: Vec3) {
        self.at += translation;
    }
}

impl Rotate for Point {
    fn rotated(&self, rotation: Quat, center: Vec3) -> Self {
        Point { at: rotation * (self.at - center) + center }
    }

    fn rotate(&mut self, rotation: Quat, center: Vec3) {
        self.at = rotation * (self.at - center) + center;
    }
}

impl Scale for Point {
    fn scaled(&self, scale: Vec3, center: Vec3) -> Self {
        Point { at: (self.at - center) * scale + center }
    }

    fn scale(&mut self, scale: Vec3, center: Vec3) {
        self.at = (self.at - center) * scale + center;
    }
}

#[test]
fn an_empty_geometry_has_no_vertices() {
    let simple: SimpleGeometry<Vertex> = SimpleGeometry::empty();
    assert_eq!(simple.data_len(), 0);
    assert!(simple.vertices().is_empty());
    let indexed: IndexedGeometry<Vertex> = IndexedGeometry::empty();
    assert_eq!(indexed.data_len(), 0);
    assert!(indexed.vertex_data().is_empty());
    assert!(indexed.index_data().is_empty());
}

#[test]
fn init_keeps_what_it_is_given() {
    let simple = SimpleGeometry::init(vec![at(1.0, 0.0, 0.0), at(2.0, 0.0, 0.0)]);
    assert_eq!(simple.data_len(), 2);
    assert_eq!(positions(simple.vertices()), vec![Vec3::new(1.0, 0.0, 0.0), Vec3::new(2.0, 0.0, 0.0)]);
    let indexed = IndexedGeometry::init(vec![at(1.0, 0.0, 0.0)], vec![0, 0, 0]);
    assert_eq!(indexed.data_len(), 1);
    assert_eq!(indexed.index_data(), &vec![0, 0, 0]);
}

#[test]
fn build_data_borrows_the_same_data() {
    let simple = SimpleGeometry::init(vec![at(1.0, 0.0, 0.0), at(2.0, 0.0, 0.0)]);
    assert_eq!(positions(simple.build_data().data), positions(simple.vertices()));
    let indexed = IndexedGeometry::init(vec![at(3.0, 0.0, 0.0)], vec![0, 0, 0]);
    let data = indexed.build_data();
    assert_eq!(positions(data.data), vec![Vec3::new(3.0, 0.0, 0.0)]);
    assert_eq!(data.indices, &[0, 0, 0]);
    let vertices = [at(1.0, 1.0, 1.0)];
    assert_eq!(BufferData::create(&vertices).data.len(), 1);
    let both = IndexedBufferData::create(&vertices, &[0, 0]);
    assert_eq!((both.data.len(), both.indices.len()), (1, 2));
}

#[test]
fn into_simple_keeps_the_vertices() {
    let indexed = IndexedGeometry::init(vec![at(1.0, 2.0, 3.0), at(4.0, 5.0, 6.0)], vec![1, 0]);
    let simple = indexed.into_simple();
    assert_eq!(positions(simple.vertices()), vec![Vec3::new(1.0, 2.0, 3.0), Vec3::new(4.0, 5.0, 6.0)]);
}

#[test]
fn expand_appends_the_other_vertices() {
    let mut a = SimpleGeometry::init(vec![at(1.0, 0.0, 0.0), at(2.0, 0.0, 0.0)]);
    let b = SimpleGeometry::init(vec![at(3.0, 0.0, 0.0)]);
    a.expand(&b);
    assert_eq!(a.data_len(), 3);
    assert_eq!(
        positions(a.vertices()),
        vec![Vec3::new(1.0, 0.0, 0.0), Vec3::new(2.0, 0.0, 0.0), Vec3::new(3.0, 0.0, 0.0)]
    );
    assert_eq!(b.data_len(), 1);
}

#[test]
fn expand_moves_the_other_indices_up_by_the_old_vertex_count() {
    let mut a = IndexedGeometry::init(
        vec![at(0.0, 0.0, 0.0), at(1.0, 0.0, 0.0), at(2.0, 0.0, 0.0)],
        vec![0, 1, 2],
    );
    let b = IndexedGeometry::init(vec![at(3.0, 0.0, 0.0), at(4.0, 0.0, 0.0)], vec![1, 0, 1]);
    a.expand(&b);
    assert_eq!(a.data_len(), 5);
    assert_eq!(a.index_data(), &vec![0, 1, 2, 4, 3, 4]);
    assert_eq!(a.vertex_data()[3].position, Vec3::new(3.0, 0.0, 0.0));
    assert_eq!(a.vertex_data()[4].position, Vec3::new(4.0, 0.0, 0.0));
}

#[test]
fn expand_into_an_empty_geometry_moves_no_index() {
    let mut a: IndexedGeometry<Vertex> = IndexedGeometry::empty();
    let b = IndexedGeometry::init(vec![at(3.0, 0.0, 0.0)], vec![0, 0]);
    a.expand(&b);
    assert_eq!(a.data_len(), 1);
    assert_eq!(a.index_data(), &vec![0, 0]);
}

#[test]
fn a_geometry_transform_reaches_every_vertex() {
    let mut simple = SimpleGeometry::init(vec![at(1.0, 2.0, 3.0), at(0.0, 0.0, 0.0)]);
    simple.translate(Vec3::new(1.0, 0.0, 0.0));
    assert_eq!(positions(simple.vertices()), vec![Vec3::new(2.0, 2.0, 3.0), Vec3::new(1.0, 0.0, 0.0)]);
    simple.scale(Vec3::new(2.0, 2.0, 2.0), Vec3::ZERO);
    assert_eq!(positions(simple.vertices()), vec![Vec3::new(4.0, 4.0, 6.0), Vec3::new(2.0, 0.0, 0.0)]);
    simple.rotate(Quat::from_xyzw(0.0, 0.0, 1.0, 0.0), Vec3::ZERO);
    assert_eq!(
        positions(simple.vertices()),
        vec![Vec3::new(-4.0, -4.0, 6.0), Vec3::new(-2.0, 0.0, 0.0)]
    );

    let mut indexed = IndexedGeometry::init(vec![at(1.0, 2.0, 3.0)], vec![0, 0, 0]);
    indexed.translate(Vec3::new(0.0, 1.0, 0.0));
    indexed.scale(Vec3::new(1.0, 2.0, 1.0), Vec3::new(1.0, 1.0, 3.0));
    indexed.rotate(Quat::IDENTITY, Vec3::ZERO);
    assert_eq!(positions(indexed.vertex_data()), vec![Vec3::new(1.0, 5.0, 3.0)]);
    assert_eq!(indexed.index_data(), &vec![0, 0, 0]);
}

#[test]
fn translate_there_and_back_restores_these_positions() {
    let start = vec![at(1.0, 2.0, 3.0), at(-4.0, 0.5, 8.0), at(0.0, 0.0, 0.0)];
    let mut geometry = SimpleGeometry::init(start.clone());
    let v = Vec3::new(1.0, -2.0, 0.25);
    geometry.translate(v);
    assert_ne!(positions(geometry.vertices()), positions(&start));
    geometry.translate(-v);
    let back = positions(geometry.vertices());
    for (now, then) in back.iter().zip(positions(&start)) {
        assert_eq!(now.to_array().map(f32::to_bits), then.to_array().map(f32::to_bits));
    }
}

#[test]
fn act_applies_the_mutation_to_each_element() {
    let mut data = vec![Point { at: Vec3::new(1.0, 2.0, 3.0) }, Point { at: Vec3::ZERO }];
    let action = ModifyAction::new(0, 2, Mutation::Translate(Vec3::new(1.0, 0.0, 0.0)));
    action.act(&mut data);
    assert_eq!(data, vec![Point { at: Vec3::new(2.0, 2.0, 3.0) }, Point { at: Vec3::X }]);
    ModifyAction::new(0, 2, Mutation::Scale(Vec3::new(2.0, 2.0, 2.0), Vec3::X)).act(&mut data);
    assert_eq!(data, vec![Point { at: Vec3::new(3.0, 4.0, 6.0) }, Point { at: Vec3::X }]);
    ModifyAction::new(0, 2, Mutation::Rotate(Quat::from_xyzw(0.0, 0.0, 1.0, 0.0), Vec3::ZERO))
        .act(&mut data);
    assert_eq!(data, vec![Point { at: Vec3::new(-3.0, -4.0, 6.0) }, Point { at: Vec3::NEG_X }]);
    let mut nothing: Vec<Point> = Vec::new();
    action.act(&mut nothing);
    assert!(nothing.is_empty());
}

#[test]
fn a_mutation_can_be_applied_to_one_element() {
    let mut p = Point { at: Vec3::new(1.0, 1.0, 1.0) };
    Mutation::Translate(Vec3::Y).apply_to(&mut p);
    assert_eq!(p.at, Vec3::new(1.0, 2.0, 1.0));
    let mut all = vec![p, p];
    Mutation::Scale(Vec3::new(3.0, 1.0, 1.0), Vec3::ZERO).apply_to_all(&mut all);
    assert_eq!(all, vec![Point { at: Vec3::new(3.0, 2.0, 1.0) }; 2]);
}
