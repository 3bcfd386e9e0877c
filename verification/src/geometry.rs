//! Vertex data as it is authored, before it is uploaded into a buffer.

use vstd::prelude::*;
use crate::action::Mutation;
use crate::transform::{Rotate, Scale, Translate};

verus! {

/// Vertices borrowed for an upload.
pub struct BufferData<'a, T> {
    pub data: &'a [T],
}

impl<'a, T> BufferData<'a, T> {
    /// Borrows `data`.
    pub fn create(data: &'a [T]) -> (r: Self)
        ensures
            r.data@ == data@,
    {
        Self { data }
    }
}

/// Vertices and indices borrowed for an upload.
pub struct IndexedBufferData<'a, T> {
    pub data: &'a [T],
    pub indices: &'a [u32],
}

impl<'a, T> IndexedBufferData<'a, T> {
    /// Borrows `vertices` and `indices`.
    pub fn create(vertices: &'a [T], indices: &'a [u32]) -> (r: Self)
        ensures
            r.data@ == vertices@,
            r.indices@ == indices@,
    {
        Self { data: vertices, indices }
    }
}

/// Whether `whole` is `head` followed by clones of `tail`.
pub open spec fn extended_by<T: Clone>(whole: Seq<T>, head: Seq<T>, tail: Seq<T>) -> bool {
    &&& whole.len() == head.len() + tail.len()
    &&& forall|i: int| 0 <= i < head.len() ==> #[trigger] whole[i] == head[i]
    &&& forall|i: int|
        0 <= i < tail.len() ==> cloned::<T>(tail[i], #[trigger] whole[head.len() + i])
}

/// The indices `indices`, each moved up by `base`.
pub open spec fn rebased(indices: Seq<u32>, base: nat) -> Seq<u32> {
    Seq::new(indices.len(), |i: int| (indices[i] + base) as u32)
}

/// Whether every index of `indices`, moved up by `base`, is still a `u32`.
pub open spec fn rebase_fits(indices: Seq<u32>, base: nat) -> bool {
    forall|i: int| 0 <= i < indices.len() ==> #[trigger] indices[i] + base <= u32::MAX
}

/// A geometry that can take another one in behind its own data.
pub trait Expandable {
    /// Whether `other` can be taken in.
    spec fn can_expand(&self, other: &Self) -> bool;

    /// Whether `after` is `self` with `other` taken in.
    spec fn expanded(&self, other: &Self, after: &Self) -> bool;

    /// Takes `other` in behind the own data.
    fn expand(&mut self, other: &Self)
        requires
            old(self).can_expand(other),
        ensures
            old(self).expanded(other, final(self)),
    ;
}

/// Vertex data that can be uploaded.
pub trait Geometry: Expandable {
    /// The number of vertices.
    spec fn spec_data_len(&self) -> nat;

    /// The number of vertices.
    fn data_len(&self) -> (r: usize)
        ensures
            r == self.spec_data_len(),
    ;
}

/// A list of vertices.
#[derive(Debug)]
pub struct SimpleGeometry<T> {
    vertices: Vec<T>,
}

impl<T> View for SimpleGeometry<T> {
    type V = Seq<T>;

    /// The vertices.
    closed spec fn view(&self) -> Seq<T> {
        self.vertices@
    }
}

impl<T> SimpleGeometry<T> {
    /// A geometry without vertices.
    pub fn empty() -> (r: Self)
        ensures
            r@ == Seq::<T>::empty(),
    {
        Self { vertices: Vec::new() }
    }

    /// The geometry of the given vertices.
    pub fn init(vertices: Vec<T>) -> (r: Self)
        ensures
            r@ == vertices@,
    {
        Self { vertices }
    }

    /// The vertices, borrowed for an upload.
    pub fn build_data(&self) -> (r: BufferData<'_, T>)
        ensures
            r.data@ == self@,
    {
        BufferData::create(self.vertices.as_slice())
    }

    /// The vertices.
    pub fn vertices(&self) -> (r: &Vec<T>)
        ensures
            r@ == self@,
    {
        &self.vertices
    }
}

impl<T: Translate + Rotate + Scale> SimpleGeometry<T> {
    /// Applies `mutation` to every vertex.
    pub fn mutate(&mut self, mutation: Mutation)
        ensures
            final(self)@ == mutation.apply_all(old(self)@),
    {
        mutation.apply_to_all(&mut self.vertices);
    }

    /// Moves every vertex by `translation`.
    pub fn translate(&mut self, translation: glam::Vec3)
        ensures
            final(self)@ == Mutation::Translate(translation).apply_all(old(self)@),
    {
        self.mutate(Mutation::Translate(translation));
    }

    /// Rotates every vertex by `rotation` about `center`.
    pub fn rotate(&mut self, rotation: glam::Quat, center: glam::Vec3)
        ensures
            final(self)@ == Mutation::Rotate(rotation, center).apply_all(old(self)@),
    {
        self.mutate(Mutation::Rotate(rotation, center));
    }

    /// Scales every vertex by `scale` about `center`.
    pub fn scale(&mut self, scale: glam::Vec3, center: glam::Vec3)
        ensures
            final(self)@ == Mutation::Scale(scale, center).apply_all(old(self)@),
    {
        self.mutate(Mutation::Scale(scale, center));
    }
}

impl<T: Clone> Expandable for SimpleGeometry<T> {
    open spec fn can_expand(&self, other: &Self) -> bool {
        true
    }

    /// The vertices of `other` follow those of `self`.
    open spec fn expanded(&self, other: &Self, after: &Self) -> bool {
        extended_by(after@, self@, other@)
    }

    fn expand(&mut self, other: &Self) {
        self.vertices.extend_from_slice(other.vertices.as_slice());
    }
}

impl<T: Clone> Geometry for SimpleGeometry<T> {
    open spec fn spec_data_len(&self) -> nat {
        self@.len()
    }

    fn data_len(&self) -> (r: usize) {
        self.vertices.len()
    }
}

/// A list of vertices and a list of indices into it.
#[derive(Debug)]
pub struct IndexedGeometry<T> {
    vertices: Vec<T>,
    indices: Vec<u32>,
}

impl<T> IndexedGeometry<T> {
    /// The vertices.
    pub closed spec fn vertices(&self) -> Seq<T> {
        self.vertices@
    }

    /// The indices.
    pub closed spec fn indices(&self) -> Seq<u32> {
        self.indices@
    }

    /// A geometry without vertices and indices.
    pub fn empty() -> (r: Self)
        ensures
            r.vertices() == Seq::<T>::empty(),
            r.indices() == Seq::<u32>::empty(),
    {
        Self { vertices: Vec::new(), indices: Vec::new() }
    }

    /// The geometry of the given vertices and indices.
    pub fn init(vertices: Vec<T>, indices: Vec<u32>) -> (r: Self)
        ensures
            r.vertices() == vertices@,
            r.indices() == indices@,
    {
        Self { vertices, indices }
    }

    /// The vertices alone.
    pub fn into_simple(self) -> (r: SimpleGeometry<T>)
        ensures
            r@ == self.vertices(),
    {
        SimpleGeometry::init(self.vertices)
    }

    /// The vertices and indices, borrowed for an upload.
    pub fn build_data(&self) -> (r: IndexedBufferData<'_, T>)
        ensures
            r.data@ == self.vertices(),
            r.indices@ == self.indices(),
    {
        IndexedBufferData::create(self.vertices.as_slice(), self.indices.as_slice())
    }

    /// The vertices.
    pub fn vertex_data(&self) -> (r: &Vec<T>)
        ensures
            r@ == self.vertices(),
    {
        &self.vertices
    }

    /// The indices.
    pub fn index_data(&self) -> (r: &Vec<u32>)
        ensures
            r@ == self.indices(),
    {
        &self.indices
    }
}

impl<T: Translate + Rotate + Scale> IndexedGeometry<T> {
    /// Applies `mutation` to every vertex; the indices stay.
    pub fn mutate(&mut self, mutation: Mutation)
        ensures
            final(self).vertices() == mutation.apply_all(old(self).vertices()),
            final(self).indices() == old(self).indices(),
    {
        mutation.apply_to_all(&mut self.vertices);
    }

    /// Moves every vertex by `translation`.
    pub fn translate(&mut self, translation: glam::Vec3)
        ensures
            final(self).vertices() == Mutation::Translate(translation).apply_all(
                old(self).vertices(),
            ),
            final(self).indices() == old(self).indices(),
    {
        self.mutate(Mutation::Translate(translation));
    }

    /// Rotates every vertex by `rotation` about `center`.
    pub fn rotate(&mut self, rotation: glam::Quat, center: glam::Vec3)
        ensures
            final(self).vertices() == Mutation::Rotate(rotation, center).apply_all(
                old(self).vertices(),
            ),
            final(self).indices() == old(self).indices(),
    {
        self.mutate(Mutation::Rotate(rotation, center));
    }

    /// Scales every vertex by `scale` about `center`.
    pub fn scale(&mut self, scale: glam::Vec3, center: glam::Vec3)
        ensures
            final(self).vertices() == Mutation::Scale(scale, center).apply_all(
                old(self).vertices(),
            ),
            final(self).indices() == old(self).indices(),
    {
        self.mutate(Mutation::Scale(scale, center));
    }
}

impl<T: Clone> Expandable for IndexedGeometry<T> {
    /// Every index of `other`, moved up by the number of vertices of `self`,
    /// must still be a `u32`.
    open spec fn can_expand(&self, other: &Self) -> bool {
        rebase_fits(other.indices(), self.vertices().len())
    }

    /// The vertices of `other` follow those of `self`, and the indices of
    /// `other` follow those of `self`, each moved up by the number of vertices
    /// that `self` had.
    open spec fn expanded(&self, other: &Self, after: &Self) -> bool {
        &&& extended_by(after.vertices(), self.vertices(), other.vertices())
        &&& after.indices() == self.indices() + rebased(other.indices(), self.vertices().len())
    }

    fn expand(&mut self, other: &Self) {
        let base = self.vertices.len();
        self.vertices.extend_from_slice(other.vertices.as_slice());
        let ghost grown = self.vertices@;
        assert(extended_by(grown, old(self).vertices@, other.vertices@));
        let n = other.indices.len();
        let mut i: usize = 0;
        while i < n
            invariant
                i <= n,
                self.vertices@ == grown,
                n == other.indices@.len(),
                base == old(self).vertices@.len(),
                rebase_fits(other.indices@, base as nat),
                self.indices@ == old(self).indices@ + rebased(other.indices@, base as nat).subrange(
                    0,
                    i as int,
                ),
            decreases n - i,
        {
            let index = other.indices[i];
            assert(other.indices@[i as int] + base <= u32::MAX);
            let moved: u32 = index + (base as u32);
            self.indices.push(moved);
            assert(self.indices@ =~= old(self).indices@ + rebased(
                other.indices@,
                base as nat,
            ).subrange(0, i as int + 1));
            i += 1;
        }
        assert(rebased(other.indices@, base as nat).subrange(0, n as int) =~= rebased(
            other.indices@,
            base as nat,
        ));
    }
}

impl<T: Clone> Geometry for IndexedGeometry<T> {
    open spec fn spec_data_len(&self) -> nat {
        self.vertices().len()
    }

    fn data_len(&self) -> (r: usize) {
        self.vertices.len()
    }
}

} // verus!
