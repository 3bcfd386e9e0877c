//! Models: geometry with a life cycle. A model is dormant while it holds its
//! geometry itself, awake once the geometry lives in a buffer region that the
//! model reaches through a handle, and destroyed after it gave the region up.

use vstd::prelude::*;
use crate::action::{ModifyAction, Mutation};
use crate::allocator::{
    AllocHandle, BufferAlloc, BufferAllocationID, BufferDynamicAllocator, DynamicAllocHandle,
};
use crate::regions::{live, position};
use crate::geometry::{IndexedGeometry, SimpleGeometry};
use crate::queue::Channel;
use crate::transform::{center_or_origin, center_or_zero, Rotate, Scale, Transform, Translate};

verus! {

/// A range of elements relative to the start of a region.
#[derive(Debug, Clone, Copy, PartialEq, Eq)]
pub struct BufferLocation {
    pub offset: usize,
    pub size: usize,
}

/// Where a model is in its life.
#[derive(Debug)]
pub enum ModelState<T, H> {
    /// The model holds its vertices.
    Dormant(SimpleGeometry<T>),
    /// The model holds its vertices and indices.
    DormantIndexed(IndexedGeometry<T>),
    /// The geometry lives in the region of this handle.
    Awake(H),
    /// The region was given up. Nothing follows this state.
    Destroyed,
}

impl<T, H> ModelState<T, H> {
    /// Whether the geometry lives in a buffer region.
    pub fn is_alive(&self) -> (r: bool)
        ensures
            r == (self is Awake),
    {
        matches!(self, Self::Awake(_))
    }

    /// Whether the region was given up.
    pub fn is_destroyed(&self) -> (r: bool)
        ensures
            r == (self is Destroyed),
    {
        matches!(self, Self::Destroyed)
    }

    /// Whether the model still holds its geometry.
    pub open spec fn dormant(&self) -> bool {
        self is Dormant || self is DormantIndexed
    }

    /// The number of vertices that a dormant model holds; 0 for any other.
    pub open spec fn vertex_count(&self) -> nat {
        match self {
            ModelState::Dormant(g) => g@.len(),
            ModelState::DormantIndexed(g) => g.vertices().len(),
            _ => 0,
        }
    }

    /// Whether the model still holds its geometry.
    pub fn is_dormant(&self) -> (r: bool)
        ensures
            r == self.dormant(),
    {
        matches!(self, Self::Dormant(_) | Self::DormantIndexed(_))
    }
}

impl<T: Translate + Rotate + Scale, H> ModelState<T, H> {
    /// Whether `after` is this state once `mutation` reached the geometry
    /// that the model holds: every vertex of a dormant model is mutated, and
    /// an awake model keeps its handle.
    pub open spec fn mutated(&self, mutation: Mutation, after: &Self) -> bool {
        match *self {
            ModelState::Dormant(g) => after matches ModelState::Dormant(g2) && g2@
                == mutation.apply_all(g@),
            ModelState::DormantIndexed(g) => after matches ModelState::DormantIndexed(g2)
                && g2.vertices() == mutation.apply_all(g.vertices()) && g2.indices()
                == g.indices(),
            ModelState::Awake(h) => after matches ModelState::Awake(h2) && h2 == h,
            ModelState::Destroyed => after is Destroyed,
        }
    }
}

impl<T, H> vstd::std_specs::convert::FromSpecImpl<SimpleGeometry<T>> for ModelState<T, H> {
    open spec fn obeys_from_spec() -> bool {
        true
    }

    open spec fn from_spec(geometry: SimpleGeometry<T>) -> Self {
        ModelState::Dormant(geometry)
    }
}

impl<T, H> From<SimpleGeometry<T>> for ModelState<T, H> {
    fn from(geometry: SimpleGeometry<T>) -> (r: Self) {
        Self::Dormant(geometry)
    }
}

impl<T, H> vstd::std_specs::convert::FromSpecImpl<IndexedGeometry<T>> for ModelState<T, H> {
    open spec fn obeys_from_spec() -> bool {
        true
    }

    open spec fn from_spec(geometry: IndexedGeometry<T>) -> Self {
        ModelState::DormantIndexed(geometry)
    }
}

impl<T, H> From<IndexedGeometry<T>> for ModelState<T, H> {
    fn from(geometry: IndexedGeometry<T>) -> (r: Self) {
        Self::DormantIndexed(geometry)
    }
}

/// Whether `after` is the state `before` with the handle of an awake model
/// brought up to date with `allocator`: a handle not marked destroyed takes
/// the present place of its region, or is marked destroyed where the region
/// is no longer live.
pub open spec fn refreshed<T>(
    allocator: &BufferDynamicAllocator,
    before: ModelState<T, DynamicAllocHandle>,
    after: ModelState<T, DynamicAllocHandle>,
) -> bool {
    match before {
        ModelState::Awake(h) => {
            &&& after is Awake
            &&& after->Awake_0.spec_id() == h.spec_id()
            &&& h.destroyed() ==> after->Awake_0 == h
            &&& !h.destroyed() && live(allocator.regions(), h.spec_id()) ==> !after->Awake_0.destroyed()
                && after->Awake_0.region() == allocator.regions()[position(
                allocator.regions(),
                h.spec_id(),
            )]
            &&& !h.destroyed() && !live(allocator.regions(), h.spec_id())
                ==> after->Awake_0.destroyed() && after->Awake_0.region() == h.region()
        },
        _ => after == before,
    }
}

/// What every transform of a model has in common.
pub trait Mutable: Sized {
    /// Whether the model can take a transform now, sending on `queue` what it
    /// has to send.
    spec fn accepts(&self, queue: &Channel<ModifyAction>) -> bool;

    /// Whether `after` and `queue_after` are the model and the queue once
    /// `mutation` was applied to the model `self` with the queue `queue`.
    spec fn transformed(
        &self,
        mutation: Mutation,
        queue: &Channel<ModifyAction>,
        after: &Self,
        queue_after: &Channel<ModifyAction>,
    ) -> bool;
}

/// A model that can be moved.
pub trait TranslateModel: Mutable {
    /// Moves the model by `translation`.
    fn translate(&mut self, translation: glam::Vec3, queue: &mut Channel<ModifyAction>)
        requires
            old(self).accepts(old(queue)),
        ensures
            old(self).transformed(
                Mutation::Translate(translation),
                old(queue),
                final(self),
                final(queue),
            ),
    ;
}

/// A model that can be rotated about a centre, by default the origin.
pub trait RotateModel: Mutable {
    /// Rotates the model by `rotation` about `center`.
    fn rotate(
        &mut self,
        rotation: glam::Quat,
        center: Option<glam::Vec3>,
        queue: &mut Channel<ModifyAction>,
    )
        requires
            old(self).accepts(old(queue)),
        ensures
            old(self).transformed(
                Mutation::Rotate(rotation, center_or_origin(center)),
                old(queue),
                final(self),
                final(queue),
            ),
    ;
}

/// A model that can be scaled about a centre, by default the origin.
pub trait ScaleModel: Mutable {
    /// Scales the model by `scale` about `center`.
    fn scale(
        &mut self,
        scale: glam::Vec3,
        center: Option<glam::Vec3>,
        queue: &mut Channel<ModifyAction>,
    )
        requires
            old(self).accepts(old(queue)),
        ensures
            old(self).transformed(
                Mutation::Scale(scale, center_or_origin(center)),
                old(queue),
                final(self),
                final(queue),
            ),
    ;
}

/// A model that takes all three transforms.
pub trait TransformModel: TranslateModel + RotateModel + ScaleModel {

}

/// A model with a life cycle. Only the top of a tree has a state; `stateful`
/// says whether this value has one.
pub trait Model<T, H>: Sized {
    /// Whether this value has a state and a summary transform.
    spec fn stateful(&self) -> bool;

    /// Where the model is in its life.
    spec fn spec_state(&self) -> ModelState<T, H>;

    /// The summary of the transforms applied so far.
    spec fn spec_transform(&self) -> Transform;

    /// Whether `after` is this model with the state `state` and all else
    /// unchanged.
    spec fn with_state(&self, state: ModelState<T, H>, after: &Self) -> bool;

    /// Hands the model the handle of the region that now holds its geometry.
    /// Only a dormant model can be woken.
    fn wake(&mut self, handle: H)
        requires
            old(self).stateful(),
            old(self).spec_state().dormant(),
        ensures
            old(self).with_state(ModelState::Awake(handle), final(self)),
    ;

    /// Whether the model gave its region up.
    fn is_destroyed(&self) -> (r: bool)
        requires
            self.stateful(),
        ensures
            r == (self.spec_state() is Destroyed),
    ;

    /// The summary of the transforms applied so far. It takes every
    /// transform in at once, whether or not the buffer has seen it yet.
    fn transform(&self) -> (r: Transform)
        requires
            self.stateful(),
        ensures
            r == self.spec_transform(),
    ;

    /// Where the model is in its life.
    fn state(&self) -> (r: &ModelState<T, H>)
        requires
            self.stateful(),
        ensures
            *r == self.spec_state(),
    ;
}

/// A model without children: a state and the summary of its transforms.
#[derive(Debug)]
pub struct BaseModel<T, H> {
    state: ModelState<T, H>,
    transform: Transform,
}

impl<T, H> BaseModel<T, H> {
    /// A dormant model of the given vertices.
    pub fn simple(geometry: SimpleGeometry<T>) -> (r: Self)
        ensures
            r.spec_state() == ModelState::<T, H>::Dormant(geometry),
            r.spec_transform() == Transform::identity(),
    {
        Self { state: ModelState::Dormant(geometry), transform: Transform::default() }
    }

    /// A dormant model of the given vertices and indices.
    pub fn indexed(geometry: IndexedGeometry<T>) -> (r: Self)
        ensures
            r.spec_state() == ModelState::<T, H>::DormantIndexed(geometry),
            r.spec_transform() == Transform::identity(),
    {
        Self { state: ModelState::DormantIndexed(geometry), transform: Transform::default() }
    }
}

impl<T, H> Model<T, H> for BaseModel<T, H> {
    open spec fn stateful(&self) -> bool {
        true
    }

    closed spec fn spec_state(&self) -> ModelState<T, H> {
        self.state
    }

    closed spec fn spec_transform(&self) -> Transform {
        self.transform
    }

    open spec fn with_state(&self, state: ModelState<T, H>, after: &Self) -> bool {
        after.spec_state() == state && after.spec_transform() == self.spec_transform()
    }

    fn wake(&mut self, handle: H) {
        self.state = ModelState::Awake(handle);
    }

    fn is_destroyed(&self) -> (r: bool) {
        self.state.is_destroyed()
    }

    fn transform(&self) -> (r: Transform) {
        self.transform
    }

    fn state(&self) -> (r: &ModelState<T, H>) {
        &self.state
    }
}

impl<T> BaseModel<T, DynamicAllocHandle> {
    /// Brings the handle of an awake model up to date with `allocator`, as
    /// `sync` does. Any other model stays as it is.
    pub fn refresh(&mut self, allocator: &BufferDynamicAllocator)
        requires
            allocator.wf(),
        ensures
            final(self).spec_transform() == old(self).spec_transform(),
            refreshed(allocator, old(self).spec_state(), final(self).spec_state()),
    {
        match &mut self.state {
            ModelState::Awake(handle) => {
                allocator.sync(handle);
            },
            _ => {},
        }
    }

    /// Gives the region up: the handle asks the allocator to free it, and the
    /// model is destroyed. Only an awake model can be destroyed.
    pub fn destroy(&mut self, requests: &mut Channel<BufferAllocationID>)
        requires
            old(self).spec_state() is Awake,
            old(requests).is_open(),
        ensures
            old(self).with_state(ModelState::Destroyed, final(self)),
            final(requests).is_open(),
            final(requests).pending().len() == old(requests).pending().len() + 1,
            final(requests).pending().drop_last() == old(requests).pending(),
            final(requests).pending().last()@ == old(self).spec_state()->Awake_0.spec_id(),
    {
        match &mut self.state {
            ModelState::Awake(handle) => {
                handle.destroy(requests);
            },
            _ => {},
        }
        self.state = ModelState::Destroyed;
    }
}

impl<T: Translate + Rotate + Scale, H: AllocHandle> BaseModel<T, H> {
    /// Applies `mutation`: a dormant model mutates its vertices, an awake
    /// one sends the mutation of its whole region through its handle. Either
    /// way the summary takes the mutation in at once.
    pub fn apply(&mut self, mutation: Mutation, queue: &mut Channel<ModifyAction>)
        requires
            old(self).accepts(old(queue)),
        ensures
            old(self).transformed(mutation, old(queue), final(self), final(queue)),
    {
        mutation.apply_to(&mut self.transform);
        match &mut self.state {
            ModelState::Awake(handle) => {
                let action = ModifyAction::new(0, handle.size(), mutation);
                let sent = handle.send_action(action, queue);
            },
            ModelState::Dormant(geometry) => {
                geometry.mutate(mutation);
            },
            ModelState::DormantIndexed(geometry) => {
                geometry.mutate(mutation);
            },
            ModelState::Destroyed => {},
        }
    }
}

impl<T: Translate + Rotate + Scale, H: AllocHandle> Mutable for BaseModel<T, H> {
    /// A destroyed model takes no transform, and an awake one needs an open
    /// queue.
    open spec fn accepts(&self, queue: &Channel<ModifyAction>) -> bool {
        &&& !(self.spec_state() is Destroyed)
        &&& self.spec_state() is Awake ==> queue.is_open()
    }

    open spec fn transformed(
        &self,
        mutation: Mutation,
        queue: &Channel<ModifyAction>,
        after: &Self,
        queue_after: &Channel<ModifyAction>,
    ) -> bool {
        &&& after.spec_transform() == mutation.apply(self.spec_transform())
        &&& self.spec_state().mutated(mutation, &after.spec_state())
        &&& queue_after.is_open() == queue.is_open()
        &&& queue_after.pending() == match self.spec_state() {
            ModelState::Awake(h) => queue.pending().push(
                ModifyAction { offset: h.spec_offset(), size: h.spec_size(), mod_action: mutation },
            ),
            _ => queue.pending(),
        }
    }
}

impl<T: Translate + Rotate + Scale, H: AllocHandle> TranslateModel for BaseModel<T, H> {
    fn translate(&mut self, translation: glam::Vec3, queue: &mut Channel<ModifyAction>) {
        self.apply(Mutation::Translate(translation), queue);
    }
}

impl<T: Translate + Rotate + Scale, H: AllocHandle> RotateModel for BaseModel<T, H> {
    fn rotate(
        &mut self,
        rotation: glam::Quat,
        center: Option<glam::Vec3>,
        queue: &mut Channel<ModifyAction>,
    ) {
        self.apply(Mutation::Rotate(rotation, center_or_zero(center)), queue);
    }
}

impl<T: Translate + Rotate + Scale, H: AllocHandle> ScaleModel for BaseModel<T, H> {
    fn scale(
        &mut self,
        scale: glam::Vec3,
        center: Option<glam::Vec3>,
        queue: &mut Channel<ModifyAction>,
    ) {
        self.apply(Mutation::Scale(scale, center_or_zero(center)), queue);
    }
}

impl<T: Translate + Rotate + Scale, H: AllocHandle> TransformModel for BaseModel<T, H> {

}

} // verus!
