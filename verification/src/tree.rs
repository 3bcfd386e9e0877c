//! The tree model: a root that owns a buffer region, and nodes below it that
//! stand for parts of that region.

use vstd::prelude::*;
use crate::action::{ModifyAction, Mutation};
use crate::allocator::{
    AllocHandle, BufferAlloc, BufferAllocationID, BufferDynamicAllocator, DynamicAllocHandle,
};
use crate::geometry::Expandable;
use crate::model::{
    refreshed, BufferLocation, Model, ModelState, Mutable, RotateModel, ScaleModel, TransformModel,
    TranslateModel,
};
use crate::queue::Channel;
use crate::transform::{center_or_zero, Rotate, Scale, Transform, Translate};

verus! {

/// A model with children. `C` is a payload that the tree carries along.
#[derive(Debug)]
pub enum TreeModel<T, C, H> {
    /// The top of a tree: it has the state and the summary transform.
    Root { state: ModelState<T, H>, transform: Transform, sub_models: Vec<TreeModel<T, C, H>>, ctx: C },
    /// A part of the region of the root above it. The location is relative
    /// to the start of the parent.
    Node { location: BufferLocation, sub_models: Vec<TreeModel<T, C, H>>, ctx: C },
}

/// A range of elements as contracts see it, counted from the start of the
/// root's region.
pub ghost struct Span {
    pub offset: nat,
    pub size: nat,
}

/// The spans of the trees `children` and of all below them, in the order in
/// which a walk from the top meets them, where `base` is the start of their
/// parent.
pub open spec fn spans_of<T, C, H>(children: Seq<TreeModel<T, C, H>>, base: nat) -> Seq<Span>
    decreases children, 0nat,
{
    if children.len() == 0 {
        Seq::empty()
    } else {
        spans_of(children.drop_last(), base) + children.last().spans(base)
    }
}

/// Whether every one of `children`, and all below them, is a node.
pub open spec fn all_nodes<T, C, H>(children: Seq<TreeModel<T, C, H>>) -> bool
    decreases children, 0nat,
{
    if children.len() == 0 {
        true
    } else {
        all_nodes(children.drop_last()) && children.last().is_node_tree()
    }
}

impl<T, C, H> TreeModel<T, C, H> {
    /// The children.
    pub open spec fn children(&self) -> Seq<TreeModel<T, C, H>> {
        match self {
            TreeModel::Root { sub_models, .. } => sub_models@,
            TreeModel::Node { sub_models, .. } => sub_models@,
        }
    }

    /// The spans of this tree's nodes in the order in which a walk from the
    /// top meets them, where `base` is the start of the parent. A root has
    /// no span of its own here.
    pub open spec fn spans(&self, base: nat) -> Seq<Span>
        decreases self, 1nat,
    {
        match self {
            TreeModel::Root { sub_models, .. } => spans_of(sub_models@, base),
            TreeModel::Node { location, sub_models, .. } => seq![
                Span { offset: base + location.offset as nat, size: location.size as nat },
            ] + spans_of(sub_models@, base + location.offset as nat),
        }
    }

    /// Whether this tree is a node with only nodes below it.
    pub open spec fn is_node_tree(&self) -> bool
        decreases self, 1nat,
    {
        match self {
            TreeModel::Root { .. } => false,
            TreeModel::Node { sub_models, .. } => all_nodes(sub_models@),
        }
    }

    /// The tree's invariant: roots stand only at the top.
    pub open spec fn wf(&self) -> bool {
        all_nodes(self.children())
    }
}

/// Whether every span of `spans` starts at `bound` or before.
pub open spec fn fits(spans: Seq<Span>, bound: int) -> bool {
    forall|i: int| 0 <= i < spans.len() ==> (#[trigger] spans[i]).offset <= bound
}

/// The spans as locations.
pub open spec fn located(spans: Seq<Span>) -> Seq<BufferLocation> {
    Seq::new(
        spans.len(),
        |i: int| BufferLocation { offset: spans[i].offset as usize, size: spans[i].size as usize },
    )
}

/// What an awake root sends for `mutation`: first the mutation of its whole
/// region, then that of the span of each node below it, in the order of
/// `spans`, each made absolute against the start of the region.
pub open spec fn sent(
    region_offset: usize,
    region_size: usize,
    spans: Seq<Span>,
    mutation: Mutation,
) -> Seq<ModifyAction> {
    seq![ModifyAction { offset: region_offset, size: region_size, mod_action: mutation }]
        + Seq::new(
        spans.len(),
        |i: int|
            ModifyAction {
                offset: (region_offset + spans[i].offset) as usize,
                size: spans[i].size as usize,
                mod_action: mutation,
            },
    )
}

/// The spans of the first `n + 1` children are those of the first `n`
/// followed by those of the child at `n`.
proof fn lemma_spans_step<T, C, H>(children: Seq<TreeModel<T, C, H>>, base: nat, n: int)
    requires
        0 <= n < children.len(),
    ensures
        spans_of(children.subrange(0, n + 1), base) == spans_of(children.subrange(0, n), base)
            + children[n].spans(base),
{
    assert(children.subrange(0, n + 1).drop_last() =~= children.subrange(0, n));
    assert(children.subrange(0, n + 1).last() == children[n]);
}

/// Adds the spans of `children`, and of all below them, to `out`.
#[verifier::rlimit(40)]
fn collect_children<T, C, H>(
    children: &Vec<TreeModel<T, C, H>>,
    base: usize,
    bound: usize,
    out: &mut Vec<BufferLocation>,
)
    requires
        base <= bound,
        fits(spans_of(children@, base as nat), bound as int),
    ensures
        final(out)@ == old(out)@ + located(spans_of(children@, base as nat)),
    decreases children@, 0nat,
{
    let n = children.len();
    let mut i: usize = 0;
    assert(children@.subrange(0, 0) =~= Seq::empty());
    assert(out@ =~= old(out)@ + located(spans_of(children@.subrange(0, 0), base as nat)));
    while i < n
        invariant
            i <= n,
            n == children@.len(),
            base <= bound,
            fits(spans_of(children@, base as nat), bound as int),
            out@ == old(out)@ + located(spans_of(children@.subrange(0, i as int), base as nat)),
        decreases n - i,
    {
        let ghost before = spans_of(children@.subrange(0, i as int), base as nat);
        let ghost own = children@[i as int].spans(base as nat);
        proof {
            lemma_spans_step(children@, base as nat, i as int);
            lemma_spans_prefix(children@, base as nat, i as int + 1);
            assert forall|j: int| 0 <= j < own.len() implies (#[trigger] own[j]).offset
                <= bound by {
                let whole = spans_of(children@, base as nat);
                assert((before + own)[before.len() + j] == own[j]);
                assert(whole[before.len() + j] == own[j]);
            }
        }
        children[i].collect_spans(base, bound, out);
        proof {
            assert(located(before + own) =~= located(before) + located(own));
            assert(out@ =~= old(out)@ + located(before + own));
        }
        i += 1;
    }
    assert(children@.subrange(0, n as int) =~= children@);
}

/// The spans of the first `n` children open the spans of all of them.
proof fn lemma_spans_prefix<T, C, H>(children: Seq<TreeModel<T, C, H>>, base: nat, n: int)
    requires
        0 <= n <= children.len(),
    ensures
        spans_of(children.subrange(0, n), base).len() <= spans_of(children, base).len(),
        forall|j: int|
            0 <= j < spans_of(children.subrange(0, n), base).len() ==> #[trigger] spans_of(
                children,
                base,
            )[j] == spans_of(children.subrange(0, n), base)[j],
    decreases children.len() - n,
{
    if n == children.len() {
        assert(children.subrange(0, n) =~= children);
    } else {
        lemma_spans_step(children, base, n);
        lemma_spans_prefix(children, base, n + 1);
        let shorter = spans_of(children.subrange(0, n), base);
        let longer = spans_of(children.subrange(0, n + 1), base);
        assert forall|j: int| 0 <= j < shorter.len() implies #[trigger] spans_of(children, base)[j]
            == shorter[j] by {
            assert(longer[j] == shorter[j]);
        }
    }
}

impl<T, C, H> TreeModel<T, C, H> {
    /// Adds the spans of this tree's nodes to `out`.
    fn collect_spans(&self, base: usize, bound: usize, out: &mut Vec<BufferLocation>)
        requires
            base <= bound,
            fits(self.spans(base as nat), bound as int),
        ensures
            final(out)@ == old(out)@ + located(self.spans(base as nat)),
        decreases self, 1nat,
    {
        match self {
            TreeModel::Root { sub_models, .. } => {
                collect_children(sub_models, base, bound, out);
            },
            TreeModel::Node { location, sub_models, .. } => {
                let ghost own = seq![
                    Span { offset: base as nat + location.offset as nat, size: location.size as nat },
                ];
                let ghost below = spans_of(sub_models@, base as nat + location.offset as nat);
                proof {
                    assert(self.spans(base as nat) == own + below);
                    assert((own + below)[0] == own[0]);
                    assert forall|j: int| 0 <= j < below.len() implies (#[trigger] below[j]).offset
                        <= bound by {
                        assert((own + below)[1 + j] == below[j]);
                    }
                }
                let start = base + location.offset;
                out.push(BufferLocation { offset: start, size: location.size });
                collect_children(sub_models, start, bound, out);
                proof {
                    assert(located(own + below) =~= located(own) + located(below));
                    assert(old(out)@.push(BufferLocation { offset: start, size: location.size })
                        =~= old(out)@ + located(own));
                    assert(out@ =~= old(out)@ + located(own + below));
                }
            },
        }
    }
}

impl<T, C, H> TreeModel<T, C, H> {
    /// A dormant root without children. The geometry comes as the state that
    /// holds it: `Dormant` or `DormantIndexed`.
    pub fn create_root(geometry: ModelState<T, H>, ctx: C) -> (r: Self)
        requires
            geometry.dormant(),
        ensures
            r matches TreeModel::Root { state, transform, sub_models, ctx: c } && c == ctx
                && sub_models@ == Seq::<TreeModel<T, C, H>>::empty() && transform
                == Transform::identity() && state == geometry,
            r.wf(),
    {
        Self::Root {
            state: geometry,
            transform: Transform::default(),
            sub_models: Vec::new(),
            ctx,
        }
    }

    /// A dormant root above the given nodes.
    pub fn create_root_with_models(
        geometry: ModelState<T, H>,
        sub_models: Vec<TreeModel<T, C, H>>,
        ctx: C,
    ) -> (r: Self)
        requires
            geometry.dormant(),
            all_nodes(sub_models@),
        ensures
            r == (TreeModel::Root {
                state: geometry,
                transform: Transform::identity(),
                sub_models,
                ctx,
            }),
            r.wf(),
    {
        Self::Root { state: geometry, transform: Transform::default(), sub_models, ctx }
    }

    /// A node without children.
    pub fn create_node(location: BufferLocation, ctx: C) -> (r: Self)
        ensures
            r matches TreeModel::Node { location: l, sub_models, ctx: c } && l == location && c
                == ctx && sub_models@ == Seq::<TreeModel<T, C, H>>::empty(),
            r.is_node_tree(),
    {
        Self::Node { location, sub_models: Vec::new(), ctx }
    }

    /// A node above the given nodes.
    pub fn create_node_with_models(
        location: BufferLocation,
        sub_models: Vec<TreeModel<T, C, H>>,
        ctx: C,
    ) -> (r: Self)
        requires
            all_nodes(sub_models@),
        ensures
            r == (TreeModel::Node { location, sub_models, ctx }),
            r.is_node_tree(),
    {
        Self::Node { location, sub_models, ctx }
    }

    /// The children.
    pub fn sub_handles(&self) -> (r: &Vec<TreeModel<T, C, H>>)
        ensures
            r@ == self.children(),
    {
        match self {
            Self::Root { sub_models, .. } => sub_models,
            Self::Node { sub_models, .. } => sub_models,
        }
    }

    /// The payload.
    pub fn ctx(&self) -> (r: &C)
        ensures
            *r == match *self {
                TreeModel::Root { ctx, .. } => ctx,
                TreeModel::Node { ctx, .. } => ctx,
            },
    {
        match self {
            Self::Root { ctx, .. } => ctx,
            Self::Node { ctx, .. } => ctx,
        }
    }

    /// Turns a dormant root into a node at `offset` that spans the root's
    /// vertices, and hands the root's state out beside it.
    pub fn into_node(self, offset: usize) -> (r: (TreeModel<T, C, H>, ModelState<T, H>))
        requires
            self is Root && self->Root_state.dormant(),
        ensures
            r.1 == self->Root_state,
            r.0 == (TreeModel::Node {
                location: BufferLocation {
                    offset,
                    size: self->Root_state.vertex_count() as usize,
                },
                sub_models: self->Root_sub_models,
                ctx: self->Root_ctx,
            }),
    {
        match self {
            Self::Root { state, sub_models, ctx, .. } => {
                let size = match &state {
                    ModelState::Dormant(g) => g.vertices().len(),
                    ModelState::DormantIndexed(g) => g.vertex_data().len(),
                    _ => 0,
                };
                (Self::Node { location: BufferLocation { offset, size }, sub_models, ctx }, state)
            },
            Self::Node { location, sub_models, ctx } => (
                Self::Node { location, sub_models, ctx },
                ModelState::Destroyed,
            ),
        }
    }
}

impl<T, C, H> Model<T, H> for TreeModel<T, C, H> {
    /// Only a root has a state.
    open spec fn stateful(&self) -> bool {
        self is Root
    }

    open spec fn spec_state(&self) -> ModelState<T, H> {
        self->Root_state
    }

    open spec fn spec_transform(&self) -> Transform {
        self->Root_transform
    }

    open spec fn with_state(&self, state: ModelState<T, H>, after: &Self) -> bool {
        *after == (TreeModel::Root {
            state,
            transform: self->Root_transform,
            sub_models: self->Root_sub_models,
            ctx: self->Root_ctx,
        })
    }

    fn wake(&mut self, handle: H) {
        match self {
            Self::Root { state, .. } => {
                *state = ModelState::Awake(handle);
            },
            Self::Node { .. } => {},
        }
    }

    fn is_destroyed(&self) -> (r: bool) {
        match self {
            Self::Root { state, .. } => state.is_destroyed(),
            Self::Node { .. } => false,
        }
    }

    fn transform(&self) -> (r: Transform) {
        match self {
            Self::Root { transform, .. } => *transform,
            Self::Node { .. } => Transform::default(),
        }
    }

    fn state(&self) -> (r: &ModelState<T, H>) {
        match self {
            Self::Root { state, .. } => state,
            Self::Node { .. } => unreached(),
        }
    }
}

impl<T, C> TreeModel<T, C, DynamicAllocHandle> {
    /// Brings the handle of an awake root up to date with `allocator`, as
    /// `sync` does. Any other tree stays as it is.
    pub fn refresh(&mut self, allocator: &BufferDynamicAllocator)
        requires
            allocator.wf(),
        ensures
            match *old(self) {
                TreeModel::Root { state, transform, sub_models, ctx } => *final(self) is Root && (
                *final(self))->Root_transform == transform && (*final(self))->Root_sub_models
                    == sub_models && (*final(self))->Root_ctx == ctx && refreshed(
                    allocator,
                    state,
                    (*final(self))->Root_state,
                ),
                TreeModel::Node { .. } => *final(self) == *old(self),
            },
    {
        match self {
            Self::Root { state, .. } => {
                match state {
                    ModelState::Awake(handle) => {
                        allocator.sync(handle);
                    },
                    _ => {},
                }
            },
            Self::Node { .. } => {},
        }
    }

    /// Gives the region up: the handle asks the allocator to free it, and the
    /// root is destroyed. Only an awake root can be destroyed.
    pub fn destroy(&mut self, requests: &mut Channel<BufferAllocationID>)
        requires
            *old(self) is Root && (*old(self))->Root_state is Awake,
            old(requests).is_open(),
        ensures
            old(self).with_state(ModelState::Destroyed, final(self)),
            final(requests).is_open(),
            final(requests).pending().len() == old(requests).pending().len() + 1,
            final(requests).pending().drop_last() == old(requests).pending(),
            final(requests).pending().last()@ == (*old(self))->Root_state->Awake_0.spec_id(),
    {
        match self {
            Self::Root { state, .. } => {
                match state {
                    ModelState::Awake(handle) => {
                        handle.destroy(requests);
                    },
                    _ => {},
                }
                *state = ModelState::Destroyed;
            },
            Self::Node { .. } => {},
        }
    }
}

/// Sends the mutation of each location of `spans` through `handle`, in
/// order.
fn send_spans<H: AllocHandle>(
    handle: &H,
    spans: &Vec<BufferLocation>,
    mutation: Mutation,
    queue: &mut Channel<ModifyAction>,
)
    requires
        old(queue).is_open(),
        forall|i: int|
            0 <= i < spans@.len() ==> (#[trigger] spans@[i]).offset + handle.spec_offset()
                <= usize::MAX,
    ensures
        final(queue).is_open(),
        final(queue).pending() == old(queue).pending() + Seq::new(
            spans@.len(),
            |i: int|
                ModifyAction {
                    offset: (handle.spec_offset() + spans@[i].offset) as usize,
                    size: spans@[i].size,
                    mod_action: mutation,
                },
        ),
{
    let ghost all = Seq::new(
        spans@.len(),
        |i: int|
            ModifyAction {
                offset: (handle.spec_offset() + spans@[i].offset) as usize,
                size: spans@[i].size,
                mod_action: mutation,
            },
    );
    let n = spans.len();
    let mut i: usize = 0;
    assert(queue.pending() =~= old(queue).pending() + all.subrange(0, 0));
    while i < n
        invariant
            i <= n,
            n == spans@.len(),
            queue.is_open(),
            all.len() == n,
            forall|j: int|
                0 <= j < n ==> #[trigger] all[j] == (ModifyAction {
                    offset: (handle.spec_offset() + spans@[j].offset) as usize,
                    size: spans@[j].size,
                    mod_action: mutation,
                }),
            forall|j: int|
                0 <= j < spans@.len() ==> (#[trigger] spans@[j]).offset + handle.spec_offset()
                    <= usize::MAX,
            queue.pending() == old(queue).pending() + all.subrange(0, i as int),
        decreases n - i,
    {
        let ghost before = queue.pending();
        let action = ModifyAction::new(spans[i].offset, spans[i].size, mutation);
        let sent = handle.send_action(action, queue);
        proof {
            assert(action.shifted(handle.spec_offset()) == all[i as int]);
            assert(before.push(all[i as int]) =~= old(queue).pending() + all.subrange(
                0,
                i as int + 1,
            ));
        }
        i += 1;
    }
    assert(all.subrange(0, n as int) =~= all);
}

impl<T: Translate + Rotate + Scale, C, H: AllocHandle> TreeModel<T, C, H> {
    /// Applies `mutation` to a root: a dormant root mutates its vertices, an
    /// awake one sends the mutation of its whole region and then that of the
    /// span of each node below it. Either way the summary takes the mutation
    /// in at once. A node by itself has nothing to mutate.
    #[verifier::rlimit(40)]
    pub fn apply(&mut self, mutation: Mutation, queue: &mut Channel<ModifyAction>)
        requires
            old(self).accepts(old(queue)),
        ensures
            old(self).transformed(mutation, old(queue), final(self), final(queue)),
    {
        match self {
            TreeModel::Root { state, transform, sub_models, .. } => {
                mutation.apply_to(transform);
                match state {
                    ModelState::Awake(handle) => {
                        let bound = usize::MAX - handle.offset();
                        let mut spans: Vec<BufferLocation> = Vec::new();
                        collect_children(sub_models, 0, bound, &mut spans);
                        let ghost below = spans_of(sub_models@, 0);
                        proof {
                            assert(spans@ =~= located(below));
                        }
                        let whole = ModifyAction::new(0, handle.size(), mutation);
                        let first = handle.send_action(whole, queue);
                        send_spans(handle, &spans, mutation, queue);
                        proof {
                            assert(queue.pending() =~= old(queue).pending() + sent(
                                handle.spec_offset(),
                                handle.spec_size(),
                                below,
                                mutation,
                            ));
                        }
                    },
                    ModelState::Dormant(geometry) => {
                        geometry.mutate(mutation);
                    },
                    ModelState::DormantIndexed(geometry) => {
                        geometry.mutate(mutation);
                    },
                    ModelState::Destroyed => {},
                }
            },
            TreeModel::Node { .. } => {},
        }
    }
}

impl<T: Translate + Rotate + Scale, C, H: AllocHandle> Mutable for TreeModel<T, C, H> {
    /// A destroyed root takes no transform. An awake root needs an open
    /// queue, and every span below it must start at a position that is still
    /// a `usize` once the start of the region is added.
    open spec fn accepts(&self, queue: &Channel<ModifyAction>) -> bool {
        match *self {
            TreeModel::Root { state, sub_models, .. } => match state {
                ModelState::Destroyed => false,
                ModelState::Awake(h) => queue.is_open() && fits(
                    spans_of(sub_models@, 0),
                    usize::MAX - h.spec_offset(),
                ),
                _ => true,
            },
            TreeModel::Node { .. } => true,
        }
    }

    open spec fn transformed(
        &self,
        mutation: Mutation,
        queue: &Channel<ModifyAction>,
        after: &Self,
        queue_after: &Channel<ModifyAction>,
    ) -> bool {
        match *self {
            TreeModel::Root { state, transform, sub_models, ctx } => {
                &&& after matches TreeModel::Root {
                    state: state2,
                    transform: transform2,
                    sub_models: sub_models2,
                    ctx: ctx2,
                } && transform2 == mutation.apply(transform) && state.mutated(mutation, &state2)
                    && sub_models2 == sub_models && ctx2 == ctx
                &&& queue_after.is_open() == queue.is_open()
                &&& queue_after.pending() == match state {
                    ModelState::Awake(h) => queue.pending() + sent(
                        h.spec_offset(),
                        h.spec_size(),
                        spans_of(sub_models@, 0),
                        mutation,
                    ),
                    _ => queue.pending(),
                }
            },
            TreeModel::Node { .. } => *after == *self && *queue_after == *queue,
        }
    }
}

impl<T: Translate + Rotate + Scale, C, H: AllocHandle> TranslateModel for TreeModel<T, C, H> {
    fn translate(&mut self, translation: glam::Vec3, queue: &mut Channel<ModifyAction>) {
        self.apply(Mutation::Translate(translation), queue);
    }
}

impl<T: Translate + Rotate + Scale, C, H: AllocHandle> RotateModel for TreeModel<T, C, H> {
    fn rotate(
        &mut self,
        rotation: glam::Quat,
        center: Option<glam::Vec3>,
        queue: &mut Channel<ModifyAction>,
    ) {
        self.apply(Mutation::Rotate(rotation, center_or_zero(center)), queue);
    }
}

impl<T: Translate + Rotate + Scale, C, H: AllocHandle> ScaleModel for TreeModel<T, C, H> {
    fn scale(
        &mut self,
        scale: glam::Vec3,
        center: Option<glam::Vec3>,
        queue: &mut Channel<ModifyAction>,
    ) {
        self.apply(Mutation::Scale(scale, center_or_zero(center)), queue);
    }
}

impl<T: Translate + Rotate + Scale, C, H: AllocHandle> TransformModel for TreeModel<T, C, H> {

}

/// A list of nodes stays one when a node is added.
proof fn lemma_all_nodes_push<T, C, H>(children: Seq<TreeModel<T, C, H>>, node: TreeModel<T, C, H>)
    requires
        all_nodes(children),
        node.is_node_tree(),
    ensures
        all_nodes(children.push(node)),
{
    assert(children.push(node).drop_last() =~= children);
    assert(children.push(node).last() == node);
}

impl<T: Clone, C, H> TreeModel<T, C, H> {
    /// Whether `model` can be merged into this tree: two dormant roots of
    /// the same kind of geometry, or two nodes, and every number that the
    /// merge computes must fit its type.
    pub open spec fn can_take(&self, model: &Self) -> bool {
        &&& self.wf()
        &&& model.wf()
        &&& match (*self, *model) {
            (TreeModel::Root { state: a, .. }, TreeModel::Root { state: b, .. }) => match (a, b) {
                (ModelState::Dormant(g), ModelState::Dormant(g2)) => g.can_expand(&g2),
                (ModelState::DormantIndexed(g), ModelState::DormantIndexed(g2)) => g.can_expand(
                    &g2,
                ),
                _ => false,
            },
            (TreeModel::Node { location: a, .. }, TreeModel::Node { location: b, .. }) => a.size
                + b.size <= usize::MAX && b.offset + a.size <= usize::MAX,
            _ => false,
        }
    }

    /// Whether `after` is this tree with `model` merged in. Between roots,
    /// the geometry of `model` follows that of `self`, and `model` becomes the
    /// last child: a node that starts where the vertices of `self` ended and
    /// spans those of `model`. Between nodes, `model` becomes the last child,
    /// moved right by the size of `self`, and `self` grows by its size.
    pub open spec fn merged(&self, model: &Self, after: &Self) -> bool {
        match (*self, *model) {
            (
                TreeModel::Root { state: a, transform, sub_models, ctx },
                TreeModel::Root { state: b, sub_models: below, ctx: ctx2, .. },
            ) => {
                &&& after matches TreeModel::Root {
                    state: a2,
                    transform: transform2,
                    sub_models: sub_models2,
                    ctx: ctx3,
                } && transform2 == transform && ctx3 == ctx && sub_models2@ == sub_models@.push(
                    TreeModel::Node {
                        location: BufferLocation {
                            offset: a.vertex_count() as usize,
                            size: b.vertex_count() as usize,
                        },
                        sub_models: below,
                        ctx: ctx2,
                    },
                ) && match (a, b, a2) {
                    (
                        ModelState::Dormant(g),
                        ModelState::Dormant(g2),
                        ModelState::Dormant(g3),
                    ) => g.expanded(&g2, &g3),
                    (
                        ModelState::DormantIndexed(g),
                        ModelState::DormantIndexed(g2),
                        ModelState::DormantIndexed(g3),
                    ) => g.expanded(&g2, &g3),
                    _ => false,
                }
            },
            (
                TreeModel::Node { location: a, sub_models, ctx },
                TreeModel::Node { location: b, sub_models: below, ctx: ctx2 },
            ) => {
                after matches TreeModel::Node { location: a2, sub_models: sub_models2, ctx: ctx3 }
                    && a2 == (BufferLocation { offset: a.offset, size: (a.size + b.size) as usize })
                    && ctx3 == ctx && sub_models2@ == sub_models@.push(
                    TreeModel::Node {
                        location: BufferLocation {
                            offset: (b.offset + a.size) as usize,
                            size: b.size,
                        },
                        sub_models: below,
                        ctx: ctx2,
                    },
                )
            },
            _ => false,
        }
    }

    /// Merges `model` into this tree as its last child.
    #[verifier::rlimit(40)]
    pub fn expand(&mut self, model: TreeModel<T, C, H>)
        requires
            old(self).can_take(&model),
        ensures
            old(self).merged(&model, final(self)),
            final(self).wf(),
    {
        match self {
            TreeModel::Root { state, sub_models, .. } => {
                match model {
                    TreeModel::Root { state: other, sub_models: below, ctx, .. } => {
                        let offset = match &*state {
                            ModelState::Dormant(g) => g.vertices().len(),
                            ModelState::DormantIndexed(g) => g.vertex_data().len(),
                            _ => 0,
                        };
                        let size = match &other {
                            ModelState::Dormant(g) => g.vertices().len(),
                            ModelState::DormantIndexed(g) => g.vertex_data().len(),
                            _ => 0,
                        };
                        match state {
                            ModelState::Dormant(g) => {
                                match &other {
                                    ModelState::Dormant(g2) => {
                                        g.expand(g2);
                                    },
                                    _ => {},
                                }
                            },
                            ModelState::DormantIndexed(g) => {
                                match &other {
                                    ModelState::DormantIndexed(g2) => {
                                        g.expand(g2);
                                    },
                                    _ => {},
                                }
                            },
                            _ => {},
                        }
                        let node = TreeModel::Node {
                            location: BufferLocation { offset, size },
                            sub_models: below,
                            ctx,
                        };
                        proof {
                            lemma_all_nodes_push(sub_models@, node);
                        }
                        sub_models.push(node);
                    },
                    TreeModel::Node { .. } => {},
                }
            },
            TreeModel::Node { location, sub_models, .. } => {
                match model {
                    TreeModel::Node { location: incoming, sub_models: below, ctx } => {
                        let node = TreeModel::Node {
                            location: BufferLocation {
                                offset: incoming.offset + location.size,
                                size: incoming.size,
                            },
                            sub_models: below,
                            ctx,
                        };
                        proof {
                            lemma_all_nodes_push(sub_models@, node);
                        }
                        location.size = location.size + incoming.size;
                        sub_models.push(node);
                    },
                    TreeModel::Root { .. } => {},
                }
            },
        }
    }
}

} // verus!
