//! Deferred mutations of a region of the buffer.

use vstd::prelude::*;
use crate::transform::{Rotate, Scale, Translate};

verus! {

/// What a deferred mutation does to each element of its region.
#[derive(Debug, Clone, Copy, PartialEq)]
pub enum Mutation {
    /// Move by a vector.
    Translate(glam::Vec3),
    /// Rotate by a quaternion about a centre.
    Rotate(glam::Quat, glam::Vec3),
    /// Scale by a vector about a centre.
    Scale(glam::Vec3, glam::Vec3),
}

impl Mutation {
    /// The element `x` after this mutation.
    pub open spec fn apply<T: Translate + Rotate + Scale>(self, x: T) -> T {
        match self {
            Mutation::Translate(v) => x.translated(v),
            Mutation::Rotate(q, c) => x.rotated(q, c),
            Mutation::Scale(s, c) => x.scaled(s, c),
        }
    }

    /// The elements `data`, each after this mutation.
    pub open spec fn apply_all<T: Translate + Rotate + Scale>(self, data: Seq<T>) -> Seq<T> {
        Seq::new(data.len(), |i: int| self.apply(data[i]))
    }

    /// Applies this mutation to one element in place.
    pub fn apply_to<T: Translate + Rotate + Scale>(&self, x: &mut T)
        ensures
            *final(x) == self.apply(*old(x)),
    {
        match *self {
            Mutation::Translate(v) => x.translate(v),
            Mutation::Rotate(q, c) => x.rotate(q, c),
            Mutation::Scale(s, c) => x.scale(s, c),
        }
    }

    /// Applies this mutation to every element of `data` in place.
    pub fn apply_to_all<T: Translate + Rotate + Scale>(&self, data: &mut Vec<T>)
        ensures
            final(data)@ == self.apply_all(old(data)@),
    {
        let n = data.len();
        let mut i: usize = 0;
        while i < n
            invariant
                i <= n,
                data@.len() == n,
                old(data)@.len() == n,
                forall|j: int| 0 <= j < i ==> data@[j] == self.apply(old(data)@[j]),
                forall|j: int| i <= j < n ==> data@[j] == old(data)@[j],
            decreases n - i,
        {
            self.apply_to(&mut data[i]);
            i += 1;
        }
        assert(data@ =~= self.apply_all(old(data)@));
    }
}

/// A deferred mutation of the `size` elements that start at `offset`.
///
/// A model writes `offset` relative to its handle; the handle makes it
/// absolute when it sends the action on.
#[derive(Debug, Clone, Copy, PartialEq)]
pub struct ModifyAction {
    pub offset: usize,
    pub size: usize,
    pub mod_action: Mutation,
}

impl ModifyAction {
    /// The mutation `mod_action` of the `size` elements that start at `offset`.
    pub fn new(offset: usize, size: usize, mod_action: Mutation) -> (r: ModifyAction)
        ensures
            r == (ModifyAction { offset, size, mod_action }),
    {
        ModifyAction { offset, size, mod_action }
    }

    /// The same mutation on the region moved right by `base`.
    pub open spec fn shifted(self, base: usize) -> ModifyAction
        recommends
            self.offset + base <= usize::MAX,
    {
        ModifyAction { offset: (self.offset + base) as usize, ..self }
    }

    /// Applies the mutation to every element of `data`, which holds the
    /// elements of the action's region.
    pub fn act<T: Translate + Rotate + Scale>(&self, data: &mut Vec<T>)
        ensures
            final(data)@ == self.mod_action.apply_all(old(data)@),
    {
        self.mod_action.apply_to_all(data);
    }
}

} // verus!
