//! The shape arena: every shape and group is owned here under a stable
//! integer id, so that a group can name its children and a child its parent
//! without an ownership cycle.  An id can be reserved before its shape exists,
//! which lets a group know its own id while its children are being stamped.

use vstd::prelude::*;

verus! {

use crate::shapes::Shape;

pub struct Arena {
    pub objects: Vec<Option<Shape>>,
}

impl Arena {
    /// An id that was allocated and filled.
    pub open spec fn valid(self, id: int) -> bool {
        0 <= id < self.objects@.len() && self.objects@[id] is Some
    }

    pub open spec fn shape(self, id: int) -> Shape
        recommends
            self.valid(id),
    {
        self.objects@[id]->0
    }

    pub open spec fn spec_len(self) -> nat {
        self.objects@.len()
    }

    pub fn new() -> (a: Arena)
        ensures
            a.objects@.len() == 0,
    {
        Arena { objects: Vec::new() }
    }

    pub fn len(&self) -> (n: usize)
        ensures
            n == self.spec_len(),
    {
        self.objects.len()
    }

    /// Stores a shape under the next free id and returns that id.
    pub fn add(&mut self, object: Shape) -> (id: usize)
        ensures
            id as int == old(self).objects@.len(),
            final(self).objects@ == old(self).objects@.push(Some(object)),
            final(self).valid(id as int),
            final(self).shape(id as int) == object,
    {
        let id = self.objects.len();
        self.objects.push(Some(object));
        id
    }

    /// Reserves an id for a shape that is built afterwards (a group must know
    /// its own id before its children can be stamped with it).
    pub fn next_id(&mut self) -> (id: usize)
        ensures
            id as int == old(self).objects@.len(),
            final(self).objects@ == old(self).objects@.push(None),
    {
        let id = self.objects.len();
        self.objects.push(None);
        id
    }

    /// Fills a reserved id; the slot must exist and still be empty.
    pub fn add_with_id(&mut self, id: usize, object: Shape)
        requires
            id < old(self).objects@.len(),
            old(self).objects@[id as int] is None,
        ensures
            final(self).objects@ == old(self).objects@.update(id as int, Some(object)),
            final(self).valid(id as int),
            final(self).shape(id as int) == object,
    {
        self.objects[id] = Some(object);
    }

    pub fn is_valid(&self, id: usize) -> (r: bool)
        ensures
            r == self.valid(id as int),
    {
        id < self.objects.len() && self.objects[id].is_some()
    }

    pub fn get(&self, id: usize) -> (s: &Shape)
        requires
            self.valid(id as int),
        ensures
            *s == self.shape(id as int),
    {
        match &self.objects[id] {
            Option::Some(s) => s,
            Option::None => unreached(),
        }
    }

    /// Replaces the shape stored under a valid id.
    pub fn replace(&mut self, id: usize, object: Shape)
        requires
            old(self).valid(id as int),
        ensures
            final(self).objects@ == old(self).objects@.update(id as int, Some(object)),
            final(self).valid(id as int),
            final(self).shape(id as int) == object,
    {
        self.objects[id] = Some(object);
    }

    /// Re-points the parent link of the shape stored under a valid id.
    pub fn set_parent_of(&mut self, id: usize, parent_id: Option<usize>)
        requires
            old(self).valid(id as int),
        ensures
            final(self).objects@ == old(self).objects@.update(
                id as int,
                Some(old(self).shape(id as int).with_parent(parent_id)),
            ),
            final(self).objects@.len() == old(self).objects@.len(),
            final(self).valid(id as int),
            final(self).shape(id as int) == old(self).shape(id as int).with_parent(parent_id),
            forall|j: int|
                0 <= j < old(self).objects@.len() && j != id ==> final(self).objects@[j] == old(
                    self,
                ).objects@[j],
    {
        match &mut self.objects[id] {
            Option::Some(s) => s.set_parent_id(parent_id),
            Option::None => unreached(),
        }
        proof {
            assert(self.objects@ =~= old(self).objects@.update(
                id as int,
                Some(old(self).shape(id as int).with_parent(parent_id)),
            ));
        }
    }
}

} // verus!
