//! Groups: tree nodes owning child shape ids, with an aggregate bounding box,
//! a bounds-gated intersection pass that skips every child on a miss, and the
//! spatial partition used to push clustered children into sub-groups.

use vstd::prelude::*;

verus! {

use crate::arena::Arena;
use crate::bounds::{BoundingBox, spec_contains_box, spec_split};
use crate::intersection::Intersection;
use crate::matrix::{Matrix, spec_inverse4, is_identity, lemma_identity_inverse};
use crate::ray::Ray;
use crate::shapes::{
    Shape,
    wf_arena,
    spec_group_intersect,
    spec_children_intersect,
    spec_group_bounds,
    spec_children_bounds,
    spec_parent_space_bounds,
};

#[derive(Clone)]
pub struct Group {
    pub id: usize,
    pub transform: Matrix,
    pub inverse: Matrix,
    pub parent_id: Option<usize>,
    pub children_ids: Vec<usize>,
}

/// Every child id points at a filled arena slot.
pub open spec fn group_links_ok(a: Arena, g: Group) -> bool {
    forall|k: int| 0 <= k < g.children_ids@.len() ==> a.valid(#[trigger] g.children_ids@[k] as int)
}

/// Whether a child's bounds, in this group's space, sit inside a half box.
#[verifier::opaque]
pub open spec fn in_box(a: Arena, b: BoundingBox, id: usize) -> bool {
    spec_contains_box(b, spec_parent_space_bounds(a, a.shape(id as int), a.spec_len()))
}

/// The children fully contained in the left half.
pub open spec fn spec_filter_left(a: Arena, cs: Seq<usize>, lb: BoundingBox) -> Seq<usize>
    decreases cs.len(),
{
    if cs.len() == 0 {
        Seq::empty()
    } else if in_box(a, lb, cs.last()) {
        spec_filter_left(a, cs.drop_last(), lb).push(cs.last())
    } else {
        spec_filter_left(a, cs.drop_last(), lb)
    }
}

/// The children fully contained in the right half only.
pub open spec fn spec_filter_right(
    a: Arena,
    cs: Seq<usize>,
    lb: BoundingBox,
    rb: BoundingBox,
) -> Seq<usize>
    decreases cs.len(),
{
    if cs.len() == 0 {
        Seq::empty()
    } else if !in_box(a, lb, cs.last()) && in_box(a, rb, cs.last()) {
        spec_filter_right(a, cs.drop_last(), lb, rb).push(cs.last())
    } else {
        spec_filter_right(a, cs.drop_last(), lb, rb)
    }
}

/// The children straddling the seam, which stay at this level.
pub open spec fn spec_filter_stay(
    a: Arena,
    cs: Seq<usize>,
    lb: BoundingBox,
    rb: BoundingBox,
) -> Seq<usize>
    decreases cs.len(),
{
    if cs.len() == 0 {
        Seq::empty()
    } else if !in_box(a, lb, cs.last()) && !in_box(a, rb, cs.last()) {
        spec_filter_stay(a, cs.drop_last(), lb, rb).push(cs.last())
    } else {
        spec_filter_stay(a, cs.drop_last(), lb, rb)
    }
}

proof fn lemma_contains_drop_last(cs: Seq<usize>)
    requires
        cs.len() > 0,
    ensures
        forall|x: usize| cs.contains(x) <==> cs.drop_last().contains(x) || x == cs.last(),
{
    let front = cs.drop_last();
    assert forall|x: usize| cs.contains(x) <==> front.contains(x) || x == cs.last() by {
        if cs.contains(x) {
            let i = choose|i: int| 0 <= i < cs.len() && cs[i] == x;
            if i < cs.len() - 1 {
                assert(front[i] == x);
            }
        }
        if front.contains(x) {
            let i = choose|i: int| 0 <= i < front.len() && front[i] == x;
            assert(cs[i] == x);
        }
        if x == cs.last() {
            assert(cs[cs.len() - 1] == x);
        }
    }
}

/// The left filter keeps exactly the members on the left, without repeats.
pub proof fn lemma_filter_left(a: Arena, cs: Seq<usize>, lb: BoundingBox)
    ensures
        forall|x: usize|
            #[trigger] spec_filter_left(a, cs, lb).contains(x) <==> cs.contains(x) && in_box(
                a,
                lb,
                x,
            ),
        cs.no_duplicates() ==> spec_filter_left(a, cs, lb).no_duplicates(),
    decreases cs.len(),
{
    if cs.len() > 0 {
        let front = cs.drop_last();
        lemma_filter_left(a, front, lb);
        lemma_contains_drop_last(cs);
        let f = spec_filter_left(a, cs, lb);
        let ff = spec_filter_left(a, front, lb);
        if in_box(a, lb, cs.last()) {
            assert forall|x: usize| #[trigger] f.contains(x) <==> ff.contains(x) || x
                == cs.last() by {
                if f.contains(x) {
                    let i = choose|i: int| 0 <= i < f.len() && f[i] == x;
                    if i < f.len() - 1 {
                        assert(ff[i] == x);
                    }
                }
                if ff.contains(x) {
                    let i = choose|i: int| 0 <= i < ff.len() && ff[i] == x;
                    assert(f[i] == x);
                }
                if x == cs.last() {
                    assert(f[f.len() - 1] == x);
                }
            }
            if cs.no_duplicates() {
                assert(front.no_duplicates());
                assert(!front.contains(cs.last()));
                assert(!ff.contains(cs.last()));
                assert(f.no_duplicates()) by {
                    assert forall|i: int, j: int|
                        0 <= i < f.len() && 0 <= j < f.len() && i != j implies f[i] != f[j] by {
                        if i < f.len() - 1 && j < f.len() - 1 {
                            assert(f[i] == ff[i] && f[j] == ff[j]);
                        } else if i < f.len() - 1 {
                            assert(ff.contains(ff[i]) && f[j] == cs.last());
                        } else if j < f.len() - 1 {
                            assert(ff.contains(ff[j]) && f[i] == cs.last());
                        }
                    }
                }
            }
        } else {
            if cs.no_duplicates() {
                assert(front.no_duplicates());
            }
        }
    }
}

/// The right filter keeps exactly the members on the right only.
pub proof fn lemma_filter_right(a: Arena, cs: Seq<usize>, lb: BoundingBox, rb: BoundingBox)
    ensures
        forall|x: usize|
            #[trigger] spec_filter_right(a, cs, lb, rb).contains(x) <==> cs.contains(x) && !in_box(
                a,
                lb,
                x,
            ) && in_box(a, rb, x),
        cs.no_duplicates() ==> spec_filter_right(a, cs, lb, rb).no_duplicates(),
    decreases cs.len(),
{
    if cs.len() > 0 {
        let front = cs.drop_last();
        lemma_filter_right(a, front, lb, rb);
        lemma_contains_drop_last(cs);
        let f = spec_filter_right(a, cs, lb, rb);
        let ff = spec_filter_right(a, front, lb, rb);
        if !in_box(a, lb, cs.last()) && in_box(a, rb, cs.last()) {
            assert forall|x: usize| #[trigger] f.contains(x) <==> ff.contains(x) || x
                == cs.last() by {
                if f.contains(x) {
                    let i = choose|i: int| 0 <= i < f.len() && f[i] == x;
                    if i < f.len() - 1 {
                        assert(ff[i] == x);
                    }
                }
                if ff.contains(x) {
                    let i = choose|i: int| 0 <= i < ff.len() && ff[i] == x;
                    assert(f[i] == x);
                }
                if x == cs.last() {
                    assert(f[f.len() - 1] == x);
                }
            }
            if cs.no_duplicates() {
                assert(front.no_duplicates());
                assert(!ff.contains(cs.last()));
                assert(f.no_duplicates()) by {
                    assert forall|i: int, j: int|
                        0 <= i < f.len() && 0 <= j < f.len() && i != j implies f[i] != f[j] by {
                        if i < f.len() - 1 && j < f.len() - 1 {
                            assert(f[i] == ff[i] && f[j] == ff[j]);
                        } else if i < f.len() - 1 {
                            assert(ff.contains(ff[i]) && f[j] == cs.last());
                        } else if j < f.len() - 1 {
                            assert(ff.contains(ff[j]) && f[i] == cs.last());
                        }
                    }
                }
            }
        } else {
            if cs.no_duplicates() {
                assert(front.no_duplicates());
            }
        }
    }
}

/// The stay filter keeps exactly the straddlers.
pub proof fn lemma_filter_stay(a: Arena, cs: Seq<usize>, lb: BoundingBox, rb: BoundingBox)
    ensures
        forall|x: usize|
            #[trigger] spec_filter_stay(a, cs, lb, rb).contains(x) <==> cs.contains(x) && !in_box(
                a,
                lb,
                x,
            ) && !in_box(a, rb, x),
        cs.no_duplicates() ==> spec_filter_stay(a, cs, lb, rb).no_duplicates(),
    decreases cs.len(),
{
    if cs.len() > 0 {
        let front = cs.drop_last();
        lemma_filter_stay(a, front, lb, rb);
        lemma_contains_drop_last(cs);
        let f = spec_filter_stay(a, cs, lb, rb);
        let ff = spec_filter_stay(a, front, lb, rb);
        if !in_box(a, lb, cs.last()) && !in_box(a, rb, cs.last()) {
            assert forall|x: usize| #[trigger] f.contains(x) <==> ff.contains(x) || x
                == cs.last() by {
                if f.contains(x) {
                    let i = choose|i: int| 0 <= i < f.len() && f[i] == x;
                    if i < f.len() - 1 {
                        assert(ff[i] == x);
                    }
                }
                if ff.contains(x) {
                    let i = choose|i: int| 0 <= i < ff.len() && ff[i] == x;
                    assert(f[i] == x);
                }
                if x == cs.last() {
                    assert(f[f.len() - 1] == x);
                }
            }
            if cs.no_duplicates() {
                assert(front.no_duplicates());
                assert(!ff.contains(cs.last()));
                assert(f.no_duplicates()) by {
                    assert forall|i: int, j: int|
                        0 <= i < f.len() && 0 <= j < f.len() && i != j implies f[i] != f[j] by {
                        if i < f.len() - 1 && j < f.len() - 1 {
                            assert(f[i] == ff[i] && f[j] == ff[j]);
                        } else if i < f.len() - 1 {
                            assert(ff.contains(ff[i]) && f[j] == cs.last());
                        } else if j < f.len() - 1 {
                            assert(ff.contains(ff[j]) && f[i] == cs.last());
                        }
                    }
                }
            }
        } else {
            if cs.no_duplicates() {
                assert(front.no_duplicates());
            }
        }
    }
}

/// A copy of an id list.
pub fn copy_ids(v: &Vec<usize>) -> (r: Vec<usize>)
    ensures
        r@ == v@,
{
    let mut r: Vec<usize> = Vec::new();
    let mut i: usize = 0;
    while i < v.len()
        invariant
            i <= v@.len(),
            r@ == v@.take(i as int),
        decreases v@.len() - i,
    {
        r.push(v[i]);
        proof {
            assert(r@ =~= v@.take(i + 1int));
        }
        i = i + 1;
    }
    proof {
        assert(v@.take(v@.len() as int) =~= v@);
    }
    r
}

impl Group {
    pub open spec fn wf(self) -> bool {
        spec_inverse4(self.transform, self.inverse)
    }

    pub fn new(id: usize) -> (g: Group)
        ensures
            g.wf(),
            g.id == id,
            is_identity(g.transform),
            is_identity(g.inverse),
            g.parent_id is None,
            g.children_ids@.len() == 0,
    {
        let t = Matrix::identity();
        proof {
            lemma_identity_inverse(t);
        }
        Group { id, transform: t, inverse: t, parent_id: None, children_ids: Vec::new() }
    }

    /// Records the child under this group and stamps the child's parent link;
    /// re-adding a present child is a scene bug kept out by contract.
    pub fn add_child(&mut self, child_id: usize, arena: &mut Arena)
        requires
            old(arena).valid(child_id as int),
            !old(self).children_ids@.contains(child_id),
        ensures
            final(self).children_ids@ == old(self).children_ids@.push(child_id),
            final(self).id == old(self).id && final(self).transform == old(self).transform
                && final(self).inverse == old(self).inverse && final(self).parent_id == old(
                self,
            ).parent_id,
            final(arena).objects@.len() == old(arena).objects@.len(),
            final(arena).valid(child_id as int),
            final(arena).shape(child_id as int) == old(arena).shape(child_id as int).with_parent(
                Some(old(self).id),
            ),
            forall|j: int|
                0 <= j < old(arena).objects@.len() && j != child_id ==> final(arena).objects@[j]
                    == old(arena).objects@[j],
    {
        arena.set_parent_of(child_id, Some(self.id));
        self.children_ids.push(child_id);
    }

    /// Adds each listed child in order.
    pub fn add_children(&mut self, children_ids: &Vec<usize>, arena: &mut Arena)
        requires
            forall|k: int|
                0 <= k < children_ids@.len() ==> old(arena).valid(
                    #[trigger] children_ids@[k] as int,
                ),
            children_ids@.no_duplicates(),
            forall|k: int|
                0 <= k < children_ids@.len() ==> !old(self).children_ids@.contains(
                    #[trigger] children_ids@[k],
                ),
        ensures
            final(self).children_ids@ == old(self).children_ids@ + children_ids@,
            final(self).id == old(self).id && final(self).transform == old(self).transform
                && final(self).inverse == old(self).inverse && final(self).parent_id == old(
                self,
            ).parent_id,
            final(arena).objects@.len() == old(arena).objects@.len(),
            forall|k: int|
                0 <= k < children_ids@.len() ==> final(arena).valid(
                    #[trigger] children_ids@[k] as int,
                ) && final(arena).shape(children_ids@[k] as int) == old(arena).shape(
                    children_ids@[k] as int,
                ).with_parent(Some(old(self).id)),
            forall|j: int|
                0 <= j < old(arena).objects@.len() && !children_ids@.contains(j as usize)
                    ==> final(arena).objects@[j] == old(arena).objects@[j],
    {
        let ghost init_self = *self;
        let ghost init_arena = *arena;
        let mut k: usize = 0;
        while k < children_ids.len()
            invariant
                k <= children_ids@.len(),
                forall|i: int|
                    0 <= i < children_ids@.len() ==> init_arena.valid(
                        #[trigger] children_ids@[i] as int,
                    ),
                children_ids@.no_duplicates(),
                forall|i: int|
                    0 <= i < children_ids@.len() ==> !init_self.children_ids@.contains(
                        #[trigger] children_ids@[i],
                    ),
                self.children_ids@ == init_self.children_ids@ + children_ids@.take(k as int),
                self.id == init_self.id && self.transform == init_self.transform && self.inverse
                    == init_self.inverse && self.parent_id == init_self.parent_id,
                arena.objects@.len() == init_arena.objects@.len(),
                forall|i: int|
                    0 <= i < k ==> arena.valid(#[trigger] children_ids@[i] as int) && arena.shape(
                        children_ids@[i] as int,
                    ) == init_arena.shape(children_ids@[i] as int).with_parent(Some(init_self.id)),
                forall|j: int|
                    0 <= j < init_arena.objects@.len() && !children_ids@.take(k as int).contains(
                        j as usize,
                    ) ==> arena.objects@[j] == init_arena.objects@[j],
            decreases children_ids@.len() - k,
        {
            let cid = children_ids[k];
            proof {
                // still valid: its slot was either untouched or re-stamped
                if !children_ids@.take(k as int).contains(cid) {
                    assert(arena.objects@[cid as int] == init_arena.objects@[cid as int]);
                }
                // not yet among our children: not in the original list and,
                // by distinctness, not in the prefix just added
                assert(!children_ids@.take(k as int).contains(cid)) by {
                    if children_ids@.take(k as int).contains(cid) {
                        let i = choose|i: int|
                            0 <= i < k && children_ids@.take(k as int)[i] == cid;
                        assert(children_ids@[i] == children_ids@[k as int]);
                    }
                }
                assert(!self.children_ids@.contains(cid)) by {
                    if self.children_ids@.contains(cid) {
                        let i = choose|i: int|
                            0 <= i < self.children_ids@.len() && self.children_ids@[i] == cid;
                        if i < init_self.children_ids@.len() {
                            assert(init_self.children_ids@[i] == cid);
                        } else {
                            assert(children_ids@.take(k as int)[i
                                - init_self.children_ids@.len()] == cid);
                        }
                    }
                }
            }
            self.add_child(cid, arena);
            proof {
                assert(self.children_ids@ =~= init_self.children_ids@ + children_ids@.take(
                    k + 1int,
                ));
                assert forall|i: int|
                    0 <= i < k + 1 implies arena.valid(#[trigger] children_ids@[i] as int)
                    && arena.shape(children_ids@[i] as int) == init_arena.shape(
                    children_ids@[i] as int,
                ).with_parent(Some(init_self.id)) by {
                    if i < k {
                        assert(children_ids@[i] != cid);
                    }
                }
                assert forall|j: int|
                    0 <= j < init_arena.objects@.len() && !children_ids@.take(k + 1int).contains(
                        j as usize,
                    ) implies arena.objects@[j] == init_arena.objects@[j] by {
                    assert(!children_ids@.take(k as int).contains(j as usize)) by {
                        if children_ids@.take(k as int).contains(j as usize) {
                            let i = choose|i: int|
                                0 <= i < k && children_ids@.take(k as int)[i] == j as usize;
                            assert(children_ids@.take(k + 1int)[i] == j as usize);
                        }
                    }
                    assert(j != cid) by {
                        assert(children_ids@.take(k + 1int)[k as int] == cid);
                    }
                }
            }
            k = k + 1;
        }
        proof {
            assert(children_ids@.take(children_ids@.len() as int) =~= children_ids@);
        }
    }

    /// The union of every child's bounds expressed in this group's frame.
    #[verifier::rlimit(100)]
    pub fn bounds_rec(&self, arena: &Arena, fuel: usize) -> (b: BoundingBox)
        requires
            wf_arena(*arena),
            group_links_ok(*arena, *self),
        ensures
            b == spec_group_bounds(*arena, *self, fuel as nat),
        decreases fuel, 0int,
    {
        if fuel == 0 {
            return BoundingBox::empty();
        }
        let mut bb = BoundingBox::empty();
        let mut k: usize = 0;
        while k < self.children_ids.len()
            invariant
                wf_arena(*arena),
                group_links_ok(*arena, *self),
                fuel >= 1,
                k <= self.children_ids@.len(),
                bb == spec_children_bounds(*arena, self.children_ids@.take(k as int), fuel as nat),
            decreases self.children_ids@.len() - k,
        {
            let cid = self.children_ids[k];
            let child = arena.get(cid);
            let cb = child.parent_space_bounds_rec(arena, fuel - 1);
            bb = bb.add_box(cb);
            proof {
                let pre = self.children_ids@.take(k as int);
                let post = self.children_ids@.take(k + 1int);
                assert(post.drop_last() =~= pre);
                assert(post.last() == self.children_ids@[k as int]);
            }
            k = k + 1;
        }
        proof {
            assert(self.children_ids@.take(self.children_ids@.len() as int)
                =~= self.children_ids@);
        }
        bb
    }

    pub fn bounds(&self, arena: &Arena) -> (b: BoundingBox)
        requires
            wf_arena(*arena),
            group_links_ok(*arena, *self),
        ensures
            b == spec_group_bounds(*arena, *self, arena.spec_len()),
    {
        let fuel = arena.len();
        self.bounds_rec(arena, fuel)
    }

    /// The bounds-gated intersection pass: on a miss of the aggregate box no
    /// child is visited and the result is empty; on a hit every child's
    /// intersections are merged and sorted ascending by `t`.
    #[verifier::rlimit(60)]
    pub fn local_intersect_rec(&self, arena: &Arena, local_ray: &Ray, fuel: usize) -> (xs: Vec<
        Intersection,
    >)
        requires
            wf_arena(*arena),
            group_links_ok(*arena, *self),
        ensures
            xs@ == spec_group_intersect(*arena, *self, *local_ray, fuel as nat),
        decreases fuel, 3int,
    {
        if fuel == 0 {
            return Vec::new();
        }
        let b = self.bounds_rec(arena, fuel);
        if !b.intersects(local_ray) {
            // miss: the whole subtree is pruned
            return Vec::new();
        }
        let mut acc: Vec<Intersection> = Vec::new();
        let mut k: usize = 0;
        while k < self.children_ids.len()
            invariant
                wf_arena(*arena),
                group_links_ok(*arena, *self),
                fuel >= 1,
                k <= self.children_ids@.len(),
                acc@ == spec_children_intersect(
                    *arena,
                    self.children_ids@.take(k as int),
                    *local_ray,
                    fuel as nat,
                ),
            decreases self.children_ids@.len() - k,
        {
            let cid = self.children_ids[k];
            let child = arena.get(cid);
            let mut part = child.intersect_rec(cid, arena, local_ray, fuel - 1);
            acc.append(&mut part);
            proof {
                let pre = self.children_ids@.take(k as int);
                let post = self.children_ids@.take(k + 1int);
                assert(post.drop_last() =~= pre);
                assert(post.last() == self.children_ids@[k as int]);
            }
            k = k + 1;
        }
        proof {
            assert(self.children_ids@.take(self.children_ids@.len() as int)
                =~= self.children_ids@);
        }
        Intersection::sort(acc)
    }

    pub fn local_intersect(&self, arena: &Arena, local_ray: &Ray) -> (xs: Vec<Intersection>)
        requires
            wf_arena(*arena),
            group_links_ok(*arena, *self),
        ensures
            xs@ == spec_group_intersect(*arena, *self, *local_ray, arena.spec_len()),
    {
        let fuel = arena.len();
        self.local_intersect_rec(arena, local_ray, fuel)
    }

    /// Splits this group's box and sorts each child into the half that fully
    /// contains it; a child straddling the seam stays behind.  Returns the
    /// two id lists and keeps only the straddlers.
    #[verifier::rlimit(100)]
    pub fn partition_children(&mut self, arena: &Arena) -> (lr: (Vec<usize>, Vec<usize>))
        requires
            wf_arena(*arena),
            group_links_ok(*arena, *old(self)),
        ensures
            ({
                let halves = spec_split(
                    spec_group_bounds(*arena, *old(self), arena.spec_len()),
                );
                &&& lr.0@ == spec_filter_left(*arena, old(self).children_ids@, halves.0)
                &&& lr.1@ == spec_filter_right(
                    *arena,
                    old(self).children_ids@,
                    halves.0,
                    halves.1,
                )
                &&& final(self).children_ids@ == spec_filter_stay(
                    *arena,
                    old(self).children_ids@,
                    halves.0,
                    halves.1,
                )
            }),
            final(self).id == old(self).id && final(self).transform == old(self).transform
                && final(self).inverse == old(self).inverse && final(self).parent_id == old(
                self,
            ).parent_id,
    {
        let bb = self.bounds(arena);
        let (left, right) = bb.split();

        let mut left_ids: Vec<usize> = Vec::new();
        let mut right_ids: Vec<usize> = Vec::new();
        let mut stay_ids: Vec<usize> = Vec::new();

        let ghost cs = self.children_ids@;
        let mut k: usize = 0;
        while k < self.children_ids.len()
            invariant
                wf_arena(*arena),
                group_links_ok(*arena, *self),
                cs == self.children_ids@,
                k <= cs.len(),
                left_ids@ == spec_filter_left(*arena, cs.take(k as int), left),
                right_ids@ == spec_filter_right(*arena, cs.take(k as int), left, right),
                stay_ids@ == spec_filter_stay(*arena, cs.take(k as int), left, right),
            decreases cs.len() - k,
        {
            let cid = self.children_ids[k];
            let child = arena.get(cid);
            let child_bounds = child.parent_space_bounds(arena);
            proof {
                reveal(in_box);
            }
            if left.contains_box(child_bounds) {
                left_ids.push(cid);
            } else if right.contains_box(child_bounds) {
                right_ids.push(cid);
            } else {
                stay_ids.push(cid);
            }
            proof {
                let pre = cs.take(k as int);
                let post = cs.take(k + 1int);
                assert(post.drop_last() =~= pre);
                assert(post.last() == cs[k as int]);
                if in_box(*arena, left, cid) {
                    assert(left_ids@ == spec_filter_left(*arena, pre, left).push(cid));
                } else if in_box(*arena, right, cid) {
                    assert(right_ids@ == spec_filter_right(*arena, pre, left, right).push(cid));
                } else {
                    assert(stay_ids@ == spec_filter_stay(*arena, pre, left, right).push(cid));
                }
            }
            k = k + 1;
        }
        proof {
            assert(cs.take(cs.len() as int) =~= cs);
        }
        self.children_ids = stay_ids;
        (left_ids, right_ids)
    }

    /// Splits the group once its child count reaches the threshold: children
    /// wholly inside one half of the split bounds move into a fresh sub-group
    /// per occupied half (left first), and straddlers stay at this level.
    #[verifier::rlimit(100)]
    #[verifier::spinoff_prover]
    pub fn divide(&mut self, threshold: usize, arena: &mut Arena)
        requires
            wf_arena(*old(arena)),
            group_links_ok(*old(arena), *old(self)),
            old(self).children_ids@.no_duplicates(),
        ensures
            threshold > old(self).children_ids@.len() ==> *final(self) == *old(self)
                && final(arena).objects@ == old(arena).objects@,
            threshold <= old(self).children_ids@.len() ==> ({
                let halves = spec_split(
                    spec_group_bounds(*old(arena), *old(self), old(arena).spec_len()),
                );
                let lefts = spec_filter_left(*old(arena), old(self).children_ids@, halves.0);
                let rights = spec_filter_right(
                    *old(arena),
                    old(self).children_ids@,
                    halves.0,
                    halves.1,
                );
                let stays = spec_filter_stay(
                    *old(arena),
                    old(self).children_ids@,
                    halves.0,
                    halves.1,
                );
                let lid = old(arena).spec_len() as int;
                let rid = lid + (if lefts.len() > 0 { 1int } else { 0int });
                &&& final(self).children_ids@ == stays + (if lefts.len() > 0 {
                    seq![lid as usize]
                } else {
                    Seq::empty()
                }) + (if rights.len() > 0 {
                    seq![rid as usize]
                } else {
                    Seq::empty()
                })
                &&& final(self).id == old(self).id && final(self).transform == old(self).transform
                    && final(self).inverse == old(self).inverse && final(self).parent_id == old(
                    self,
                ).parent_id
                &&& lefts.len() > 0 ==> final(arena).valid(lid) && (final(arena).shape(lid)
                    matches Shape::Group(g) && g.children_ids@ == lefts && g.parent_id == Some(
                    old(self).id,
                ))
                &&& rights.len() > 0 ==> final(arena).valid(rid) && (final(arena).shape(rid)
                    matches Shape::Group(g) && g.children_ids@ == rights && g.parent_id == Some(
                    old(self).id,
                ))
                &&& forall|k: int|
                    0 <= k < lefts.len() ==> final(arena).shape(#[trigger] lefts[k] as int) == old(
                        arena,
                    ).shape(lefts[k] as int).with_parent(Some(lid as usize))
                &&& forall|k: int|
                    0 <= k < rights.len() ==> final(arena).shape(#[trigger] rights[k] as int)
                        == old(arena).shape(rights[k] as int).with_parent(Some(rid as usize))
                &&& forall|j: int|
                    0 <= j < lid && !lefts.contains(j as usize) && !rights.contains(j as usize)
                        ==> final(arena).objects@[j] == old(arena).objects@[j]
            }),
    {
        if threshold <= self.children_ids.len() {
            let ghost a0 = *arena;
            let ghost g0 = *self;
            let ghost halves = spec_split(spec_group_bounds(a0, g0, a0.spec_len()));
            proof {
                lemma_filter_left(a0, g0.children_ids@, halves.0);
                lemma_filter_right(a0, g0.children_ids@, halves.0, halves.1);
                lemma_filter_stay(a0, g0.children_ids@, halves.0, halves.1);
            }
            let (left, right) = self.partition_children(arena);
            proof {
                assert forall|k: int| 0 <= k < left@.len() implies g0.children_ids@.contains(
                    #[trigger] left@[k],
                ) && a0.valid(left@[k] as int) && in_box(a0, halves.0, left@[k]) by {
                    assert(left@.contains(left@[k]));
                    let i = choose|i: int|
                        0 <= i < g0.children_ids@.len() && g0.children_ids@[i] == left@[k];
                    assert(a0.valid(g0.children_ids@[i] as int));
                }
                assert forall|k: int| 0 <= k < right@.len() implies g0.children_ids@.contains(
                    #[trigger] right@[k],
                ) && a0.valid(right@[k] as int) && !in_box(a0, halves.0, right@[k]) by {
                    assert(right@.contains(right@[k]));
                    let i = choose|i: int|
                        0 <= i < g0.children_ids@.len() && g0.children_ids@[i] == right@[k];
                    assert(a0.valid(g0.children_ids@[i] as int));
                }
                assert forall|k: int|
                    0 <= k < self.children_ids@.len() implies (
                #[trigger] self.children_ids@[k] as int) < a0.spec_len() by {
                    let cs = self.children_ids@;
                    assert(cs.contains(cs[k]));
                    let i = choose|i: int|
                        0 <= i < g0.children_ids@.len() && g0.children_ids@[i] == cs[k];
                    assert(a0.valid(g0.children_ids@[i] as int));
                }
            }
            if left.len() > 0 {
                self.make_subgroup(&left, arena);
            }
            let ghost a1 = *arena;
            let ghost s1 = *self;
            if right.len() > 0 {
                proof {
                    assert forall|k: int| 0 <= k < right@.len() implies a1.valid(
                        #[trigger] right@[k] as int,
                    ) by {
                        assert(!left@.contains(right@[k]));
                        assert(a1.objects@[right@[k] as int] == a0.objects@[right@[k] as int]);
                    }
                }
                self.make_subgroup(&right, arena);
            }
            proof {
                let lefts = left@;
                let rights = right@;
                let stays = spec_filter_stay(a0, g0.children_ids@, halves.0, halves.1);
                if lefts.len() > 0 && rights.len() > 0 {
                    assert(self.children_ids@ =~= stays + seq![a0.spec_len() as usize] + seq![
                        (a0.spec_len() + 1) as usize,
                    ]);
                } else if lefts.len() > 0 {
                    assert(self.children_ids@ =~= stays + seq![a0.spec_len() as usize]
                        + Seq::<usize>::empty());
                } else if rights.len() > 0 {
                    assert(self.children_ids@ =~= stays + Seq::<usize>::empty() + seq![
                        a0.spec_len() as usize,
                    ]);
                } else {
                    assert(self.children_ids@ =~= stays + Seq::<usize>::empty()
                        + Seq::<usize>::empty());
                }
            }
        }
    }

    /// Wraps the listed children into a fresh sub-group, which becomes a
    /// child of this group.
    pub fn make_subgroup(&mut self, children_ids: &Vec<usize>, arena: &mut Arena)
        requires
            forall|k: int|
                0 <= k < children_ids@.len() ==> old(arena).valid(
                    #[trigger] children_ids@[k] as int,
                ),
            children_ids@.no_duplicates(),
            forall|k: int|
                0 <= k < old(self).children_ids@.len() ==> (
                #[trigger] old(self).children_ids@[k] as int) < old(arena).spec_len(),
        ensures
            ({
                let sid = old(arena).spec_len() as int;
                &&& final(arena).objects@.len() == old(arena).objects@.len() + 1
                &&& final(arena).valid(sid)
                &&& final(arena).shape(sid) matches Shape::Group(g) && g.id as int == sid
                    && g.children_ids@ == children_ids@ && g.parent_id == Some(old(self).id)
                    && is_identity(g.transform) && g.wf()
                &&& forall|k: int|
                    0 <= k < children_ids@.len() ==> final(arena).shape(
                        #[trigger] children_ids@[k] as int,
                    ) == old(arena).shape(children_ids@[k] as int).with_parent(
                        Some(sid as usize),
                    )
                &&& forall|j: int|
                    0 <= j < old(arena).objects@.len() && !children_ids@.contains(j as usize)
                        ==> final(arena).objects@[j] == old(arena).objects@[j]
                &&& final(self).children_ids@ == old(self).children_ids@.push(sid as usize)
                &&& final(self).id == old(self).id && final(self).transform == old(self).transform
                    && final(self).inverse == old(self).inverse && final(self).parent_id == old(
                    self,
                ).parent_id
            }),
    {
        let subgroup_id = arena.next_id();
        let mut subgroup = Group::new(subgroup_id);
        subgroup.add_children(children_ids, arena);
        arena.add_with_id(subgroup_id, Shape::Group(subgroup));
        proof {
            assert(!self.children_ids@.contains(subgroup_id)) by {
                if self.children_ids@.contains(subgroup_id) {
                    let i = choose|i: int|
                        0 <= i < self.children_ids@.len() && self.children_ids@[i] == subgroup_id;
                }
            }
        }
        self.add_child(subgroup_id, arena);
    }
}

} // verus!
