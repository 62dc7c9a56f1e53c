//! Intersection records: a ray parameter and the id of the shape hit.
//! Sequences of intersections are kept sorted ascending by `t`; `hit` picks
//! the smallest non-negative parameter.

use vstd::prelude::*;

verus! {

use vstd::seq_lib::lemma_multiset_commutative;
use vstd::seq_lib::group_to_multiset_ensures;
use crate::arena::Arena;
use crate::fx;
use crate::fx::{spec_add, spec_sub, spec_neg, spec_mul, spec_div, SCALE};
use crate::ray::{Ray, spec_position};
use crate::shapes::{wf_arena, spec_normal_at};
use crate::tuple::{
    Tuple,
    spec_tuple_add,
    spec_tuple_sub,
    spec_tuple_neg,
    spec_tuple_scale,
    spec_dot,
    spec_reflect,
};
use crate::EPSILON;

#[derive(Clone, Copy, Debug, PartialEq, Eq, Structural)]
pub struct Intersection {
    /// Ray parameter of the hit.
    pub t: i64,
    /// Arena id of the shape hit.
    pub object: usize,
}

/// `x` placed before the first element of the sorted sequence `s` whose `t`
/// exceeds it (so insertion is stable for equal parameters).
pub open spec fn insert_sorted(x: Intersection, s: Seq<Intersection>) -> Seq<Intersection>
    decreases s.len(),
{
    if s.len() == 0 {
        seq![x]
    } else if x.t < s[0].t {
        seq![x] + s
    } else {
        seq![s[0]] + insert_sorted(x, s.drop_first())
    }
}

/// Insertion sort, ascending by `t`, taking the items left to right.
pub open spec fn sort_by_t(s: Seq<Intersection>) -> Seq<Intersection>
    decreases s.len(),
{
    if s.len() == 0 {
        Seq::empty()
    } else {
        insert_sorted(s.last(), sort_by_t(s.drop_last()))
    }
}

pub open spec fn sorted_by_t(s: Seq<Intersection>) -> bool {
    forall|i: int, j: int| 0 <= i <= j < s.len() ==> s[i].t <= s[j].t
}

pub proof fn lemma_insert_sorted_sorted(x: Intersection, s: Seq<Intersection>)
    requires
        sorted_by_t(s),
    ensures
        sorted_by_t(insert_sorted(x, s)),
        insert_sorted(x, s).to_multiset() == s.to_multiset().insert(x),
        insert_sorted(x, s).len() == s.len() + 1,
    decreases s.len(),
{
    broadcast use group_to_multiset_ensures;

    let r = insert_sorted(x, s);
    if s.len() == 0 {
        assert(seq![x] =~= Seq::<Intersection>::empty().push(x));
        assert(r.to_multiset() =~= s.to_multiset().insert(x));
    } else if x.t < s[0].t {
        assert(sorted_by_t(r));
        lemma_multiset_commutative(seq![x], s);
        assert(seq![x] =~= Seq::<Intersection>::empty().push(x));
        assert(r.to_multiset() =~= s.to_multiset().insert(x));
    } else {
        let rest = s.drop_first();
        assert(sorted_by_t(rest));
        lemma_insert_sorted_sorted(x, rest);
        let sub = insert_sorted(x, rest);
        assert(r == seq![s[0]] + sub);
        lemma_multiset_commutative(seq![s[0]], sub);
        lemma_multiset_commutative(seq![s[0]], rest);
        assert(seq![s[0]] + rest =~= s);
        assert(seq![s[0]] =~= Seq::<Intersection>::empty().push(s[0]));
        // every element of the recursive insertion is at least s[0].t
        assert forall|i: int| 0 <= i < r.len() implies s[0].t <= r[i].t by {
            if i > 0 {
                let v = sub[i - 1];
                assert(sub.contains(v));
                assert(sub.to_multiset().count(v) > 0);
                assert(rest.to_multiset().insert(x).count(v) > 0);
                if v == x {
                    assert(s[0].t <= x.t);
                } else {
                    assert(rest.to_multiset().count(v) > 0);
                    assert(rest.contains(v));
                    let k = choose|k: int| 0 <= k < rest.len() && rest[k] == v;
                    assert(s[0].t <= rest[k].t);
                }
            }
        }
        assert(sorted_by_t(r));
        assert(r.to_multiset() =~= s.to_multiset().insert(x));
    }
}

pub proof fn lemma_sort_by_t(s: Seq<Intersection>)
    ensures
        sorted_by_t(sort_by_t(s)),
        sort_by_t(s).to_multiset() == s.to_multiset(),
        sort_by_t(s).len() == s.len(),
    decreases s.len(),
{
    broadcast use group_to_multiset_ensures;

    if s.len() == 0 {
        assert(sort_by_t(s) =~= Seq::<Intersection>::empty());
    } else {
        let front = s.drop_last();
        lemma_sort_by_t(front);
        lemma_insert_sorted_sorted(s.last(), sort_by_t(front));
        assert(front.push(s.last()) =~= s);
        assert(sort_by_t(s).to_multiset() =~= s.to_multiset());
    }
}

/// The first entry with a non-negative parameter (the visible hit, since the
/// sequence is kept sorted).
pub open spec fn spec_first_hit(xs: Seq<Intersection>) -> Option<Intersection>
    decreases xs.len(),
{
    if xs.len() == 0 {
        None
    } else if xs[0].t >= 0 {
        Some(xs[0])
    } else {
        spec_first_hit(xs.drop_first())
    }
}

/// The first non-negative entry, when there is one, sits at an index with
/// nothing but negative parameters before it.
proof fn lemma_first_hit_index(xs: Seq<Intersection>)
    ensures
        spec_first_hit(xs) is None ==> forall|j: int| 0 <= j < xs.len() ==> xs[j].t < 0,
        spec_first_hit(xs) matches Some(h) ==> exists|k: int|
            0 <= k < xs.len() && xs[k] == h && h.t >= 0 && (forall|j: int|
                0 <= j < k ==> (#[trigger] xs[j]).t < 0),
    decreases xs.len(),
{
    if xs.len() == 0 {
    } else if xs[0].t >= 0 {
        let h = xs[0];
        assert(0 <= 0 < xs.len() && xs[0] == h && h.t >= 0 && (forall|j: int|
            0 <= j < 0 ==> (#[trigger] xs[j]).t < 0));
    } else {
        let rest = xs.drop_first();
        lemma_first_hit_index(rest);
        if spec_first_hit(rest) is Some {
            let h = spec_first_hit(rest)->0;
            let k = choose|k: int|
                0 <= k < rest.len() && rest[k] == h && h.t >= 0 && (forall|j: int|
                    0 <= j < k ==> (#[trigger] rest[j]).t < 0);
            assert(xs[k + 1] == h);
            assert(forall|j: int| 0 <= j < k + 1 ==> (#[trigger] xs[j]).t < 0) by {
                assert(forall|j: int| 1 <= j < k + 1 ==> xs[j] == rest[j - 1]);
            }
        } else {
            assert(forall|j: int| 1 <= j < xs.len() ==> xs[j] == rest[j - 1]);
        }
    }
}

/// `spec_hit` picks exactly the entry at an index whose parameter is the
/// smallest non-negative one and whose earlier entries are all negative.
proof fn lemma_hit_at(s: Seq<Intersection>, k: int)
    requires
        0 <= k < s.len(),
        s[k].t >= 0,
        forall|j: int| 0 <= j < s.len() && (#[trigger] s[j]).t >= 0 ==> s[k].t <= s[j].t,
        forall|j: int| 0 <= j < k ==> (#[trigger] s[j]).t < 0,
    ensures
        spec_hit(s) == Some(s[k]),
{
    assert(0 <= k < s.len() && s[k].t >= 0 && (forall|j: int|
        0 <= j < s.len() && (#[trigger] s[j]).t >= 0 ==> s[k].t <= s[j].t) && (forall|j: int|
        0 <= j < k ==> !((#[trigger] s[j]).t >= 0 && s[j].t <= s[k].t)));
    let c = choose|c: int|
        0 <= c < s.len() && s[c].t >= 0 && (forall|j: int|
            0 <= j < s.len() && s[j].t >= 0 ==> s[c].t <= s[j].t) && (forall|j: int|
            0 <= j < c ==> !(s[j].t >= 0 && s[j].t <= s[c].t));
    assert(s[c] == s[k]) by {
        if c < k {
            assert(s[c].t < 0);
        }
        if k < c {
            assert(!(s[k].t >= 0 && s[k].t <= s[c].t));
            assert(s[k].t <= s[c].t);
        }
    }
}

/// On a sequence sorted ascending by `t`, the first entry with a
/// non-negative parameter is exactly the visible hit: the first entry with
/// the smallest non-negative parameter.
pub proof fn lemma_first_hit_is_hit(xs: Seq<Intersection>)
    requires
        sorted_by_t(xs),
    ensures
        spec_first_hit(xs) == spec_hit(xs),
{
    lemma_first_hit_index(xs);
    match spec_first_hit(xs) {
        Option::Some(h) => {
            let k = choose|k: int|
                0 <= k < xs.len() && xs[k] == h && h.t >= 0 && (forall|j: int|
                    0 <= j < k ==> (#[trigger] xs[j]).t < 0);
            assert(forall|j: int|
                0 <= j < xs.len() && (#[trigger] xs[j]).t >= 0 ==> xs[k].t <= xs[j].t) by {
                assert(forall|j: int| k <= j < xs.len() ==> xs[k].t <= (#[trigger] xs[j]).t);
            }
            lemma_hit_at(xs, k);
        },
        Option::None => {
            assert(spec_hit(xs) is None) by {
                if exists|i: int| 0 <= i < xs.len() && xs[i].t >= 0 {
                    let i = choose|i: int| 0 <= i < xs.len() && xs[i].t >= 0;
                }
            }
        },
    }
}

/// The visible hit among `s`: the first element with the smallest
/// non-negative `t`, or nothing when every `t` is negative.
pub open spec fn spec_hit(s: Seq<Intersection>) -> Option<Intersection> {
    if exists|i: int| 0 <= i < s.len() && s[i].t >= 0 {
        let k = choose|k: int|
            0 <= k < s.len() && s[k].t >= 0 && (forall|j: int|
                0 <= j < s.len() && s[j].t >= 0 ==> s[k].t <= s[j].t) && (forall|j: int|
                0 <= j < k ==> !(s[j].t >= 0 && s[j].t <= s[k].t));
        Some(s[k])
    } else {
        None
    }
}


/// The full optical state at one hit.
#[derive(Clone, Copy, Debug)]
pub struct PreparedComputations {
    pub t: i64,
    pub object: usize,
    pub point: Tuple,
    pub under_point: Tuple,
    pub over_point: Tuple,
    pub eyev: Tuple,
    pub normalv: Tuple,
    pub inside: bool,
    pub reflectv: Tuple,
    pub n1: i64,
    pub n2: i64,
}

/// The refractive index of the shape stored under `id`.
pub open spec fn spec_refractive(a: Arena, id: usize) -> i64 {
    a.shape(id as int).spec_material().refractive_index
}

/// A shape entering the container stack joins it; one already inside leaves
/// (its first occurrence is removed).
pub open spec fn spec_toggle(containers: Seq<usize>, id: usize) -> Seq<usize> {
    if containers.contains(id) {
        containers.remove(containers.index_of(id))
    } else {
        containers.push(id)
    }
}

/// The refractive indices on both sides of the hit: the ascending
/// intersection list is walked with a stack of shapes the ray is currently
/// inside; at the hit, `n1` is the index of the innermost shape before the
/// toggle and `n2` after it, the vacuum index when the stack is empty.
pub open spec fn spec_n1_n2(
    a: Arena,
    xs: Seq<Intersection>,
    hit: Intersection,
    containers: Seq<usize>,
) -> (i64, i64)
    decreases xs.len(),
{
    if xs.len() == 0 {
        (SCALE, SCALE)
    } else {
        let i = xs[0];
        let after = spec_toggle(containers, i.object);
        if i == hit {
            let n1 = if containers.len() == 0 {
                SCALE
            } else {
                spec_refractive(a, containers.last())
            };
            let n2 = if after.len() == 0 {
                SCALE
            } else {
                spec_refractive(a, after.last())
            };
            (n1, n2)
        } else {
            spec_n1_n2(a, xs.drop_first(), hit, after)
        }
    }
}

/// Every object named in the intersection list is a filled, non-group slot.
pub open spec fn objects_shadeable(a: Arena, xs: Seq<Intersection>) -> bool {
    forall|j: int|
        0 <= j < xs.len() ==> a.valid(#[trigger] xs[j].object as int) && !(a.shape(
            xs[j].object as int,
        ) is Group)
}

/// The optical state `prepare_computations` assembles, as one value.
pub open spec fn spec_prepare(
    a: Arena,
    hit: Intersection,
    r: Ray,
    xs: Seq<Intersection>,
) -> PreparedComputations {
    let point = spec_position(r, hit.t as int);
    let eyev = spec_tuple_neg(r.direction);
    let raw_normal = spec_normal_at(a, a.shape(hit.object as int), point, a.spec_len());
    let inside = spec_dot(raw_normal, eyev) < 0;
    let normalv = if inside {
        spec_tuple_neg(raw_normal)
    } else {
        raw_normal
    };
    let ns = spec_n1_n2(a, xs, hit, Seq::empty());
    PreparedComputations {
        t: hit.t,
        object: hit.object,
        point,
        under_point: spec_tuple_sub(point, spec_tuple_scale(normalv, EPSILON as int)),
        over_point: spec_tuple_add(point, spec_tuple_scale(normalv, EPSILON as int)),
        eyev,
        normalv,
        inside,
        reflectv: spec_reflect(r.direction, normalv),
        n1: ns.0,
        n2: ns.1,
    }
}

/// Schlick's reflectance approximation, total internal reflection included.
pub open spec fn spec_schlick(c: PreparedComputations) -> i64 {
    let cos = spec_dot(c.eyev, c.normalv);
    let tir = c.n1 > c.n2 && ({
        let n_ratio = spec_div(c.n1 as int, c.n2 as int);
        spec_mul(spec_mul(n_ratio, n_ratio), spec_sub(SCALE as int, spec_mul(cos, cos))) > SCALE
    });
    if tir {
        SCALE
    } else {
        let cos2 = if c.n1 > c.n2 {
            let n_ratio = spec_div(c.n1 as int, c.n2 as int);
            let sin2_t = spec_mul(
                spec_mul(n_ratio, n_ratio),
                spec_sub(SCALE as int, spec_mul(cos, cos)),
            );
            fx::spec_sqrt(spec_sub(SCALE as int, sin2_t))
        } else {
            cos
        };
        let d = spec_div(
            spec_sub(c.n1 as int, c.n2 as int),
            spec_add(c.n1 as int, c.n2 as int),
        );
        let r0 = spec_mul(d, d);
        spec_add(
            r0,
            spec_mul(spec_sub(SCALE as int, r0), fx::spec_powi(spec_sub(SCALE as int, cos2), 5)),
        ) as i64
    }
}

impl PreparedComputations {
    /// The Schlick reflectance at this hit; exactly one whole unit under
    /// total internal reflection.
    pub fn schlick(&self) -> (r: i64)
        ensures
            r == spec_schlick(*self),
    {
        let mut cos = self.eyev.dot(&self.normalv);
        // total internal reflection can only occur when exiting into the
        // less dense medium
        if self.n1 > self.n2 {
            let n_ratio = fx::fx_div(self.n1, self.n2);
            let sin2_t = fx::fx_mul(
                fx::fx_mul(n_ratio, n_ratio),
                fx::fx_sub(SCALE, fx::fx_mul(cos, cos)),
            );
            if sin2_t > SCALE {
                return SCALE;
            }
            cos = fx::fx_sqrt(fx::fx_sub(SCALE, sin2_t));
        }
        let d = fx::fx_div(fx::fx_sub(self.n1, self.n2), fx::fx_add(self.n1, self.n2));
        let r0 = fx::fx_mul(d, d);
        fx::fx_add(r0, fx::fx_mul(fx::fx_sub(SCALE, r0), fx::fx_powi(fx::fx_sub(SCALE, cos), 5)))
    }
}

impl Intersection {
    pub fn new(t: i64, object: usize) -> (i: Intersection)
        ensures
            i == (Intersection { t, object }),
    {
        Intersection { t, object }
    }

    fn insert_sorted_exec(x: Intersection, s: Vec<Intersection>) -> (r: Vec<Intersection>)
        ensures
            r@ == insert_sorted(x, s@),
        decreases s@.len(),
    {
        if s.len() == 0 {
            let mut r: Vec<Intersection> = Vec::new();
            r.push(x);
            proof {
                assert(r@ =~= seq![x]);
            }
            r
        } else if x.t < s[0].t {
            let mut r = s;
            r.insert(0, x);
            proof {
                assert(r@ =~= seq![x] + s@);
            }
            r
        } else {
            let mut rest = s;
            let first = rest.remove(0);
            proof {
                assert(rest@ =~= s@.drop_first());
            }
            let mut r = Intersection::insert_sorted_exec(x, rest);
            r.insert(0, first);
            proof {
                assert(r@ =~= seq![first] + insert_sorted(x, s@.drop_first()));
            }
            r
        }
    }

    /// Sorts intersections ascending by `t` (insertion sort, stable).
    pub fn sort(xs: Vec<Intersection>) -> (r: Vec<Intersection>)
        ensures
            r@ == sort_by_t(xs@),
            sorted_by_t(r@),
            r@.to_multiset() == xs@.to_multiset(),
    {
        let mut acc: Vec<Intersection> = Vec::new();
        let mut i: usize = 0;
        while i < xs.len()
            invariant
                i <= xs@.len(),
                acc@ == sort_by_t(xs@.take(i as int)),
            decreases xs@.len() - i,
        {
            acc = Intersection::insert_sorted_exec(xs[i], acc);
            proof {
                let pre = xs@.take(i as int);
                let post = xs@.take(i + 1int);
                assert(post.drop_last() =~= pre);
                assert(post.last() == xs@[i as int]);
            }
            i = i + 1;
        }
        proof {
            assert(xs@.take(xs@.len() as int) =~= xs@);
            lemma_sort_by_t(xs@);
        }
        acc
    }


    /// Finds the first index of `x` in the container stack.
    fn position_of(v: &Vec<usize>, x: usize) -> (r: Option<usize>)
        ensures
            r matches Some(p) ==> p < v@.len() && v@[p as int] == x && (forall|j: int|
                0 <= j < p ==> v@[j] != x),
            r is None ==> !v@.contains(x),
    {
        let mut i: usize = 0;
        while i < v.len()
            invariant
                i <= v@.len(),
                forall|j: int| 0 <= j < i ==> v@[j] != x,
            decreases v@.len() - i,
        {
            if v[i] == x {
                return Some(i);
            }
            i = i + 1;
        }
        proof {
            if v@.contains(x) {
                let j = choose|j: int| 0 <= j < v@.len() && v@[j] == x;
            }
        }
        None
    }

    /// Assembles the full optical state at this hit: surface point, offset
    /// probe points, eye, (possibly flipped) normal, reflection vector, and
    /// the refractive indices found by the container-stack walk over the
    /// whole ascending intersection list.
    pub fn prepare_computations(
        &self,
        arena: &Arena,
        r: &Ray,
        xs: &Vec<Intersection>,
    ) -> (comps: PreparedComputations)
        requires
            wf_arena(*arena),
            arena.valid(self.object as int),
            !(arena.shape(self.object as int) is Group),
            objects_shadeable(*arena, xs@),
        ensures
            comps == spec_prepare(*arena, *self, *r, xs@),
    {
        let point = r.position(self.t);
        let eyev = r.direction.neg();
        let temp_normalv = arena.get(self.object).normal_at(arena, point);
        let (inside, normalv) = if temp_normalv.dot(&eyev) < 0 {
            (true, temp_normalv.neg())
        } else {
            (false, temp_normalv)
        };
        let under_point = point.sub(normalv.mul_scalar(EPSILON));
        let over_point = point.add(normalv.mul_scalar(EPSILON));
        let reflectv = r.direction.reflect(normalv);

        // walk the list, keeping the stack of shapes the ray is inside
        let mut n1: i64 = SCALE;
        let mut n2: i64 = SCALE;
        let mut containers: Vec<usize> = Vec::new();
        let mut k: usize = 0;
        let mut found = false;
        proof {
            assert(xs@.skip(0) =~= xs@);
            assert(containers@ =~= Seq::<usize>::empty());
        }
        while k < xs.len() && !found
            invariant
                wf_arena(*arena),
                objects_shadeable(*arena, xs@),
                k <= xs@.len(),
                containers@.no_duplicates(),
                forall|j: int|
                    0 <= j < containers@.len() ==> arena.valid(
                        #[trigger] containers@[j] as int,
                    ) && !(arena.shape(containers@[j] as int) is Group),
                !found ==> spec_n1_n2(*arena, xs@, *self, Seq::empty()) == spec_n1_n2(
                    *arena,
                    xs@.skip(k as int),
                    *self,
                    containers@,
                ),
                found ==> (n1, n2) == spec_n1_n2(*arena, xs@, *self, Seq::empty()),
                !found ==> (n1, n2) == (SCALE, SCALE),
            decreases xs@.len() - k,
        {
            let i = xs[k];
            let ghost pre_containers = containers@;
            if i == *self {
                if containers.len() == 0 {
                    n1 = SCALE;
                } else {
                    let top = containers[containers.len() - 1];
                    n1 = arena.get(top).material().refractive_index;
                }
            }
            match Intersection::position_of(&containers, i.object) {
                Option::Some(pos) => {
                    proof {
                        assert(pre_containers.contains(i.object)) by {
                            assert(pre_containers[pos as int] == i.object);
                        }
                        let c = pre_containers.index_of(i.object);
                        assert(0 <= c < pre_containers.len() && pre_containers[c] == i.object);
                        assert(c == pos as int);
                    }
                    containers.remove(pos);
                },
                Option::None => {
                    containers.push(i.object);
                },
            }
            proof {
                assert(containers@ == spec_toggle(pre_containers, i.object));
                assert(containers@.no_duplicates()) by {
                    if pre_containers.contains(i.object) {
                        let p = pre_containers.index_of(i.object);
                        assert forall|x: int, y: int|
                            0 <= x < containers@.len() && 0 <= y < containers@.len() && x != y
                            implies containers@[x] != containers@[y] by {
                            let xo = if x < p { x } else { x + 1 };
                            let yo = if y < p { y } else { y + 1 };
                            assert(containers@[x] == pre_containers[xo]);
                            assert(containers@[y] == pre_containers[yo]);
                        }
                    } else {
                        assert forall|x: int, y: int|
                            0 <= x < containers@.len() && 0 <= y < containers@.len() && x != y
                            implies containers@[x] != containers@[y] by {
                            if x < pre_containers.len() && y < pre_containers.len() {
                            } else if x < pre_containers.len() {
                                assert(pre_containers.contains(pre_containers[x]) && containers@[y]
                                    == i.object) by {
                                    assert(pre_containers[x] == pre_containers[x]);
                                }
                            } else if y < pre_containers.len() {
                                assert(pre_containers.contains(pre_containers[y]) && containers@[x]
                                    == i.object);
                            }
                        }
                    }
                }
                assert forall|j: int|
                    0 <= j < containers@.len() implies arena.valid(
                    #[trigger] containers@[j] as int,
                ) && !(arena.shape(containers@[j] as int) is Group) by {
                    if pre_containers.contains(i.object) {
                        let p = pre_containers.index_of(i.object);
                        if j < p {
                            assert(containers@[j] == pre_containers[j]);
                        } else {
                            assert(containers@[j] == pre_containers[j + 1]);
                        }
                    } else {
                        if j < pre_containers.len() {
                            assert(containers@[j] == pre_containers[j]);
                        } else {
                            assert(containers@[j] == i.object);
                            assert(xs@[k as int].object == i.object);
                        }
                    }
                }
            }
            if i == *self {
                if containers.len() == 0 {
                    n2 = SCALE;
                } else {
                    let top = containers[containers.len() - 1];
                    n2 = arena.get(top).material().refractive_index;
                }
                found = true;
                proof {
                    assert(xs@.skip(k as int)[0] == xs@[k as int]);
                }
            } else {
                proof {
                    assert(xs@.skip(k as int)[0] == xs@[k as int]);
                    assert(xs@.skip(k as int).drop_first() =~= xs@.skip(k + 1int));
                }
            }
            k = k + 1;
        }
        proof {
            if !found {
                assert(xs@.skip(k as int).len() == 0 ==> spec_n1_n2(
                    *arena,
                    xs@.skip(k as int),
                    *self,
                    containers@,
                ) == (SCALE, SCALE));
            }
        }

        PreparedComputations {
            t: self.t,
            object: self.object,
            point,
            under_point,
            over_point,
            eyev,
            normalv,
            inside,
            reflectv,
            n1,
            n2,
        }
    }

    /// The smallest non-negative `t` wins; an all-negative sequence has no
    /// hit.  Of equal smallest parameters the first encountered is kept.
    pub fn hit(xs: &Vec<Intersection>) -> (r: Option<Intersection>)
        ensures
            r == spec_hit(xs@),
            r is Some ==> {
                let h = r->0;
                &&& h.t >= 0
                &&& xs@.contains(h)
                &&& forall|j: int| 0 <= j < xs@.len() && xs@[j].t >= 0 ==> h.t <= xs@[j].t
            },
            r is None <==> (forall|j: int| 0 <= j < xs@.len() ==> xs@[j].t < 0),
    {
        let mut best: Option<Intersection> = None;
        let ghost mut best_k: int = -1;
        let mut i: usize = 0;
        while i < xs.len()
            invariant
                i <= xs@.len(),
                best is None ==> (forall|j: int| 0 <= j < i ==> xs@[j].t < 0) && best_k == -1,
                best is Some ==> {
                    let h = best->0;
                    &&& 0 <= best_k < i
                    &&& xs@[best_k] == h
                    &&& h.t >= 0
                    &&& forall|j: int| 0 <= j < i && xs@[j].t >= 0 ==> h.t <= xs@[j].t
                    &&& forall|j: int| 0 <= j < best_k ==> !(xs@[j].t >= 0 && xs@[j].t <= h.t)
                },
            decreases xs@.len() - i,
        {
            let x = xs[i];
            match best {
                Option::None => {
                    if x.t >= 0 {
                        best = Some(x);
                        proof {
                            best_k = i as int;
                        }
                    }
                },
                Option::Some(b) => {
                    if x.t >= 0 && x.t < b.t {
                        best = Some(x);
                        proof {
                            best_k = i as int;
                        }
                    }
                },
            }
            i = i + 1;
        }
        proof {
            if best is Some {
                let h = best->0;
                assert(0 <= best_k < xs@.len() && xs@[best_k].t >= 0);
                let k = choose|k: int|
                    0 <= k < xs@.len() && xs@[k].t >= 0 && (forall|j: int|
                        0 <= j < xs@.len() && xs@[j].t >= 0 ==> xs@[k].t <= xs@[j].t) && (
                    forall|j: int|
                        0 <= j < k ==> !(xs@[j].t >= 0 && xs@[j].t <= xs@[k].t));
                assert(xs@[best_k].t >= 0 && (forall|j: int|
                    0 <= j < xs@.len() && xs@[j].t >= 0 ==> xs@[best_k].t <= xs@[j].t) && (
                forall|j: int|
                    0 <= j < best_k ==> !(xs@[j].t >= 0 && xs@[j].t <= xs@[best_k].t)));
                assert(xs@[k] == xs@[best_k]) by {
                    assert(xs@[k].t == xs@[best_k].t);
                    if k < best_k {
                        assert(xs@[k].t >= 0 && xs@[k].t <= xs@[best_k].t);
                    }
                    if best_k < k {
                        assert(xs@[best_k].t >= 0 && xs@[best_k].t <= xs@[k].t);
                    }
                }
                assert(xs@.contains(h));
            }
        }
        best
    }
}

} // verus!
