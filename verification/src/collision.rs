use vstd::prelude::*;
use crate::body::{lemma_total_mass_push, lemma_total_mass_remove, total_mass, Body};

verus! {

/// Of body `i` and each body at an index in `lo..hi`, `collides` can say
/// that the two do not touch.
pub open spec fn no_contact<V, S, C: Fn(&Body<V, S>, &Body<V, S>) -> bool>(
    bodies: Seq<Body<V, S>>,
    i: int,
    lo: int,
    hi: int,
    collides: C,
) -> bool {
    forall|k: int|
        lo <= k < hi ==> call_ensures(collides, (&bodies[i], &#[trigger] bodies[k]), false)
}

/// `j` is the first index behind `i` whose body touches body `i`: `collides`
/// says so of the two, and can say the contrary of every body between.
pub open spec fn first_contact_at<V, S, C: Fn(&Body<V, S>, &Body<V, S>) -> bool>(
    bodies: Seq<Body<V, S>>,
    i: int,
    j: int,
    collides: C,
) -> bool {
    &&& 0 <= i < j < bodies.len()
    &&& no_contact(bodies, i, i + 1, j, collides)
    &&& call_ensures(collides, (&bodies[i], &bodies[j]), true)
}

/// No body behind `i` touches body `i`; vacuous where `i` is the last index
/// or beyond.
pub open spec fn untouched<V, S, C: Fn(&Body<V, S>, &Body<V, S>) -> bool>(
    bodies: Seq<Body<V, S>>,
    i: int,
    collides: C,
) -> bool {
    0 <= i && (i + 1 >= bodies.len() || no_contact(bodies, i, i + 1, bodies.len() as int, collides))
}

/// `after` is `before` with the bodies at `i` and `j` taken out and one body,
/// an answer of `merge` to the two, put at the end.
pub open spec fn merged_pair<V, S, M: Fn(&Body<V, S>, &Body<V, S>) -> Body<V, S>>(
    before: Seq<Body<V, S>>,
    after: Seq<Body<V, S>>,
    i: int,
    j: int,
    merge: M,
) -> bool {
    &&& 0 <= i < j < before.len()
    &&& after.len() == before.len() - 1
    &&& after.drop_last() == before.remove(j).remove(i)
    &&& call_ensures(merge, (&before[i], &before[j]), after.last())
}

/// What the sweep does at index `i`: nothing where no body behind `i`
/// touches body `i`, else the merge of body `i` with the first that does.
pub open spec fn settled_at<
    V,
    S,
    C: Fn(&Body<V, S>, &Body<V, S>) -> bool,
    M: Fn(&Body<V, S>, &Body<V, S>) -> Body<V, S>,
>(before: Seq<Body<V, S>>, after: Seq<Body<V, S>>, i: int, collides: C, merge: M) -> bool {
    ||| untouched(before, i, collides) && after == before
    ||| exists|j: int| #[trigger]
            first_contact_at(before, i, j, collides) && merged_pair(before, after, i, j, merge)
}

/// Stage `i + 1` of a sweep comes from stage `i` by what the sweep does at
/// index `i`.
pub open spec fn settles<
    V,
    S,
    C: Fn(&Body<V, S>, &Body<V, S>) -> bool,
    M: Fn(&Body<V, S>, &Body<V, S>) -> Body<V, S>,
>(stages: Seq<Seq<Body<V, S>>>, i: int, collides: C, merge: M) -> bool {
    settled_at(stages[i], stages[i + 1], i, collides, merge)
}

/// `stages` records a whole sweep over `before`: one stage for the start and
/// one behind each index of `before`, dealt with in rising order. An index
/// that merges has shortened the population, so late indices may find
/// nothing left to test.
pub open spec fn sweep_trace<
    V,
    S,
    C: Fn(&Body<V, S>, &Body<V, S>) -> bool,
    M: Fn(&Body<V, S>, &Body<V, S>) -> Body<V, S>,
>(
    stages: Seq<Seq<Body<V, S>>>,
    before: Seq<Body<V, S>>,
    after: Seq<Body<V, S>>,
    collides: C,
    merge: M,
) -> bool {
    &&& stages.len() == before.len() + 1
    &&& stages.first() == before
    &&& stages.last() == after
    &&& forall|i: int| 0 <= i < before.len() ==> #[trigger] settles(stages, i, collides, merge)
}

/// `after` is what one collision sweep makes of `before`.
pub open spec fn swept<
    V,
    S,
    C: Fn(&Body<V, S>, &Body<V, S>) -> bool,
    M: Fn(&Body<V, S>, &Body<V, S>) -> Body<V, S>,
>(before: Seq<Body<V, S>>, after: Seq<Body<V, S>>, collides: C, merge: M) -> bool {
    exists|stages: Seq<Seq<Body<V, S>>>| sweep_trace(stages, before, after, collides, merge)
}

/// Finds the first body behind `i` that body `i` touches, testing the
/// candidates in rising order and stopping at the first hit.
pub fn first_contact<V, S, C: Fn(&Body<V, S>, &Body<V, S>) -> bool>(
    bodies: &Vec<Body<V, S>>,
    i: usize,
    collides: &C,
) -> (found: Option<usize>)
    requires
        forall|a: &Body<V, S>, b: &Body<V, S>| call_requires(*collides, (a, b)),
    ensures
        match found {
            Some(j) => first_contact_at(bodies@, i as int, j as int, *collides),
            None => untouched(bodies@, i as int, *collides),
        },
{
    if i >= bodies.len() {
        return None;
    }
    let mut j: usize = i + 1;
    while j < bodies.len()
        invariant
            i < j <= bodies.len(),
            forall|a: &Body<V, S>, b: &Body<V, S>| call_requires(*collides, (a, b)),
            no_contact(bodies@, i as int, i + 1, j as int, *collides),
        decreases bodies.len() - j,
    {
        if collides(&bodies[i], &bodies[j]) {
            return Some(j);
        }
        j += 1;
    }
    None
}

/// Replaces the bodies at `i` and `j` by `merged`: the new body goes to the
/// end, then the higher index leaves before the lower one.
pub fn merge_pair<V, S>(bodies: &mut Vec<Body<V, S>>, i: usize, j: usize, merged: Body<V, S>)
    requires
        i < j < old(bodies).len(),
    ensures
        final(bodies)@ == old(bodies)@.remove(j as int).remove(i as int).push(merged),
{
    bodies.push(merged);
    bodies.remove(j);
    bodies.remove(i);
}

/// Deals with index `i`: merges body `i` with the first body behind it that
/// it touches, if there is one. Says whether a merge took place.
pub fn settle<
    V,
    S,
    C: Fn(&Body<V, S>, &Body<V, S>) -> bool,
    M: Fn(&Body<V, S>, &Body<V, S>) -> Body<V, S>,
>(bodies: &mut Vec<Body<V, S>>, i: usize, collides: &C, merge: &M) -> (merged: bool)
    requires
        forall|a: &Body<V, S>, b: &Body<V, S>| call_requires(*collides, (a, b)),
        forall|a: &Body<V, S>, b: &Body<V, S>| call_requires(*merge, (a, b)),
    ensures
        settled_at(old(bodies)@, final(bodies)@, i as int, *collides, *merge),
        merged ==> final(bodies).len() + 1 == old(bodies).len(),
        !merged ==> final(bodies)@ == old(bodies)@,
{
    match first_contact(bodies, i, collides) {
        Some(j) => {
            let merged = merge(&bodies[i], &bodies[j]);
            merge_pair(bodies, i, j, merged);
            proof {
                let before = old(bodies)@;
                assert(bodies@.drop_last() =~= before.remove(j as int).remove(i as int));
                assert(first_contact_at(before, i as int, j as int, *collides)
                    && merged_pair(before, bodies@, i as int, j as int, *merge));
            }
            true
        },
        None => false,
    }
}

/// The collision sweep: deals with every index of the population as it was
/// at the start, in rising order, with at most one merge per index.
pub fn resolve_collisions<
    V,
    S,
    C: Fn(&Body<V, S>, &Body<V, S>) -> bool,
    M: Fn(&Body<V, S>, &Body<V, S>) -> Body<V, S>,
>(bodies: &mut Vec<Body<V, S>>, collides: &C, merge: &M)
    requires
        forall|a: &Body<V, S>, b: &Body<V, S>| call_requires(*collides, (a, b)),
        forall|a: &Body<V, S>, b: &Body<V, S>| call_requires(*merge, (a, b)),
    ensures
        swept(old(bodies)@, final(bodies)@, *collides, *merge),
{
    let rounds = bodies.len();
    let ghost mut stages: Seq<Seq<Body<V, S>>> = seq![bodies@];
    let mut i: usize = 0;
    while i < rounds
        invariant
            i <= rounds,
            rounds == old(bodies).len(),
            stages.len() == i + 1,
            stages.first() == old(bodies)@,
            stages.last() == bodies@,
            forall|k: int| 0 <= k < i ==> #[trigger] settles(stages, k, *collides, *merge),
            forall|a: &Body<V, S>, b: &Body<V, S>| call_requires(*collides, (a, b)),
            forall|a: &Body<V, S>, b: &Body<V, S>| call_requires(*merge, (a, b)),
        decreases rounds - i,
    {
        let ghost earlier = stages;
        settle(bodies, i, collides, merge);
        proof {
            stages = earlier.push(bodies@);
            assert forall|k: int| 0 <= k < i + 1 implies #[trigger] settles(
                stages,
                k,
                *collides,
                *merge,
            ) by {
                if k < i {
                    assert(settles(earlier, k, *collides, *merge));
                }
            }
        }
        i += 1;
    }
    proof {
        assert(sweep_trace(stages, old(bodies)@, bodies@, *collides, *merge));
    }
}

/// `merge` adds masses up: the mass of whatever it makes of two bodies is,
/// as `weigh` reads masses, the sum of theirs.
pub open spec fn adds_masses<V, S, M: Fn(&Body<V, S>, &Body<V, S>) -> Body<V, S>>(
    merge: M,
    weigh: spec_fn(S) -> real,
) -> bool {
    forall|a: Body<V, S>, b: Body<V, S>, merged: Body<V, S>| #[trigger]
        call_ensures(merge, (&a, &b), merged) ==> weigh(merged.mass) == weigh(a.mass) + weigh(
            b.mass,
        )
}

/// Dealing with one index leaves the population as long as it was or makes
/// it one shorter, and never empties it.
pub proof fn lemma_settled_count<
    V,
    S,
    C: Fn(&Body<V, S>, &Body<V, S>) -> bool,
    M: Fn(&Body<V, S>, &Body<V, S>) -> Body<V, S>,
>(before: Seq<Body<V, S>>, after: Seq<Body<V, S>>, i: int, collides: C, merge: M)
    requires
        settled_at(before, after, i, collides, merge),
    ensures
        after.len() == before.len() || after.len() + 1 == before.len(),
        before.len() > 0 ==> after.len() > 0,
{
}

/// Dealing with one index keeps the total mass, where `merge` adds masses
/// up.
pub proof fn lemma_settled_mass<
    V,
    S,
    C: Fn(&Body<V, S>, &Body<V, S>) -> bool,
    M: Fn(&Body<V, S>, &Body<V, S>) -> Body<V, S>,
>(
    before: Seq<Body<V, S>>,
    after: Seq<Body<V, S>>,
    i: int,
    collides: C,
    merge: M,
    weigh: spec_fn(S) -> real,
)
    requires
        settled_at(before, after, i, collides, merge),
        adds_masses(merge, weigh),
    ensures
        total_mass(after, weigh) == total_mass(before, weigh),
{
    if after != before {
        let j = choose|j: int| #[trigger]
            first_contact_at(before, i, j, collides) && merged_pair(before, after, i, j, merge);
        lemma_total_mass_remove(before, j, weigh);
        lemma_total_mass_remove(before.remove(j), i, weigh);
        lemma_total_mass_push(after.drop_last(), after.last(), weigh);
        assert(after.drop_last().push(after.last()) =~= after);
    }
}

/// The stages of a sweep never grow, never run empty, and keep the total
/// mass where `merge` adds masses up.
proof fn lemma_sweep_stage<
    V,
    S,
    C: Fn(&Body<V, S>, &Body<V, S>) -> bool,
    M: Fn(&Body<V, S>, &Body<V, S>) -> Body<V, S>,
>(
    stages: Seq<Seq<Body<V, S>>>,
    before: Seq<Body<V, S>>,
    after: Seq<Body<V, S>>,
    k: int,
    collides: C,
    merge: M,
    weigh: spec_fn(S) -> real,
)
    requires
        sweep_trace(stages, before, after, collides, merge),
        0 <= k <= before.len(),
    ensures
        stages[k].len() <= before.len(),
        before.len() > 0 ==> stages[k].len() > 0,
        adds_masses(merge, weigh) ==> total_mass(stages[k], weigh) == total_mass(before, weigh),
    decreases k,
{
    if k > 0 {
        lemma_sweep_stage(stages, before, after, k - 1, collides, merge, weigh);
        assert(settles(stages, k - 1, collides, merge));
        lemma_settled_count(stages[k - 1], stages[k], k - 1, collides, merge);
        if adds_masses(merge, weigh) {
            lemma_settled_mass(stages[k - 1], stages[k], k - 1, collides, merge, weigh);
        }
    }
}

/// A sweep never adds a body, and leaves at least one where there was one.
pub proof fn lemma_swept_count<
    V,
    S,
    C: Fn(&Body<V, S>, &Body<V, S>) -> bool,
    M: Fn(&Body<V, S>, &Body<V, S>) -> Body<V, S>,
>(before: Seq<Body<V, S>>, after: Seq<Body<V, S>>, collides: C, merge: M)
    requires
        swept(before, after, collides, merge),
    ensures
        after.len() <= before.len(),
        before.len() > 0 ==> after.len() > 0,
{
    let stages = choose|stages: Seq<Seq<Body<V, S>>>|
        sweep_trace(stages, before, after, collides, merge);
    lemma_sweep_stage(stages, before, after, before.len() as int, collides, merge, |mass: S| 0real);
}

/// A sweep keeps the total mass, however masses are read as numbers, as
/// long as `merge` adds them up.
pub proof fn lemma_swept_mass<
    V,
    S,
    C: Fn(&Body<V, S>, &Body<V, S>) -> bool,
    M: Fn(&Body<V, S>, &Body<V, S>) -> Body<V, S>,
>(
    before: Seq<Body<V, S>>,
    after: Seq<Body<V, S>>,
    collides: C,
    merge: M,
    weigh: spec_fn(S) -> real,
)
    requires
        swept(before, after, collides, merge),
        adds_masses(merge, weigh),
    ensures
        total_mass(after, weigh) == total_mass(before, weigh),
{
    let stages = choose|stages: Seq<Seq<Body<V, S>>>|
        sweep_trace(stages, before, after, collides, merge);
    lemma_sweep_stage(stages, before, after, before.len() as int, collides, merge, weigh);
}

/// Among bodies of which no two touch, a sweep changes nothing.
pub proof fn lemma_swept_apart<
    V,
    S,
    C: Fn(&Body<V, S>, &Body<V, S>) -> bool,
    M: Fn(&Body<V, S>, &Body<V, S>) -> Body<V, S>,
>(before: Seq<Body<V, S>>, after: Seq<Body<V, S>>, collides: C, merge: M)
    requires
        swept(before, after, collides, merge),
        forall|i: int, j: int|
            0 <= i < j < before.len() ==> !call_ensures(
                collides,
                (&#[trigger] before[i], &#[trigger] before[j]),
                true,
            ),
    ensures
        after == before,
{
    let stages = choose|stages: Seq<Seq<Body<V, S>>>|
        sweep_trace(stages, before, after, collides, merge);
    lemma_sweep_apart_stage(stages, before, after, before.len() as int, collides, merge);
}

/// Among bodies of which no two touch, every stage of a sweep is the
/// population as it was.
proof fn lemma_sweep_apart_stage<
    V,
    S,
    C: Fn(&Body<V, S>, &Body<V, S>) -> bool,
    M: Fn(&Body<V, S>, &Body<V, S>) -> Body<V, S>,
>(
    stages: Seq<Seq<Body<V, S>>>,
    before: Seq<Body<V, S>>,
    after: Seq<Body<V, S>>,
    k: int,
    collides: C,
    merge: M,
)
    requires
        sweep_trace(stages, before, after, collides, merge),
        0 <= k <= before.len(),
        forall|i: int, j: int|
            0 <= i < j < before.len() ==> !call_ensures(
                collides,
                (&#[trigger] before[i], &#[trigger] before[j]),
                true,
            ),
    ensures
        stages[k] == before,
    decreases k,
{
    if k > 0 {
        lemma_sweep_apart_stage(stages, before, after, k - 1, collides, merge);
        assert(settles(stages, k - 1, collides, merge));
    }
}

} // verus!
