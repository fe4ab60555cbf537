use vstd::prelude::*;
use crate::body::Body;
use crate::pairs::{lemma_pairs_len, pairs, row, rows};

verus! {

/// What one pair does to the population: `pull` is asked about the bodies at
/// `i` and `j`, the constant `constant` and the time `delta_time`. Where it
/// answers with nothing, the two do not act on each other and nothing
/// changes. Where it answers with two velocities, they become the velocities
/// at `i` and at `j`, and nothing else changes.
pub open spec fn pulled_pair<V, S, P: Fn(&Body<V, S>, &Body<V, S>, &S, &S) -> Option<(V, V)>>(
    before: Seq<Body<V, S>>,
    after: Seq<Body<V, S>>,
    i: int,
    j: int,
    constant: S,
    delta_time: S,
    pull: P,
) -> bool {
    &&& 0 <= i < j < before.len()
    &&& after.len() == before.len()
    &&& {
        ||| call_ensures(pull, (&before[i], &before[j], &constant, &delta_time), None)
            && after == before
        ||| call_ensures(
            pull,
            (&before[i], &before[j], &constant, &delta_time),
            Some((after[i].velocity, after[j].velocity)),
        ) && after == before.update(i, before[i].with_velocity(after[i].velocity)).update(
            j,
            before[j].with_velocity(after[j].velocity),
        )
    }
}

/// Stage `k + 1` comes from stage `k` by what the pair `order[k]` does.
pub open spec fn pulls<V, S, P: Fn(&Body<V, S>, &Body<V, S>, &S, &S) -> Option<(V, V)>>(
    stages: Seq<Seq<Body<V, S>>>,
    order: Seq<(int, int)>,
    k: int,
    constant: S,
    delta_time: S,
    pull: P,
) -> bool {
    pulled_pair(stages[k], stages[k + 1], order[k].0, order[k].1, constant, delta_time, pull)
}

/// `stages` records the pairs of `order` acting one after the other.
pub open spec fn pull_trace<V, S, P: Fn(&Body<V, S>, &Body<V, S>, &S, &S) -> Option<(V, V)>>(
    stages: Seq<Seq<Body<V, S>>>,
    order: Seq<(int, int)>,
    before: Seq<Body<V, S>>,
    after: Seq<Body<V, S>>,
    constant: S,
    delta_time: S,
    pull: P,
) -> bool {
    &&& stages.len() == order.len() + 1
    &&& stages.first() == before
    &&& stages.last() == after
    &&& forall|k: int|
        0 <= k < order.len() ==> #[trigger] pulls(stages, order, k, constant, delta_time, pull)
}

/// `after` is `before` once every pair of bodies has acted on each other,
/// each pair once and in the order of `pairs`.
pub open spec fn attracted<V, S, P: Fn(&Body<V, S>, &Body<V, S>, &S, &S) -> Option<(V, V)>>(
    before: Seq<Body<V, S>>,
    after: Seq<Body<V, S>>,
    constant: S,
    delta_time: S,
    pull: P,
) -> bool {
    exists|stages: Seq<Seq<Body<V, S>>>|
        pull_trace(stages, pairs(before.len()), before, after, constant, delta_time, pull)
}

/// `after` has the length, the positions and the masses of `before`.
pub open spec fn same_but_velocities<V, S>(
    before: Seq<Body<V, S>>,
    after: Seq<Body<V, S>>,
) -> bool {
    &&& after.len() == before.len()
    &&& forall|k: int|
        0 <= k < before.len() ==> (#[trigger] after[k]).position == before[k].position
            && after[k].mass == before[k].mass
}

/// Every stage of the bodies acting on each other has the length, the
/// positions and the masses of the first.
proof fn lemma_pull_stage<V, S, P: Fn(&Body<V, S>, &Body<V, S>, &S, &S) -> Option<(V, V)>>(
    stages: Seq<Seq<Body<V, S>>>,
    order: Seq<(int, int)>,
    before: Seq<Body<V, S>>,
    after: Seq<Body<V, S>>,
    k: int,
    constant: S,
    delta_time: S,
    pull: P,
)
    requires
        pull_trace(stages, order, before, after, constant, delta_time, pull),
        0 <= k <= order.len(),
    ensures
        same_but_velocities(before, stages[k]),
    decreases k,
{
    if k > 0 {
        lemma_pull_stage(stages, order, before, after, k - 1, constant, delta_time, pull);
        assert(pulls(stages, order, k - 1, constant, delta_time, pull));
    }
}

/// Bodies that act on each other keep their number, their order, their
/// positions and their masses: only velocities change.
pub proof fn lemma_attracted_frame<
    V,
    S,
    P: Fn(&Body<V, S>, &Body<V, S>, &S, &S) -> Option<(V, V)>,
>(before: Seq<Body<V, S>>, after: Seq<Body<V, S>>, constant: S, delta_time: S, pull: P)
    requires
        attracted(before, after, constant, delta_time, pull),
    ensures
        same_but_velocities(before, after),
{
    let order = pairs(before.len());
    let stages = choose|stages: Seq<Seq<Body<V, S>>>|
        pull_trace(stages, order, before, after, constant, delta_time, pull);
    lemma_pull_stage(stages, order, before, after, order.len() as int, constant, delta_time, pull);
}

/// A body that is alone acts on nothing, and nothing acts on it.
pub proof fn lemma_attracted_alone<
    V,
    S,
    P: Fn(&Body<V, S>, &Body<V, S>, &S, &S) -> Option<(V, V)>,
>(before: Seq<Body<V, S>>, after: Seq<Body<V, S>>, constant: S, delta_time: S, pull: P)
    requires
        attracted(before, after, constant, delta_time, pull),
        before.len() <= 1,
    ensures
        after == before,
{
    lemma_pairs_len(before.len());
    assert(before.len() * (before.len() - 1) == 0) by (nonlinear_arith)
        requires
            before.len() <= 1,
    ;
}

/// `pull` has nothing but "nothing" to answer for any two bodies of
/// `bodies`, lower index first.
pub open spec fn all_idle<V, S, P: Fn(&Body<V, S>, &Body<V, S>, &S, &S) -> Option<(V, V)>>(
    bodies: Seq<Body<V, S>>,
    constant: S,
    delta_time: S,
    pull: P,
) -> bool {
    forall|i: int, j: int, answer: Option<(V, V)>|
        0 <= i < j < bodies.len() && #[trigger] call_ensures(
            pull,
            (&bodies[i], &bodies[j], &constant, &delta_time),
            answer,
        ) ==> answer.is_none()
}

/// Where no two bodies act on each other, every stage is the population as
/// it was.
proof fn lemma_idle_stage<V, S, P: Fn(&Body<V, S>, &Body<V, S>, &S, &S) -> Option<(V, V)>>(
    stages: Seq<Seq<Body<V, S>>>,
    before: Seq<Body<V, S>>,
    after: Seq<Body<V, S>>,
    k: int,
    constant: S,
    delta_time: S,
    pull: P,
)
    requires
        pull_trace(stages, pairs(before.len()), before, after, constant, delta_time, pull),
        all_idle(before, constant, delta_time, pull),
        0 <= k <= pairs(before.len()).len(),
    ensures
        stages[k] == before,
    decreases k,
{
    if k > 0 {
        lemma_idle_stage(stages, before, after, k - 1, constant, delta_time, pull);
        assert(pulls(stages, pairs(before.len()), k - 1, constant, delta_time, pull));
    }
}

/// Bodies of which no two act on each other, such as bodies that all stand
/// in one place, come out as they went in.
pub proof fn lemma_attracted_idle<
    V,
    S,
    P: Fn(&Body<V, S>, &Body<V, S>, &S, &S) -> Option<(V, V)>,
>(before: Seq<Body<V, S>>, after: Seq<Body<V, S>>, constant: S, delta_time: S, pull: P)
    requires
        attracted(before, after, constant, delta_time, pull),
        all_idle(before, constant, delta_time, pull),
    ensures
        after == before,
{
    let order = pairs(before.len());
    let stages = choose|stages: Seq<Seq<Body<V, S>>>|
        pull_trace(stages, order, before, after, constant, delta_time, pull);
    lemma_idle_stage(stages, before, after, order.len() as int, constant, delta_time, pull);
}

/// Lets the bodies at `i` and `j` act on each other.
pub fn pull_pair<V, S, P: Fn(&Body<V, S>, &Body<V, S>, &S, &S) -> Option<(V, V)>>(
    bodies: &mut Vec<Body<V, S>>,
    i: usize,
    j: usize,
    constant: &S,
    delta_time: &S,
    pull: &P,
)
    requires
        i < j < old(bodies).len(),
        forall|a: &Body<V, S>, b: &Body<V, S>, c: &S, t: &S| call_requires(*pull, (a, b, c, t)),
    ensures
        pulled_pair(
            old(bodies)@,
            final(bodies)@,
            i as int,
            j as int,
            *constant,
            *delta_time,
            *pull,
        ),
{
    match pull(&bodies[i], &bodies[j], constant, delta_time) {
        Some((first, second)) => {
            bodies[i].velocity = first;
            bodies[j].velocity = second;
            proof {
                let before = old(bodies)@;
                assert(bodies@ =~= before.update(
                    i as int,
                    before[i as int].with_velocity(first),
                ).update(j as int, before[j as int].with_velocity(second)));
            }
        },
        None => {},
    }
}

/// Lets every pair of bodies act on each other once: index `i` with each
/// index behind it, for rising `i`.
pub fn apply_gravity<V, S, P: Fn(&Body<V, S>, &Body<V, S>, &S, &S) -> Option<(V, V)>>(
    bodies: &mut Vec<Body<V, S>>,
    constant: &S,
    delta_time: &S,
    pull: &P,
)
    requires
        forall|a: &Body<V, S>, b: &Body<V, S>, c: &S, t: &S| call_requires(*pull, (a, b, c, t)),
    ensures
        attracted(old(bodies)@, final(bodies)@, *constant, *delta_time, *pull),
{
    let n = bodies.len();
    let ghost mut stages: Seq<Seq<Body<V, S>>> = seq![bodies@];
    let ghost mut done: Seq<(int, int)> = Seq::empty();
    let mut i: usize = 0;
    while i < n
        invariant
            i <= n,
            n == old(bodies).len(),
            bodies.len() == n,
            done == rows(n as nat, i as nat),
            pull_trace(stages, done, old(bodies)@, bodies@, *constant, *delta_time, *pull),
            forall|a: &Body<V, S>, b: &Body<V, S>, c: &S, t: &S|
                call_requires(*pull, (a, b, c, t)),
        decreases n - i,
    {
        let mut j: usize = i + 1;
        while j < n
            invariant
                i < j <= n,
                n == old(bodies).len(),
                bodies.len() == n,
                done =~= rows(n as nat, i as nat) + row(n as nat, i as nat).take(j - i - 1),
                pull_trace(stages, done, old(bodies)@, bodies@, *constant, *delta_time, *pull),
                forall|a: &Body<V, S>, b: &Body<V, S>, c: &S, t: &S|
                    call_requires(*pull, (a, b, c, t)),
            decreases n - j,
        {
            let ghost earlier = stages;
            let ghost order = done;
            pull_pair(bodies, i, j, constant, delta_time, pull);
            proof {
                stages = earlier.push(bodies@);
                done = order.push((i as int, j as int));
                assert forall|k: int| 0 <= k < done.len() implies #[trigger] pulls(
                    stages,
                    done,
                    k,
                    *constant,
                    *delta_time,
                    *pull,
                ) by {
                    if k < order.len() {
                        assert(pulls(earlier, order, k, *constant, *delta_time, *pull));
                    }
                }
            }
            j += 1;
        }
        proof {
            assert(row(n as nat, i as nat).take(n - i - 1) =~= row(n as nat, i as nat));
            assert(done =~= rows(n as nat, (i + 1) as nat));
        }
        i += 1;
    }
    proof {
        assert(done == pairs(old(bodies)@.len()));
        assert(pull_trace(
            stages,
            pairs(old(bodies)@.len()),
            old(bodies)@,
            bodies@,
            *constant,
            *delta_time,
            *pull,
        ));
    }
}

} // verus!
