use vstd::prelude::*;
use crate::body::{lemma_total_mass_same, total_mass, Body};
use crate::collision::{
    adds_masses, lemma_swept_count, lemma_swept_mass, resolve_collisions, swept,
};
use crate::gravity::{
    all_idle, apply_gravity, attracted, lemma_attracted_alone, lemma_attracted_frame,
    lemma_attracted_idle,
};
use crate::pairs::{lemma_pairs_len, pairs};

verus! {

/// The settings of a running simulation.
pub struct UniverseSettings<S> {
    pub gravitational_constant: S,
    pub enable_collisions: bool,
}

/// A population of bodies that act on each other, with its settings. The
/// order of the bodies is the order in which they were put in.
pub struct Universe<V, S> {
    pub universe_settings: UniverseSettings<S>,
    pub bodies: Vec<Body<V, S>>,
}

/// `after` is `before` with every body moved along its velocity for
/// `delta_time`.
pub open spec fn integrated<V, S, A: Fn(&V, &V, &S) -> V>(
    before: Seq<Body<V, S>>,
    after: Seq<Body<V, S>>,
    delta_time: S,
    advance: A,
) -> bool {
    &&& after.len() == before.len()
    &&& forall|k: int|
        0 <= k < before.len() ==> before[k].moved_to(#[trigger] after[k], delta_time, advance)
}

/// `after` is `before` one time step later: first the collision sweep, if
/// collisions are enabled; then every pair of bodies acting on each other;
/// then every body moved along its new velocity.
pub open spec fn stepped<
    V,
    S,
    C: Fn(&Body<V, S>, &Body<V, S>) -> bool,
    M: Fn(&Body<V, S>, &Body<V, S>) -> Body<V, S>,
    P: Fn(&Body<V, S>, &Body<V, S>, &S, &S) -> Option<(V, V)>,
    A: Fn(&V, &V, &S) -> V,
>(
    before: Seq<Body<V, S>>,
    after: Seq<Body<V, S>>,
    settings: UniverseSettings<S>,
    delta_time: S,
    collides: C,
    merge: M,
    pull: P,
    advance: A,
) -> bool {
    exists|settled: Seq<Body<V, S>>, pulled: Seq<Body<V, S>>|
        {
            &&& if settings.enable_collisions {
                swept(before, settled, collides, merge)
            } else {
                settled == before
            }
            &&& #[trigger] attracted(
                settled,
                pulled,
                settings.gravitational_constant,
                delta_time,
                pull,
            )
            &&& integrated(pulled, after, delta_time, advance)
        }
}

/// `states` records a run of time steps under one set of settings: state
/// `k + 1` is state `k` one step of `delta_times[k]` later.
pub open spec fn steps<
    V,
    S,
    C: Fn(&Body<V, S>, &Body<V, S>) -> bool,
    M: Fn(&Body<V, S>, &Body<V, S>) -> Body<V, S>,
    P: Fn(&Body<V, S>, &Body<V, S>, &S, &S) -> Option<(V, V)>,
    A: Fn(&V, &V, &S) -> V,
>(
    states: Seq<Seq<Body<V, S>>>,
    k: int,
    settings: UniverseSettings<S>,
    delta_times: Seq<S>,
    collides: C,
    merge: M,
    pull: P,
    advance: A,
) -> bool {
    stepped(states[k], states[k + 1], settings, delta_times[k], collides, merge, pull, advance)
}

/// A time step never adds a body and leaves at least one where there was
/// one. With collisions disabled it keeps the number of bodies.
pub proof fn lemma_stepped_count<
    V,
    S,
    C: Fn(&Body<V, S>, &Body<V, S>) -> bool,
    M: Fn(&Body<V, S>, &Body<V, S>) -> Body<V, S>,
    P: Fn(&Body<V, S>, &Body<V, S>, &S, &S) -> Option<(V, V)>,
    A: Fn(&V, &V, &S) -> V,
>(
    before: Seq<Body<V, S>>,
    after: Seq<Body<V, S>>,
    settings: UniverseSettings<S>,
    delta_time: S,
    collides: C,
    merge: M,
    pull: P,
    advance: A,
)
    requires
        stepped(before, after, settings, delta_time, collides, merge, pull, advance),
    ensures
        after.len() <= before.len(),
        before.len() > 0 ==> after.len() > 0,
        !settings.enable_collisions ==> after.len() == before.len(),
{
    let (settled, pulled) = choose|settled: Seq<Body<V, S>>, pulled: Seq<Body<V, S>>|
        {
            &&& if settings.enable_collisions {
                swept(before, settled, collides, merge)
            } else {
                settled == before
            }
            &&& #[trigger] attracted(
                settled,
                pulled,
                settings.gravitational_constant,
                delta_time,
                pull,
            )
            &&& integrated(pulled, after, delta_time, advance)
        };
    if settings.enable_collisions {
        lemma_swept_count(before, settled, collides, merge);
    }
    lemma_attracted_frame(settled, pulled, settings.gravitational_constant, delta_time, pull);
}

/// A time step keeps the total mass: however masses are read as numbers,
/// as long as `merge` gives the merged body the sum of the two masses, the
/// masses add up to the same before the step and after it.
pub proof fn lemma_stepped_mass<
    V,
    S,
    C: Fn(&Body<V, S>, &Body<V, S>) -> bool,
    M: Fn(&Body<V, S>, &Body<V, S>) -> Body<V, S>,
    P: Fn(&Body<V, S>, &Body<V, S>, &S, &S) -> Option<(V, V)>,
    A: Fn(&V, &V, &S) -> V,
>(
    before: Seq<Body<V, S>>,
    after: Seq<Body<V, S>>,
    settings: UniverseSettings<S>,
    delta_time: S,
    collides: C,
    merge: M,
    pull: P,
    advance: A,
    weigh: spec_fn(S) -> real,
)
    requires
        stepped(before, after, settings, delta_time, collides, merge, pull, advance),
        adds_masses(merge, weigh),
    ensures
        total_mass(after, weigh) == total_mass(before, weigh),
{
    let (settled, pulled) = choose|settled: Seq<Body<V, S>>, pulled: Seq<Body<V, S>>|
        {
            &&& if settings.enable_collisions {
                swept(before, settled, collides, merge)
            } else {
                settled == before
            }
            &&& #[trigger] attracted(
                settled,
                pulled,
                settings.gravitational_constant,
                delta_time,
                pull,
            )
            &&& integrated(pulled, after, delta_time, advance)
        };
    if settings.enable_collisions {
        lemma_swept_mass(before, settled, collides, merge, weigh);
    }
    lemma_attracted_frame(settled, pulled, settings.gravitational_constant, delta_time, pull);
    lemma_total_mass_same(settled, pulled, weigh);
    lemma_total_mass_same(pulled, after, weigh);
}

/// A body that is alone is not acted on: a time step moves it along its
/// velocity and changes neither its velocity nor its mass, whether
/// collisions are enabled or not.
pub proof fn lemma_stepped_alone<
    V,
    S,
    C: Fn(&Body<V, S>, &Body<V, S>) -> bool,
    M: Fn(&Body<V, S>, &Body<V, S>) -> Body<V, S>,
    P: Fn(&Body<V, S>, &Body<V, S>, &S, &S) -> Option<(V, V)>,
    A: Fn(&V, &V, &S) -> V,
>(
    before: Seq<Body<V, S>>,
    after: Seq<Body<V, S>>,
    settings: UniverseSettings<S>,
    delta_time: S,
    collides: C,
    merge: M,
    pull: P,
    advance: A,
)
    requires
        stepped(before, after, settings, delta_time, collides, merge, pull, advance),
        before.len() == 1,
    ensures
        after.len() == 1,
        before[0].moved_to(after[0], delta_time, advance),
{
    let (settled, pulled) = choose|settled: Seq<Body<V, S>>, pulled: Seq<Body<V, S>>|
        {
            &&& if settings.enable_collisions {
                swept(before, settled, collides, merge)
            } else {
                settled == before
            }
            &&& #[trigger] attracted(
                settled,
                pulled,
                settings.gravitational_constant,
                delta_time,
                pull,
            )
            &&& integrated(pulled, after, delta_time, advance)
        };
    if settings.enable_collisions {
        let stages = choose|stages: Seq<Seq<Body<V, S>>>|
            crate::collision::sweep_trace(stages, before, settled, collides, merge);
        assert(crate::collision::settles(stages, 0, collides, merge));
        assert(settled == before);
    }
    lemma_attracted_alone(settled, pulled, settings.gravitational_constant, delta_time, pull);
}

/// Bodies of which no two act on each other, such as two bodies in one
/// place, leave each other's velocities alone: with collisions disabled, a
/// time step only moves each of them along its own velocity.
pub proof fn lemma_stepped_idle<
    V,
    S,
    C: Fn(&Body<V, S>, &Body<V, S>) -> bool,
    M: Fn(&Body<V, S>, &Body<V, S>) -> Body<V, S>,
    P: Fn(&Body<V, S>, &Body<V, S>, &S, &S) -> Option<(V, V)>,
    A: Fn(&V, &V, &S) -> V,
>(
    before: Seq<Body<V, S>>,
    after: Seq<Body<V, S>>,
    settings: UniverseSettings<S>,
    delta_time: S,
    collides: C,
    merge: M,
    pull: P,
    advance: A,
)
    requires
        stepped(before, after, settings, delta_time, collides, merge, pull, advance),
        !settings.enable_collisions,
        all_idle(before, settings.gravitational_constant, delta_time, pull),
    ensures
        integrated(before, after, delta_time, advance),
{
    let (settled, pulled) = choose|settled: Seq<Body<V, S>>, pulled: Seq<Body<V, S>>|
        {
            &&& if settings.enable_collisions {
                swept(before, settled, collides, merge)
            } else {
                settled == before
            }
            &&& #[trigger] attracted(
                settled,
                pulled,
                settings.gravitational_constant,
                delta_time,
                pull,
            )
            &&& integrated(pulled, after, delta_time, advance)
        };
    lemma_attracted_idle(settled, pulled, settings.gravitational_constant, delta_time, pull);
}

/// However many time steps a lone body goes through, it stays alone and
/// keeps the velocity and the mass that it started with.
pub proof fn lemma_alone_for_good<
    V,
    S,
    C: Fn(&Body<V, S>, &Body<V, S>) -> bool,
    M: Fn(&Body<V, S>, &Body<V, S>) -> Body<V, S>,
    P: Fn(&Body<V, S>, &Body<V, S>, &S, &S) -> Option<(V, V)>,
    A: Fn(&V, &V, &S) -> V,
>(
    states: Seq<Seq<Body<V, S>>>,
    k: int,
    settings: UniverseSettings<S>,
    delta_times: Seq<S>,
    collides: C,
    merge: M,
    pull: P,
    advance: A,
)
    requires
        states.len() == delta_times.len() + 1,
        states[0].len() == 1,
        forall|l: int|
            0 <= l < delta_times.len() ==> #[trigger] steps(
                states,
                l,
                settings,
                delta_times,
                collides,
                merge,
                pull,
                advance,
            ),
        0 <= k <= delta_times.len(),
    ensures
        states[k].len() == 1,
        states[k][0].velocity == states[0][0].velocity,
        states[k][0].mass == states[0][0].mass,
    decreases k,
{
    if k > 0 {
        lemma_alone_for_good(
            states,
            k - 1,
            settings,
            delta_times,
            collides,
            merge,
            pull,
            advance,
        );
        assert(steps(states, k - 1, settings, delta_times, collides, merge, pull, advance));
        lemma_stepped_alone(
            states[k - 1],
            states[k],
            settings,
            delta_times[k - 1],
            collides,
            merge,
            pull,
            advance,
        );
    }
}

/// Moves every body along its velocity for `delta_time`.
pub fn integrate<V, S, A: Fn(&V, &V, &S) -> V>(
    bodies: &mut Vec<Body<V, S>>,
    delta_time: &S,
    advance: &A,
)
    requires
        forall|p: &V, v: &V, t: &S| call_requires(*advance, (p, v, t)),
    ensures
        integrated(old(bodies)@, final(bodies)@, *delta_time, *advance),
{
    let mut k: usize = 0;
    while k < bodies.len()
        invariant
            k <= bodies.len(),
            bodies.len() == old(bodies).len(),
            forall|l: int|
                0 <= l < k ==> old(bodies)@[l].moved_to(
                    #[trigger] bodies@[l],
                    *delta_time,
                    *advance,
                ),
            forall|l: int| k <= l < bodies.len() ==> bodies@[l] == old(bodies)@[l],
            forall|p: &V, v: &V, t: &S| call_requires(*advance, (p, v, t)),
        decreases bodies.len() - k,
    {
        bodies[k].update(delta_time, advance);
        k += 1;
    }
}

impl<V, S> Universe<V, S> {
    /// A universe with the given settings and no body in it.
    pub fn new(universe_settings: UniverseSettings<S>) -> (universe: Self)
        ensures
            universe.universe_settings == universe_settings,
            universe.bodies@ == Seq::<Body<V, S>>::empty(),
    {
        Universe { universe_settings, bodies: Vec::new() }
    }

    /// The number of ways in which one body acts on another in a time step:
    /// two for every pair of bodies.
    pub fn interactions(&self) -> (count: usize)
        requires
            self.bodies.len() * self.bodies.len() <= usize::MAX,
        ensures
            count == self.bodies.len() * self.bodies.len() - self.bodies.len(),
            count == 2 * pairs(self.bodies@.len()).len(),
    {
        let n = self.bodies.len();
        proof {
            lemma_pairs_len(n as nat);
            assert(n * n - n == n * (n - 1)) by (nonlinear_arith);
            assert(n * n >= n) by (nonlinear_arith);
        }
        n * n - n
    }

    /// Advances the simulation by `delta_time`. The numbers are the
    /// caller's: `collides` tests whether two bodies touch, `merge` makes
    /// one body of two that do, `pull` gives the velocities that two bodies
    /// have after acting on each other for `delta_time` under the
    /// gravitational constant (or nothing where they do not act on each
    /// other), and `advance` gives the position that a body reaches from a
    /// position at a velocity in `delta_time`.
    pub fn update<
        C: Fn(&Body<V, S>, &Body<V, S>) -> bool,
        M: Fn(&Body<V, S>, &Body<V, S>) -> Body<V, S>,
        P: Fn(&Body<V, S>, &Body<V, S>, &S, &S) -> Option<(V, V)>,
        A: Fn(&V, &V, &S) -> V,
    >(&mut self, delta_time: &S, collides: &C, merge: &M, pull: &P, advance: &A)
        requires
            forall|a: &Body<V, S>, b: &Body<V, S>| call_requires(*collides, (a, b)),
            forall|a: &Body<V, S>, b: &Body<V, S>| call_requires(*merge, (a, b)),
            forall|a: &Body<V, S>, b: &Body<V, S>, c: &S, t: &S|
                call_requires(*pull, (a, b, c, t)),
            forall|p: &V, v: &V, t: &S| call_requires(*advance, (p, v, t)),
        ensures
            final(self).universe_settings == old(self).universe_settings,
            stepped(
                old(self).bodies@,
                final(self).bodies@,
                old(self).universe_settings,
                *delta_time,
                *collides,
                *merge,
                *pull,
                *advance,
            ),
            final(self).bodies.len() <= old(self).bodies.len(),
            old(self).bodies.len() > 0 ==> final(self).bodies.len() > 0,
            !old(self).universe_settings.enable_collisions ==> final(self).bodies.len() == old(
                self,
            ).bodies.len(),
    {
        if self.universe_settings.enable_collisions {
            resolve_collisions(&mut self.bodies, collides, merge);
        }
        let ghost settled = self.bodies@;
        apply_gravity(
            &mut self.bodies,
            &self.universe_settings.gravitational_constant,
            delta_time,
            pull,
        );
        let ghost pulled = self.bodies@;
        integrate(&mut self.bodies, delta_time, advance);
        proof {
            assert(attracted(
                settled,
                pulled,
                self.universe_settings.gravitational_constant,
                *delta_time,
                *pull,
            ));
            lemma_stepped_count(
                old(self).bodies@,
                self.bodies@,
                old(self).universe_settings,
                *delta_time,
                *collides,
                *merge,
                *pull,
                *advance,
            );
        }
    }
}

} // verus!
