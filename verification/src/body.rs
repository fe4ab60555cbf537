use vstd::prelude::*;

verus! {

/// A point mass. `V` is the type of a planar vector, `S` that of a scalar.
pub struct Body<V, S> {
    pub position: V,
    pub velocity: V,
    pub mass: S,
}

impl<V, S> Body<V, S> {
    /// This body with another velocity and everything else as it is.
    pub open spec fn with_velocity(self, velocity: V) -> Self {
        Body { position: self.position, velocity, mass: self.mass }
    }

    /// `after` is `self` moved for the time `delta_time`: the new position is
    /// an answer of `advance` to the old position and velocity, and neither
    /// the velocity nor the mass has changed.
    pub open spec fn moved_to<A: Fn(&V, &V, &S) -> V>(
        self,
        after: Self,
        delta_time: S,
        advance: A,
    ) -> bool {
        &&& call_ensures(advance, (&self.position, &self.velocity, &delta_time), after.position)
        &&& after.velocity == self.velocity
        &&& after.mass == self.mass
    }

    /// Moves the body along its velocity for `delta_time`. `advance` computes
    /// the explicit Euler step from position, velocity and time; only the
    /// position is written.
    pub fn update<A: Fn(&V, &V, &S) -> V>(&mut self, delta_time: &S, advance: &A)
        requires
            call_requires(*advance, (&old(self).position, &old(self).velocity, delta_time)),
        ensures
            old(self).moved_to(*final(self), *delta_time, *advance),
    {
        self.position = advance(&self.position, &self.velocity, delta_time);
    }
}

/// The masses of `bodies` added up, each read as the number that `weigh`
/// gives it.
pub open spec fn total_mass<V, S>(bodies: Seq<Body<V, S>>, weigh: spec_fn(S) -> real) -> real
    decreases bodies.len(),
{
    if bodies.len() == 0 {
        0real
    } else {
        total_mass(bodies.drop_last(), weigh) + weigh(bodies.last().mass)
    }
}

/// A body put at the end adds its mass to the total.
pub proof fn lemma_total_mass_push<V, S>(
    bodies: Seq<Body<V, S>>,
    body: Body<V, S>,
    weigh: spec_fn(S) -> real,
)
    ensures
        total_mass(bodies.push(body), weigh) == total_mass(bodies, weigh) + weigh(body.mass),
{
    assert(bodies.push(body).drop_last() =~= bodies);
}

/// A body taken out takes its mass from the total.
pub proof fn lemma_total_mass_remove<V, S>(
    bodies: Seq<Body<V, S>>,
    i: int,
    weigh: spec_fn(S) -> real,
)
    requires
        0 <= i < bodies.len(),
    ensures
        total_mass(bodies.remove(i), weigh) == total_mass(bodies, weigh) - weigh(bodies[i].mass),
    decreases bodies.len(),
{
    if i == bodies.len() - 1 {
        assert(bodies.remove(i) =~= bodies.drop_last());
    } else {
        lemma_total_mass_remove(bodies.drop_last(), i, weigh);
        assert(bodies.remove(i).drop_last() =~= bodies.drop_last().remove(i));
    }
}

/// Two populations with the same masses, index by index, have the same
/// total.
pub proof fn lemma_total_mass_same<V, S>(
    first: Seq<Body<V, S>>,
    second: Seq<Body<V, S>>,
    weigh: spec_fn(S) -> real,
)
    requires
        first.len() == second.len(),
        forall|k: int| 0 <= k < first.len() ==> first[k].mass == second[k].mass,
    ensures
        total_mass(first, weigh) == total_mass(second, weigh),
    decreases first.len(),
{
    if first.len() > 0 {
        lemma_total_mass_same(first.drop_last(), second.drop_last(), weigh);
    }
}

} // verus!
