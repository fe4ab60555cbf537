use vstd::prelude::*;
use std::ops::Range;
use notan::random::utils::Random;
use crate::body::Body;
use crate::universe::Universe;

verus! {

/// The generator of `notan`, a PCG32 behind a thin wrapper. Nothing of its
/// state is visible here: it is made from a seed and carried through the
/// caller's draws.
#[verifier::external_type_specification]
#[verifier::external_body]
pub struct ExRandom(Random);

/// The generator that `Random::new` makes of a seed.
pub uninterp spec fn generator_of_seed(seed: u64) -> Random;

/// Calls `notan::random::utils::Random::new`, which expands the seed with
/// `seed_from_u64` into the state of a fresh PCG32. The state is a function
/// of the seed alone, the same in every run and on every machine, and that
/// is all that is claimed: the result is the generator named by the seed.
#[verifier::external_body]
fn seeded_generator(seed: u64) -> (generator: Random)
    ensures
        generator == generator_of_seed(seed),
{
    Random::new(seed)
}

/// The settings that a population is generated from. A seed of zero stands
/// for "take the clock"; every other seed is used as it is.
pub struct GenerationSettings<S> {
    pub seed: u64,
    pub body_amount: usize,
    pub position_range: Range<S>,
    pub velocity_range: Range<S>,
    pub mass_range: Range<S>,
    pub tangential_velocity: bool,
}

/// The seed that generation starts from.
pub open spec fn seed_in_use(seed: u64, clock_seconds: u64) -> u64 {
    if seed == 0 {
        clock_seconds
    } else {
        seed
    }
}

/// A value drawn from `range`: where `less` finds the range's start below
/// its end, an answer of `sample`, which also moves the generator on; in an
/// empty range the start itself, with the generator untouched.
pub open spec fn magnitude_drawn<
    S,
    L: Fn(&S, &S) -> bool,
    D: Fn(Random, &Range<S>) -> (S, Random),
>(
    generator: Random,
    range: Range<S>,
    value: S,
    generator_after: Random,
    less: L,
    sample: D,
) -> bool {
    ||| call_ensures(less, (&range.start, &range.end), true) && call_ensures(
        sample,
        (generator, &range),
        (value, generator_after),
    )
    ||| call_ensures(less, (&range.start, &range.end), false) && value == range.start
        && generator_after == generator
}

/// The angles, the magnitudes and the states of the generator that one body
/// is made from, in the order in which they arise.
pub struct Draws<S> {
    pub position_angle: S,
    pub after_position_angle: Random,
    pub velocity_angle: S,
    pub after_velocity_angle: Random,
    pub position_magnitude: S,
    pub after_position_magnitude: Random,
    pub velocity_magnitude: S,
    pub after_velocity_magnitude: Random,
}

/// `body` is made from the draws `draws`, which start at `generator` and
/// leave the generator as `generator_after`.
///
/// The position angle is sampled from `full_turn`. The velocity angle is
/// the position angle turned back by `turn_back` where the velocity is to
/// be tangential, which draws nothing, and a second sample from `full_turn`
/// where not. Then come the magnitudes of position and velocity and the
/// mass, each drawn from its range. `polar` makes a vector of an angle and
/// a magnitude.
pub open spec fn body_drawn_with<
    V,
    S,
    L: Fn(&S, &S) -> bool,
    D: Fn(Random, &Range<S>) -> (S, Random),
    T: Fn(&S) -> S,
    Q: Fn(&S, &S) -> V,
>(
    generator: Random,
    settings: GenerationSettings<S>,
    full_turn: Range<S>,
    body: Body<V, S>,
    generator_after: Random,
    draws: Draws<S>,
    less: L,
    sample: D,
    turn_back: T,
    polar: Q,
) -> bool {
    &&& call_ensures(
        sample,
        (generator, &full_turn),
        (draws.position_angle, draws.after_position_angle),
    )
    &&& if settings.tangential_velocity {
        &&& call_ensures(turn_back, (&draws.position_angle,), draws.velocity_angle)
        &&& draws.after_velocity_angle == draws.after_position_angle
    } else {
        call_ensures(
            sample,
            (draws.after_position_angle, &full_turn),
            (draws.velocity_angle, draws.after_velocity_angle),
        )
    }
    &&& magnitude_drawn(
        draws.after_velocity_angle,
        settings.position_range,
        draws.position_magnitude,
        draws.after_position_magnitude,
        less,
        sample,
    )
    &&& magnitude_drawn(
        draws.after_position_magnitude,
        settings.velocity_range,
        draws.velocity_magnitude,
        draws.after_velocity_magnitude,
        less,
        sample,
    )
    &&& magnitude_drawn(
        draws.after_velocity_magnitude,
        settings.mass_range,
        body.mass,
        generator_after,
        less,
        sample,
    )
    &&& call_ensures(polar, (&draws.position_angle, &draws.position_magnitude), body.position)
    &&& call_ensures(polar, (&draws.velocity_angle, &draws.velocity_magnitude), body.velocity)
}

/// `body` is a body drawn with the generator `generator`, which is
/// `generator_after` once the body is made.
pub open spec fn body_drawn<
    V,
    S,
    L: Fn(&S, &S) -> bool,
    D: Fn(Random, &Range<S>) -> (S, Random),
    T: Fn(&S) -> S,
    Q: Fn(&S, &S) -> V,
>(
    generator: Random,
    settings: GenerationSettings<S>,
    full_turn: Range<S>,
    body: Body<V, S>,
    generator_after: Random,
    less: L,
    sample: D,
    turn_back: T,
    polar: Q,
) -> bool {
    exists|draws: Draws<S>| #[trigger]
        body_drawn_with(
            generator,
            settings,
            full_turn,
            body,
            generator_after,
            draws,
            less,
            sample,
            turn_back,
            polar,
        )
}

/// Body `k` is drawn with the generator in its state `k`, and leaves it in
/// its state `k + 1`.
pub open spec fn draws_body<
    V,
    S,
    L: Fn(&S, &S) -> bool,
    D: Fn(Random, &Range<S>) -> (S, Random),
    T: Fn(&S) -> S,
    Q: Fn(&S, &S) -> V,
>(
    generators: Seq<Random>,
    bodies: Seq<Body<V, S>>,
    k: int,
    settings: GenerationSettings<S>,
    full_turn: Range<S>,
    less: L,
    sample: D,
    turn_back: T,
    polar: Q,
) -> bool {
    body_drawn(
        generators[k],
        settings,
        full_turn,
        bodies[k],
        generators[k + 1],
        less,
        sample,
        turn_back,
        polar,
    )
}

/// `generators` records the states that the generator goes through while
/// `bodies` are drawn one after the other, starting from `start`.
pub open spec fn generation_trace<
    V,
    S,
    L: Fn(&S, &S) -> bool,
    D: Fn(Random, &Range<S>) -> (S, Random),
    T: Fn(&S) -> S,
    Q: Fn(&S, &S) -> V,
>(
    generators: Seq<Random>,
    start: Random,
    settings: GenerationSettings<S>,
    full_turn: Range<S>,
    bodies: Seq<Body<V, S>>,
    less: L,
    sample: D,
    turn_back: T,
    polar: Q,
) -> bool {
    &&& generators.len() == bodies.len() + 1
    &&& generators.first() == start
    &&& forall|k: int|
        0 <= k < bodies.len() ==> #[trigger] draws_body(
            generators,
            bodies,
            k,
            settings,
            full_turn,
            less,
            sample,
            turn_back,
            polar,
        )
}

/// `bodies` is a population generated from `settings` with a generator that
/// starts as `start`: as many bodies as the settings ask for, drawn one
/// after the other and kept in that order.
pub open spec fn generated<
    V,
    S,
    L: Fn(&S, &S) -> bool,
    D: Fn(Random, &Range<S>) -> (S, Random),
    T: Fn(&S) -> S,
    Q: Fn(&S, &S) -> V,
>(
    start: Random,
    settings: GenerationSettings<S>,
    full_turn: Range<S>,
    bodies: Seq<Body<V, S>>,
    less: L,
    sample: D,
    turn_back: T,
    polar: Q,
) -> bool {
    &&& bodies.len() == settings.body_amount
    &&& exists|generators: Seq<Random>|
        generation_trace(
            generators,
            start,
            settings,
            full_turn,
            bodies,
            less,
            sample,
            turn_back,
            polar,
        )
}

/// The closures answer in one way only: asked the same twice, each gives
/// the same answer twice.
pub open spec fn single_valued<
    V,
    S,
    L: Fn(&S, &S) -> bool,
    D: Fn(Random, &Range<S>) -> (S, Random),
    T: Fn(&S) -> S,
    Q: Fn(&S, &S) -> V,
>(less: L, sample: D, turn_back: T, polar: Q) -> bool {
    &&& forall|a: S, b: S, first: bool, second: bool| #[trigger]
        call_ensures(less, (&a, &b), first) && #[trigger] call_ensures(less, (&a, &b), second)
            ==> first == second
    &&& forall|g: Random, r: Range<S>, first: (S, Random), second: (S, Random)| #[trigger]
        call_ensures(sample, (g, &r), first) && #[trigger] call_ensures(sample, (g, &r), second)
            ==> first == second
    &&& forall|a: S, first: S, second: S| #[trigger]
        call_ensures(turn_back, (&a,), first) && #[trigger] call_ensures(
            turn_back,
            (&a,),
            second,
        ) ==> first == second
    &&& forall|a: S, m: S, first: V, second: V| #[trigger]
        call_ensures(polar, (&a, &m), first) && #[trigger] call_ensures(polar, (&a, &m), second)
            ==> first == second
}

/// With closures that answer in one way only, one generator and one set of
/// settings give one body and leave one generator.
pub proof fn lemma_body_repeats<
    V,
    S,
    L: Fn(&S, &S) -> bool,
    D: Fn(Random, &Range<S>) -> (S, Random),
    T: Fn(&S) -> S,
    Q: Fn(&S, &S) -> V,
>(
    generator: Random,
    settings: GenerationSettings<S>,
    full_turn: Range<S>,
    first: (Body<V, S>, Random),
    second: (Body<V, S>, Random),
    less: L,
    sample: D,
    turn_back: T,
    polar: Q,
)
    requires
        single_valued(less, sample, turn_back, polar),
        body_drawn(
            generator,
            settings,
            full_turn,
            first.0,
            first.1,
            less,
            sample,
            turn_back,
            polar,
        ),
        body_drawn(
            generator,
            settings,
            full_turn,
            second.0,
            second.1,
            less,
            sample,
            turn_back,
            polar,
        ),
    ensures
        first == second,
{
    let d = choose|draws: Draws<S>| #[trigger]
        body_drawn_with(
            generator,
            settings,
            full_turn,
            first.0,
            first.1,
            draws,
            less,
            sample,
            turn_back,
            polar,
        );
    let e = choose|draws: Draws<S>| #[trigger]
        body_drawn_with(
            generator,
            settings,
            full_turn,
            second.0,
            second.1,
            draws,
            less,
            sample,
            turn_back,
            polar,
        );
    assert((d.position_angle, d.after_position_angle) == (
        e.position_angle,
        e.after_position_angle,
    ));
    assert((d.velocity_angle, d.after_velocity_angle) == (
        e.velocity_angle,
        e.after_velocity_angle,
    ));
    assert((d.position_magnitude, d.after_position_magnitude) == (
        e.position_magnitude,
        e.after_position_magnitude,
    ));
    assert((d.velocity_magnitude, d.after_velocity_magnitude) == (
        e.velocity_magnitude,
        e.after_velocity_magnitude,
    ));
    assert((first.0.mass, first.1) == (second.0.mass, second.1));
}

/// With closures that answer in one way only, two runs of generation from
/// one start agree on every state of the generator and on every body.
proof fn lemma_trace_repeats<
    V,
    S,
    L: Fn(&S, &S) -> bool,
    D: Fn(Random, &Range<S>) -> (S, Random),
    T: Fn(&S) -> S,
    Q: Fn(&S, &S) -> V,
>(
    first_generators: Seq<Random>,
    second_generators: Seq<Random>,
    start: Random,
    settings: GenerationSettings<S>,
    full_turn: Range<S>,
    first: Seq<Body<V, S>>,
    second: Seq<Body<V, S>>,
    k: int,
    less: L,
    sample: D,
    turn_back: T,
    polar: Q,
)
    requires
        single_valued(less, sample, turn_back, polar),
        first.len() == second.len(),
        generation_trace(
            first_generators,
            start,
            settings,
            full_turn,
            first,
            less,
            sample,
            turn_back,
            polar,
        ),
        generation_trace(
            second_generators,
            start,
            settings,
            full_turn,
            second,
            less,
            sample,
            turn_back,
            polar,
        ),
        0 <= k <= first.len(),
    ensures
        first_generators[k] == second_generators[k],
        forall|l: int| 0 <= l < k ==> first[l] == second[l],
    decreases k,
{
    if k > 0 {
        lemma_trace_repeats(
            first_generators,
            second_generators,
            start,
            settings,
            full_turn,
            first,
            second,
            k - 1,
            less,
            sample,
            turn_back,
            polar,
        );
        assert(draws_body(
            first_generators,
            first,
            k - 1,
            settings,
            full_turn,
            less,
            sample,
            turn_back,
            polar,
        ));
        assert(draws_body(
            second_generators,
            second,
            k - 1,
            settings,
            full_turn,
            less,
            sample,
            turn_back,
            polar,
        ));
        lemma_body_repeats(
            first_generators[k - 1],
            settings,
            full_turn,
            (first[k - 1], first_generators[k]),
            (second[k - 1], second_generators[k]),
            less,
            sample,
            turn_back,
            polar,
        );
    }
}

/// Generation repeats itself: two populations generated from the same
/// settings with a seed other than zero are the same, body for body,
/// whatever the clock read at either time, as long as the closures answer
/// in one way only.
pub proof fn lemma_generation_repeats<
    V,
    S,
    L: Fn(&S, &S) -> bool,
    D: Fn(Random, &Range<S>) -> (S, Random),
    T: Fn(&S) -> S,
    Q: Fn(&S, &S) -> V,
>(
    settings: GenerationSettings<S>,
    first_clock: u64,
    second_clock: u64,
    full_turn: Range<S>,
    first: Seq<Body<V, S>>,
    second: Seq<Body<V, S>>,
    less: L,
    sample: D,
    turn_back: T,
    polar: Q,
)
    requires
        settings.seed != 0,
        single_valued(less, sample, turn_back, polar),
        generated(
            generator_of_seed(seed_in_use(settings.seed, first_clock)),
            settings,
            full_turn,
            first,
            less,
            sample,
            turn_back,
            polar,
        ),
        generated(
            generator_of_seed(seed_in_use(settings.seed, second_clock)),
            settings,
            full_turn,
            second,
            less,
            sample,
            turn_back,
            polar,
        ),
    ensures
        first == second,
{
    let start = generator_of_seed(settings.seed);
    let first_generators = choose|generators: Seq<Random>|
        generation_trace(
            generators,
            start,
            settings,
            full_turn,
            first,
            less,
            sample,
            turn_back,
            polar,
        );
    let second_generators = choose|generators: Seq<Random>|
        generation_trace(
            generators,
            start,
            settings,
            full_turn,
            second,
            less,
            sample,
            turn_back,
            polar,
        );
    lemma_trace_repeats(
        first_generators,
        second_generators,
        start,
        settings,
        full_turn,
        first,
        second,
        first.len() as int,
        less,
        sample,
        turn_back,
        polar,
    );
    assert(first =~= second);
}

/// Where `less` never finds the start of the position range below its end,
/// the range is empty and every generated body stands at the distance
/// `position_range.start` from the origin, exactly: its position is what
/// `polar` makes of some angle and that start.
pub proof fn lemma_empty_range_collapses<
    V,
    S,
    L: Fn(&S, &S) -> bool,
    D: Fn(Random, &Range<S>) -> (S, Random),
    T: Fn(&S) -> S,
    Q: Fn(&S, &S) -> V,
>(
    start: Random,
    settings: GenerationSettings<S>,
    full_turn: Range<S>,
    bodies: Seq<Body<V, S>>,
    k: int,
    less: L,
    sample: D,
    turn_back: T,
    polar: Q,
)
    requires
        generated(start, settings, full_turn, bodies, less, sample, turn_back, polar),
        !call_ensures(less, (&settings.position_range.start, &settings.position_range.end), true),
        0 <= k < bodies.len(),
    ensures
        exists|angle: S| #[trigger]
            call_ensures(polar, (&angle, &settings.position_range.start), bodies[k].position),
{
    let generators = choose|generators: Seq<Random>|
        generation_trace(
            generators,
            start,
            settings,
            full_turn,
            bodies,
            less,
            sample,
            turn_back,
            polar,
        );
    assert(draws_body(
        generators,
        bodies,
        k,
        settings,
        full_turn,
        less,
        sample,
        turn_back,
        polar,
    ));
    let draws = choose|draws: Draws<S>| #[trigger]
        body_drawn_with(
            generators[k],
            settings,
            full_turn,
            bodies[k],
            generators[k + 1],
            draws,
            less,
            sample,
            turn_back,
            polar,
        );
    assert(call_ensures(
        polar,
        (&draws.position_angle, &settings.position_range.start),
        bodies[k].position,
    ));
}

/// With tangential velocities, every generated body moves at right angles
/// to the line from the origin to it: the angle of its velocity is the
/// angle of its position turned back by `turn_back`.
pub proof fn lemma_tangential<
    V,
    S,
    L: Fn(&S, &S) -> bool,
    D: Fn(Random, &Range<S>) -> (S, Random),
    T: Fn(&S) -> S,
    Q: Fn(&S, &S) -> V,
>(
    start: Random,
    settings: GenerationSettings<S>,
    full_turn: Range<S>,
    bodies: Seq<Body<V, S>>,
    k: int,
    less: L,
    sample: D,
    turn_back: T,
    polar: Q,
)
    requires
        generated(start, settings, full_turn, bodies, less, sample, turn_back, polar),
        settings.tangential_velocity,
        0 <= k < bodies.len(),
    ensures
        exists|angle: S, turned: S, distance: S, speed: S|
            {
                &&& #[trigger] call_ensures(turn_back, (&angle,), turned)
                &&& #[trigger] call_ensures(polar, (&angle, &distance), bodies[k].position)
                &&& #[trigger] call_ensures(polar, (&turned, &speed), bodies[k].velocity)
            },
{
    let generators = choose|generators: Seq<Random>|
        generation_trace(
            generators,
            start,
            settings,
            full_turn,
            bodies,
            less,
            sample,
            turn_back,
            polar,
        );
    assert(draws_body(
        generators,
        bodies,
        k,
        settings,
        full_turn,
        less,
        sample,
        turn_back,
        polar,
    ));
    let draws = choose|draws: Draws<S>| #[trigger]
        body_drawn_with(
            generators[k],
            settings,
            full_turn,
            bodies[k],
            generators[k + 1],
            draws,
            less,
            sample,
            turn_back,
            polar,
        );
    assert(call_ensures(turn_back, (&draws.position_angle,), draws.velocity_angle));
    assert(call_ensures(
        polar,
        (&draws.position_angle, &draws.position_magnitude),
        bodies[k].position,
    ));
    assert(call_ensures(
        polar,
        (&draws.velocity_angle, &draws.velocity_magnitude),
        bodies[k].velocity,
    ));
}

/// Picks the seed that generation starts from: a seed of zero asks for the
/// clock reading instead, any other seed is taken as it is.
pub fn effective_seed(seed: u64, clock_seconds: u64) -> (chosen: u64)
    ensures
        chosen == seed_in_use(seed, clock_seconds),
{
    if seed == 0 {
        clock_seconds
    } else {
        seed
    }
}

/// Draws a value from `range`, or takes the start of an empty range without
/// drawing.
pub fn draw_magnitude<S: Copy, L: Fn(&S, &S) -> bool, D: Fn(Random, &Range<S>) -> (S, Random)>(
    generator: Random,
    range: &Range<S>,
    less: &L,
    sample: &D,
) -> (drawn: (S, Random))
    requires
        forall|a: &S, b: &S| call_requires(*less, (a, b)),
        forall|g: Random, r: &Range<S>| call_requires(*sample, (g, r)),
    ensures
        magnitude_drawn(generator, *range, drawn.0, drawn.1, *less, *sample),
{
    if less(&range.start, &range.end) {
        sample(generator, range)
    } else {
        (range.start, generator)
    }
}

/// Draws one body.
pub fn draw_body<
    V,
    S: Copy,
    L: Fn(&S, &S) -> bool,
    D: Fn(Random, &Range<S>) -> (S, Random),
    T: Fn(&S) -> S,
    Q: Fn(&S, &S) -> V,
>(
    generator: Random,
    settings: &GenerationSettings<S>,
    full_turn: &Range<S>,
    less: &L,
    sample: &D,
    turn_back: &T,
    polar: &Q,
) -> (drawn: (Body<V, S>, Random))
    requires
        forall|a: &S, b: &S| call_requires(*less, (a, b)),
        forall|g: Random, r: &Range<S>| call_requires(*sample, (g, r)),
        forall|a: &S| call_requires(*turn_back, (a,)),
        forall|a: &S, m: &S| call_requires(*polar, (a, m)),
    ensures
        body_drawn(
            generator,
            *settings,
            *full_turn,
            drawn.0,
            drawn.1,
            *less,
            *sample,
            *turn_back,
            *polar,
        ),
{
    let (position_angle, after_position_angle) = sample(generator, full_turn);
    let ghost seen_after_position_angle = after_position_angle;
    let (velocity_angle, after_velocity_angle) = if settings.tangential_velocity {
        (turn_back(&position_angle), after_position_angle)
    } else {
        sample(after_position_angle, full_turn)
    };
    let ghost seen_after_velocity_angle = after_velocity_angle;
    let (position_magnitude, after_position_magnitude) = draw_magnitude(
        after_velocity_angle,
        &settings.position_range,
        less,
        sample,
    );
    let ghost seen_after_position_magnitude = after_position_magnitude;
    let (velocity_magnitude, after_velocity_magnitude) = draw_magnitude(
        after_position_magnitude,
        &settings.velocity_range,
        less,
        sample,
    );
    let ghost seen_after_velocity_magnitude = after_velocity_magnitude;
    let (mass, generator_after) = draw_magnitude(
        after_velocity_magnitude,
        &settings.mass_range,
        less,
        sample,
    );
    let body = Body {
        position: polar(&position_angle, &position_magnitude),
        velocity: polar(&velocity_angle, &velocity_magnitude),
        mass,
    };
    proof {
        let draws = Draws {
            position_angle,
            after_position_angle: seen_after_position_angle,
            velocity_angle,
            after_velocity_angle: seen_after_velocity_angle,
            position_magnitude,
            after_position_magnitude: seen_after_position_magnitude,
            velocity_magnitude,
            after_velocity_magnitude: seen_after_velocity_magnitude,
        };
        assert(body_drawn_with(
            generator,
            *settings,
            *full_turn,
            body,
            generator_after,
            draws,
            *less,
            *sample,
            *turn_back,
            *polar,
        ));
    }
    (body, generator_after)
}

impl<V, S: Copy> Universe<V, S> {
    /// Replaces the population by one generated from `settings`. The
    /// generator is seeded with `settings.seed`, or with `clock_seconds`
    /// where that seed is zero. The numbers are the caller's: `full_turn`
    /// is the range that angles are sampled from, `less` compares two
    /// scalars, `sample` draws a scalar from a range that is not empty,
    /// `turn_back` turns an angle back by a quarter turn, and `polar` makes
    /// a vector of an angle and a magnitude.
    pub fn generate_bodies<
        L: Fn(&S, &S) -> bool,
        D: Fn(Random, &Range<S>) -> (S, Random),
        T: Fn(&S) -> S,
        Q: Fn(&S, &S) -> V,
    >(
        &mut self,
        generation_settings: &GenerationSettings<S>,
        clock_seconds: u64,
        full_turn: &Range<S>,
        less: &L,
        sample: &D,
        turn_back: &T,
        polar: &Q,
    )
        requires
            forall|a: &S, b: &S| call_requires(*less, (a, b)),
            forall|g: Random, r: &Range<S>| call_requires(*sample, (g, r)),
            forall|a: &S| call_requires(*turn_back, (a,)),
            forall|a: &S, m: &S| call_requires(*polar, (a, m)),
        ensures
            final(self).universe_settings == old(self).universe_settings,
            generated(
                generator_of_seed(seed_in_use(generation_settings.seed, clock_seconds)),
                *generation_settings,
                *full_turn,
                final(self).bodies@,
                *less,
                *sample,
                *turn_back,
                *polar,
            ),
    {
        let mut generator = seeded_generator(effective_seed(generation_settings.seed, clock_seconds));
        let ghost start = generator;
        let ghost mut generators: Seq<Random> = seq![generator];
        self.bodies = Vec::new();
        let mut made: usize = 0;
        while made < generation_settings.body_amount
            invariant
                made <= generation_settings.body_amount,
                self.bodies.len() == made,
                self.universe_settings == old(self).universe_settings,
                generators.last() == generator,
                generation_trace(
                    generators,
                    start,
                    *generation_settings,
                    *full_turn,
                    self.bodies@,
                    *less,
                    *sample,
                    *turn_back,
                    *polar,
                ),
                forall|a: &S, b: &S| call_requires(*less, (a, b)),
                forall|g: Random, r: &Range<S>| call_requires(*sample, (g, r)),
                forall|a: &S| call_requires(*turn_back, (a,)),
                forall|a: &S, m: &S| call_requires(*polar, (a, m)),
            decreases generation_settings.body_amount - made,
        {
            let ghost earlier = generators;
            let ghost bodies_so_far = self.bodies@;
            let (body, generator_after) = draw_body(
                generator,
                generation_settings,
                full_turn,
                less,
                sample,
                turn_back,
                polar,
            );
            self.bodies.push(body);
            generator = generator_after;
            proof {
                generators = earlier.push(generator);
                assert forall|k: int| 0 <= k < self.bodies@.len() implies #[trigger] draws_body(
                    generators,
                    self.bodies@,
                    k,
                    *generation_settings,
                    *full_turn,
                    *less,
                    *sample,
                    *turn_back,
                    *polar,
                ) by {
                    if k < made {
                        assert(draws_body(
                            earlier,
                            bodies_so_far,
                            k,
                            *generation_settings,
                            *full_turn,
                            *less,
                            *sample,
                            *turn_back,
                            *polar,
                        ));
                    }
                }
            }
            made += 1;
        }
    }
}

} // verus!
