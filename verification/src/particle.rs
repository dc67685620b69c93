//! Particles, the parameters they share, and the passes that a tick makes
//! over them.
//!
//! Every pass takes the arithmetic it needs from the host as a function
//! value. The kernel decides which particles are visited, in what order,
//! which of their fields a pass may change, and whether a frozen simulation
//! skips the pass.

use vstd::prelude::*;
use crate::pairs::{all_pairs, lemma_pair_count, lemma_pair_is_visited, pair_row, pairs_before};
use crate::resources::{
    SimulationCommands, SimulationState, last_dampening, last_mass, last_scale,
};

verus! {

/// How new particles are laid out.
#[derive(Debug, PartialEq)]
pub enum SpawnSetting {
    /// Each particle goes wherever the host puts it.
    Random,
    /// Particles fill a grid row by row; the value is the number of columns.
    GridSpawn(u64),
}

/// The place that the kernel assigns to a new particle. The host turns it
/// into coordinates.
#[derive(Debug, PartialEq)]
pub enum Slot {
    Anywhere,
    Cell { column: u64, row: u64 },
}

/// One live particle.
#[derive(Debug, PartialEq)]
pub struct ParticleEntity<S, V> {
    pub position: V,
    pub velocity: V,
    /// The shared radius at the moment this particle was created.
    pub original_radius: S,
    /// The factor by which the particle is drawn larger or smaller than it
    /// was created.
    pub scale: S,
}

/// Where a particle is and how it moves: what a collision or a wall may change.
#[derive(Debug, PartialEq)]
pub struct Motion<V> {
    pub position: V,
    pub velocity: V,
}

/// The parameters that all particles share.
#[derive(Debug, PartialEq)]
pub struct Particle<S> {
    pub radius: S,
    pub dampening: S,
    pub mass: S,
}

impl<S> Particle<S> {
    /// These parameters once a queue has been applied: for each of the three,
    /// the last command that sets it wins, and without one it stays.
    pub open spec fn after<V>(self, commands: Seq<SimulationCommands<S, V>>) -> Self {
        Particle {
            radius: match last_scale(commands) {
                Some(radius) => radius,
                None => self.radius,
            },
            dampening: match last_dampening(commands) {
                Some(dampening) => dampening,
                None => self.dampening,
            },
            mass: match last_mass(commands) {
                Some(mass) => mass,
                None => self.mass,
            },
        }
    }
}

impl<S, V> ParticleEntity<S, V> {
    /// The part of this particle that collisions and walls act on.
    pub open spec fn motion(self) -> Motion<V> {
        Motion { position: self.position, velocity: self.velocity }
    }

    /// This particle moved to `motion`, otherwise as it was.
    pub open spec fn with_motion(self, motion: Motion<V>) -> Self {
        ParticleEntity {
            position: motion.position,
            velocity: motion.velocity,
            original_radius: self.original_radius,
            scale: self.scale,
        }
    }
}

/// The slot of the particle with the given index among those created by one
/// call: in a grid, cells are filled from the first row on, each row from its
/// first column on.
pub open spec fn slot_of(spawn_setting: SpawnSetting, index: nat) -> Slot {
    match spawn_setting {
        SpawnSetting::Random => Slot::Anywhere,
        SpawnSetting::GridSpawn(columns) => Slot::Cell {
            column: (index % columns as nat) as u64,
            row: (index / columns as nat) as u64,
        },
    }
}

/// `entity` is a particle freshly created for `slot`: placed by the host, at
/// rest, drawn at its own size, and remembering the radius it was created with.
pub open spec fn spawned<S, V, P: Fn(Slot) -> V>(
    place: P,
    slot: Slot,
    radius: S,
    rest: V,
    unit_scale: S,
    entity: ParticleEntity<S, V>,
) -> bool {
    &&& call_ensures(place, (slot,), entity.position)
    &&& entity.velocity == rest
    &&& entity.original_radius == radius
    &&& entity.scale == unit_scale
}

/// Creates `amount` particles behind those that exist.
///
/// `place` gives the position for a slot, `rest` is the velocity of a particle
/// that does not move, and `unit_scale` the scale of one drawn at its own size.
pub fn spawn_particle<S: Copy, V: Copy, P: Fn(Slot) -> V>(
    entities: &mut Vec<ParticleEntity<S, V>>,
    amount: u64,
    radius: S,
    spawn_setting: SpawnSetting,
    rest: V,
    unit_scale: S,
    place: P,
)
    requires
        old(entities)@.len() + amount <= usize::MAX,
        amount > 0 ==> (spawn_setting matches SpawnSetting::GridSpawn(columns) ==> columns > 0),
        forall|slot: Slot| call_requires(place, (slot,)),
    ensures
        final(entities)@.len() == old(entities)@.len() + amount,
        forall|k: int|
            0 <= k < old(entities)@.len() ==> #[trigger] final(entities)@[k] == old(entities)@[k],
        forall|k: int|
            old(entities)@.len() <= k < final(entities)@.len() ==> spawned(
                place,
                slot_of(spawn_setting, (k - old(entities)@.len()) as nat),
                radius,
                rest,
                unit_scale,
                #[trigger] final(entities)@[k],
            ),
{
    let ghost start = entities@.len();
    let mut index: u64 = 0;
    while index < amount
        invariant
            index <= amount,
            start == old(entities)@.len(),
            start + amount <= usize::MAX,
            entities@.len() == start + index,
            amount > 0 ==> (spawn_setting matches SpawnSetting::GridSpawn(columns) ==> columns > 0),
            forall|slot: Slot| call_requires(place, (slot,)),
            forall|k: int| 0 <= k < start ==> #[trigger] entities@[k] == old(entities)@[k],
            forall|k: int|
                start <= k < entities@.len() ==> spawned(
                    place,
                    slot_of(spawn_setting, (k - start) as nat),
                    radius,
                    rest,
                    unit_scale,
                    #[trigger] entities@[k],
                ),
        decreases amount - index,
    {
        let slot = match spawn_setting {
            SpawnSetting::Random => Slot::Anywhere,
            SpawnSetting::GridSpawn(columns) => Slot::Cell {
                column: index % columns,
                row: index / columns,
            },
        };
        let position = place(slot);
        entities.push(
            ParticleEntity { position, velocity: rest, original_radius: radius, scale: unit_scale },
        );
        index += 1;
    }
}

/// In a grid no two particles of one call share a cell: the cell of a
/// particle gives its index back, as `row * columns + column`, and the column
/// stays below the number of columns.
pub proof fn lemma_grid_cells_are_distinct(columns: u64, index: nat)
    requires
        columns > 0,
        index <= u64::MAX,
    ensures
        slot_of(SpawnSetting::GridSpawn(columns), index) matches Slot::Cell { column, row }
            && column < columns && row * columns + column == index,
{
    let c = columns as nat;
    assert(index == c * (index / c) + index % c && index % c < c && index / c <= index)
        by (nonlinear_arith)
        requires
            c > 0,
    ;
    assert((index / c) * c == c * (index / c)) by (nonlinear_arith);
}

/// `after` is `before` with its velocity updated by `accelerate` and nothing
/// else changed.
pub open spec fn accelerated<S, V, F: Fn(V) -> V>(
    accelerate: F,
    before: ParticleEntity<S, V>,
    after: ParticleEntity<S, V>,
) -> bool {
    &&& call_ensures(accelerate, (before.velocity,), after.velocity)
    &&& after.position == before.position
    &&& after.original_radius == before.original_radius
    &&& after.scale == before.scale
}

/// What a gravity pass makes of the particles: nothing while frozen, else
/// each one accelerated.
pub open spec fn gravity_pass<S, V, F: Fn(V) -> V>(
    freeze: bool,
    accelerate: F,
    before: Seq<ParticleEntity<S, V>>,
    after: Seq<ParticleEntity<S, V>>,
) -> bool {
    if freeze {
        after == before
    } else {
        &&& after.len() == before.len()
        &&& forall|i: int|
            0 <= i < before.len() ==> accelerated(accelerate, before[i], #[trigger] after[i])
    }
}

/// Lets gravity act on every particle for one tick, unless the simulation is
/// frozen. `accelerate` gives the velocity after the tick for the one before.
pub fn gravity<S: Copy, V: Copy, F: Fn(V) -> V>(
    simulation_state: &SimulationState<S, V>,
    entities: &mut Vec<ParticleEntity<S, V>>,
    accelerate: F,
)
    requires
        forall|velocity: V| call_requires(accelerate, (velocity,)),
    ensures
        gravity_pass(simulation_state.freeze, accelerate, old(entities)@, final(entities)@),
{
    if simulation_state.freeze {
        return ;
    }
    let count = entities.len();
    let mut i: usize = 0;
    while i < count
        invariant
            i <= count,
            entities@.len() == count,
            count == old(entities)@.len(),
            forall|velocity: V| call_requires(accelerate, (velocity,)),
            forall|k: int| i <= k < count ==> #[trigger] entities@[k] == old(entities)@[k],
            forall|k: int|
                0 <= k < i ==> accelerated(accelerate, old(entities)@[k], #[trigger] entities@[k]),
        decreases count - i,
    {
        let entity = &entities[i];
        let updated = ParticleEntity {
            position: entity.position,
            velocity: accelerate(entity.velocity),
            original_radius: entity.original_radius,
            scale: entity.scale,
        };
        entities.set(i, updated);
        i += 1;
    }
}

/// `after` is `before` with its position updated by `advance` and nothing
/// else changed.
pub open spec fn advanced<S, V, F: Fn(V, V) -> V>(
    advance: F,
    before: ParticleEntity<S, V>,
    after: ParticleEntity<S, V>,
) -> bool {
    &&& call_ensures(advance, (before.position, before.velocity), after.position)
    &&& after.velocity == before.velocity
    &&& after.original_radius == before.original_radius
    &&& after.scale == before.scale
}

/// What a motion pass makes of the particles: nothing while frozen, else each
/// one advanced.
pub open spec fn motion_pass<S, V, F: Fn(V, V) -> V>(
    freeze: bool,
    advance: F,
    before: Seq<ParticleEntity<S, V>>,
    after: Seq<ParticleEntity<S, V>>,
) -> bool {
    if freeze {
        after == before
    } else {
        &&& after.len() == before.len()
        &&& forall|i: int|
            0 <= i < before.len() ==> advanced(advance, before[i], #[trigger] after[i])
    }
}

/// Moves every particle along its velocity for one tick, unless the
/// simulation is frozen. `advance` gives the position after the tick for a
/// position and a velocity.
pub fn update_particle_position<S: Copy, V: Copy, F: Fn(V, V) -> V>(
    entities: &mut Vec<ParticleEntity<S, V>>,
    simulation_state: &SimulationState<S, V>,
    advance: F,
)
    requires
        forall|position: V, velocity: V| call_requires(advance, (position, velocity)),
    ensures
        motion_pass(simulation_state.freeze, advance, old(entities)@, final(entities)@),
{
    if simulation_state.freeze {
        return ;
    }
    let count = entities.len();
    let mut i: usize = 0;
    while i < count
        invariant
            i <= count,
            entities@.len() == count,
            count == old(entities)@.len(),
            forall|position: V, velocity: V| call_requires(advance, (position, velocity)),
            forall|k: int| i <= k < count ==> #[trigger] entities@[k] == old(entities)@[k],
            forall|k: int|
                0 <= k < i ==> advanced(advance, old(entities)@[k], #[trigger] entities@[k]),
        decreases count - i,
    {
        let entity = &entities[i];
        let updated = ParticleEntity {
            position: advance(entity.position, entity.velocity),
            velocity: entity.velocity,
            original_radius: entity.original_radius,
            scale: entity.scale,
        };
        entities.set(i, updated);
        i += 1;
    }
}

/// `after` is `before` with the particles `i` and `j` resolved against each
/// other: where `resolve` finds no contact nothing changes, else the two take
/// on the motions that it returns. No other particle and no other field changes.
pub open spec fn pair_resolved<
    S,
    V,
    F: Fn(Motion<V>, Motion<V>) -> Option<(Motion<V>, Motion<V>)>,
>(
    resolve: F,
    before: Seq<ParticleEntity<S, V>>,
    after: Seq<ParticleEntity<S, V>>,
    i: int,
    j: int,
) -> bool {
    &&& 0 <= i < j < before.len()
    &&& after.len() == before.len()
    &&& forall|m: int|
        0 <= m < before.len() && m != i && m != j ==> #[trigger] after[m] == before[m]
    &&& {
        ||| {
            &&& call_ensures(resolve, (before[i].motion(), before[j].motion()), None)
            &&& after[i] == before[i]
            &&& after[j] == before[j]
        }
        ||| {
            &&& call_ensures(
                resolve,
                (before[i].motion(), before[j].motion()),
                Some((after[i].motion(), after[j].motion())),
            )
            &&& after[i] == before[i].with_motion(after[i].motion())
            &&& after[j] == before[j].with_motion(after[j].motion())
        }
    }
}

/// `steps` records a whole collision pass from `before` to `after`: one state
/// before the first pair, and one more after each pair of the visit.
pub open spec fn collision_steps<
    S,
    V,
    F: Fn(Motion<V>, Motion<V>) -> Option<(Motion<V>, Motion<V>)>,
>(
    resolve: F,
    before: Seq<ParticleEntity<S, V>>,
    after: Seq<ParticleEntity<S, V>>,
    steps: Seq<Seq<ParticleEntity<S, V>>>,
) -> bool {
    let visit = all_pairs(before.len() as int);
    &&& steps.len() == visit.len() + 1
    &&& steps[0] == before
    &&& steps[visit.len() as int] == after
    &&& forall|k: int|
        0 <= k < visit.len() ==> pair_resolved(
            resolve,
            #[trigger] steps[k],
            steps[k + 1],
            visit[k].0,
            visit[k].1,
        )
}

/// What a collision pass makes of the particles: nothing while frozen, else
/// every pair resolved once, one after the other in the order of the visit,
/// each on what the pairs before it have left.
pub open spec fn collision_pass<
    S,
    V,
    F: Fn(Motion<V>, Motion<V>) -> Option<(Motion<V>, Motion<V>)>,
>(
    freeze: bool,
    resolve: F,
    before: Seq<ParticleEntity<S, V>>,
    after: Seq<ParticleEntity<S, V>>,
) -> bool {
    if freeze {
        after == before
    } else {
        &&& after.len() == before.len()
        &&& forall|i: int|
            0 <= i < before.len() ==> {
                &&& (#[trigger] after[i]).original_radius == before[i].original_radius
                &&& after[i].scale == before[i].scale
            }
        &&& exists|steps: Seq<Seq<ParticleEntity<S, V>>>|
            collision_steps(resolve, before, after, steps)
    }
}

/// Resolves the contact of every pair of particles, unless the simulation is
/// frozen. `resolve` takes the motions of two particles and returns `None`
/// where they do not touch, else the motions that the contact leaves them.
pub fn collide_particles<
    S: Copy,
    V: Copy,
    F: Fn(Motion<V>, Motion<V>) -> Option<(Motion<V>, Motion<V>)>,
>(simulation_state: &SimulationState<S, V>, entities: &mut Vec<ParticleEntity<S, V>>, resolve: F)
    requires
        forall|a: Motion<V>, b: Motion<V>| call_requires(resolve, (a, b)),
    ensures
        collision_pass(simulation_state.freeze, resolve, old(entities)@, final(entities)@),
{
    if simulation_state.freeze {
        return ;
    }
    let count = entities.len();
    let ghost visit = all_pairs(count as int);
    let ghost mut steps: Seq<Seq<ParticleEntity<S, V>>> = seq![entities@];
    let mut i: usize = 0;
    while i < count
        invariant
            i <= count,
            entities@.len() == count,
            count == old(entities)@.len(),
            visit == all_pairs(count as int),
            forall|a: Motion<V>, b: Motion<V>| call_requires(resolve, (a, b)),
            forall|m: int|
                0 <= m < count ==> {
                    &&& (#[trigger] entities@[m]).original_radius == old(
                        entities,
                    )@[m].original_radius
                    &&& entities@[m].scale == old(entities)@[m].scale
                },
            steps.len() == pairs_before(i as int, count as int).len() + 1,
            steps.len() <= visit.len() + 1,
            steps[0] == old(entities)@,
            steps[steps.len() - 1] == entities@,
            forall|k: int|
                0 <= k < steps.len() - 1 ==> pair_resolved(
                    resolve,
                    #[trigger] steps[k],
                    steps[k + 1],
                    visit[k].0,
                    visit[k].1,
                ),
        decreases count - i,
    {
        let mut j: usize = i + 1;
        proof {
            if i + 1 < count {
                lemma_pair_is_visited(i as int, i + 1, count as int);
            } else {
                assert(pairs_before(i + 1, count as int) == pairs_before(
                    i as int,
                    count as int,
                ) + pair_row(i as int, count as int));
            }
        }
        while j < count
            invariant
                i < j <= count,
                entities@.len() == count,
                count == old(entities)@.len(),
                visit == all_pairs(count as int),
                forall|a: Motion<V>, b: Motion<V>| call_requires(resolve, (a, b)),
                forall|m: int|
                    0 <= m < count ==> {
                        &&& (#[trigger] entities@[m]).original_radius == old(
                            entities,
                        )@[m].original_radius
                        &&& entities@[m].scale == old(entities)@[m].scale
                    },
                steps.len() == pairs_before(i as int, count as int).len() + (j - i - 1) + 1,
                steps.len() <= visit.len() + 1,
                pairs_before(i + 1, count as int).len() == pairs_before(
                    i as int,
                    count as int,
                ).len() + (count - i - 1),
                steps[0] == old(entities)@,
                steps[steps.len() - 1] == entities@,
                forall|k: int|
                    0 <= k < steps.len() - 1 ==> pair_resolved(
                        resolve,
                        #[trigger] steps[k],
                        steps[k + 1],
                        visit[k].0,
                        visit[k].1,
                    ),
            decreases count - j,
        {
            proof {
                lemma_pair_is_visited(i as int, j as int, count as int);
            }
            let ghost current = entities@;
            let first = Motion { position: entities[i].position, velocity: entities[i].velocity };
            let second = Motion { position: entities[j].position, velocity: entities[j].velocity };
            match resolve(first, second) {
                Some((first_motion, second_motion)) => {
                    let first_after = ParticleEntity {
                        position: first_motion.position,
                        velocity: first_motion.velocity,
                        original_radius: entities[i].original_radius,
                        scale: entities[i].scale,
                    };
                    let second_after = ParticleEntity {
                        position: second_motion.position,
                        velocity: second_motion.velocity,
                        original_radius: entities[j].original_radius,
                        scale: entities[j].scale,
                    };
                    entities.set(i, first_after);
                    entities.set(j, second_after);
                },
                None => {},
            }
            proof {
                assert(pair_resolved(resolve, current, entities@, i as int, j as int));
                assert(visit[steps.len() - 1] == (i as int, j as int));
                steps = steps.push(entities@);
            }
            j += 1;
        }
        i += 1;
    }
    proof {
        assert(collision_steps(resolve, old(entities)@, entities@, steps));
    }
}

/// Between two particles a collision pass is one resolution of the one pair.
pub proof fn lemma_collision_of_two<
    S,
    V,
    F: Fn(Motion<V>, Motion<V>) -> Option<(Motion<V>, Motion<V>)>,
>(resolve: F, before: Seq<ParticleEntity<S, V>>, after: Seq<ParticleEntity<S, V>>)
    requires
        before.len() == 2,
        collision_pass(false, resolve, before, after),
    ensures
        pair_resolved(resolve, before, after, 0, 1),
{
    let steps = choose|steps: Seq<Seq<ParticleEntity<S, V>>>|
        collision_steps(resolve, before, after, steps);
    lemma_pair_count(2);
    lemma_pair_is_visited(0, 1, 2);
    assert(pair_resolved(resolve, steps[0], steps[1], 0, 1));
}

} // verus!
