//! The parts of a tick that act on the world as a whole: the motion of the
//! window that bounds it, the commands that the host has queued, and the
//! walls.

use vstd::prelude::*;
use crate::particle::{
    Motion, Particle, ParticleEntity, Slot, SpawnSetting, collision_pass, gravity_pass,
    motion_pass, spawn_particle, spawned,
};
use crate::resources::{
    PhysicRules, SimulationCommands, SimulationState, last_scale,
    lemma_requested_spawns_concat, lemma_requests_delete_concat, requested_spawns,
    requests_delete,
};

verus! {

/// How the window that bounds the world has moved since the tick before.
#[derive(Debug, PartialEq)]
pub struct WindowState<V> {
    pub last_position: Option<V>,
    pub window_speed: V,
    pub delta: V,
}

impl<V: Copy> WindowState<V> {
    /// A window that has not been seen yet and does not move. `rest` is the
    /// host's vector for no movement.
    pub fn new(rest: V) -> (window: Self)
        ensures
            window.last_position is None,
            window.window_speed == rest,
            window.delta == rest,
    {
        WindowState { last_position: None, window_speed: rest, delta: rest }
    }
}

/// Follows the window from one tick to the next.
///
/// `position` is where the window is now, if the host can tell. `measure`
/// takes that position and the one of the tick before and returns the
/// displacement and the speed of the window, in this order. Where one of the
/// two positions is missing the window counts as standing still.
pub fn update_window_speed<V: Copy, F: Fn(V, V) -> (V, V)>(
    sim: &mut WindowState<V>,
    position: Option<V>,
    rest: V,
    measure: F,
)
    requires
        forall|current: V, last: V| call_requires(measure, (current, last)),
    ensures
        final(sim).last_position == position,
        match (position, old(sim).last_position) {
            (Some(current), Some(last)) => call_ensures(
                measure,
                (current, last),
                (final(sim).delta, final(sim).window_speed),
            ),
            _ => final(sim).delta == rest && final(sim).window_speed == rest,
        },
{
    match position {
        Some(current) => {
            if let Some(last) = sim.last_position {
                let (delta, window_speed) = measure(current, last);
                sim.delta = delta;
                sim.window_speed = window_speed;
                sim.last_position = Some(current);
                return ;
            }
            sim.window_speed = rest;
            sim.delta = rest;
            sim.last_position = Some(current);
            return ;
        },
        None => {},
    }
    sim.delta = rest;
    sim.window_speed = rest;
    sim.last_position = None;
}

/// `after` is `before` drawn for the radius `target`, where there is one: its
/// scale is what `ratio` makes of that radius and the radius the particle was
/// created with. Where it is and how it moves does not change.
pub open spec fn rescaled<S, V, R: Fn(S, S) -> S>(
    ratio: R,
    target: Option<S>,
    before: ParticleEntity<S, V>,
    after: ParticleEntity<S, V>,
) -> bool {
    &&& after.position == before.position
    &&& after.velocity == before.velocity
    &&& after.original_radius == before.original_radius
    &&& match target {
        Some(radius) => call_ensures(ratio, (radius, before.original_radius), after.scale),
        None => after.scale == before.scale,
    }
}

/// How many of `existing` particles a queue leaves alive.
pub open spec fn kept_particles<S, V>(
    commands: Seq<SimulationCommands<S, V>>,
    existing: nat,
) -> nat {
    if requests_delete(commands) {
        0
    } else {
        existing
    }
}

/// What a queue makes of the particles. Unless the queue asks for removal the
/// particles that exist stay, in their order, drawn for the last radius that
/// the queue sets. Behind them stand as many new particles as the queue asks
/// for in all, created with `radius`.
pub open spec fn particles_after_commands<S, V, R: Fn(S, S) -> S, P: Fn(Slot) -> V>(
    commands: Seq<SimulationCommands<S, V>>,
    ratio: R,
    place: P,
    radius: S,
    rest: V,
    unit_scale: S,
    before: Seq<ParticleEntity<S, V>>,
    after: Seq<ParticleEntity<S, V>>,
) -> bool {
    let kept = kept_particles(commands, before.len());
    &&& after.len() == kept + requested_spawns(commands)
    &&& forall|k: int|
        0 <= k < kept ==> rescaled(ratio, last_scale(commands), before[k], #[trigger] after[k])
    &&& forall|k: int|
        kept <= k < after.len() ==> spawned(
            place,
            Slot::Anywhere,
            radius,
            rest,
            unit_scale,
            #[trigger] after[k],
        )
}

/// Applies the queued commands, in the order of their submission, and empties
/// the queue. This happens whether or not the simulation is frozen.
///
/// Each parameter takes the value of the last command that sets it. A change
/// of the radius redraws the particles that exist: `ratio` gives the scale for
/// the new radius and the radius a particle was created with. All requests
/// for new particles are served together, after everything else, so that the
/// new particles are created with the radius that the whole queue leaves, and
/// a removal in the same queue does not reach them. `place`, `rest` and
/// `unit_scale` are as in [`spawn_particle`].
pub fn handle_simulation_commands<S: Copy, V: Copy, R: Fn(S, S) -> S, P: Fn(Slot) -> V>(
    sim_state: &mut SimulationState<S, V>,
    particle: &mut Particle<S>,
    physic_rules: &mut PhysicRules<V>,
    entities: &mut Vec<ParticleEntity<S, V>>,
    ratio: R,
    rest: V,
    unit_scale: S,
    place: P,
)
    requires
        requested_spawns(old(sim_state).commands@) <= u64::MAX,
        kept_particles(old(sim_state).commands@, old(entities)@.len()) + requested_spawns(
            old(sim_state).commands@,
        ) <= usize::MAX,
        forall|radius: S, original: S| call_requires(ratio, (radius, original)),
        forall|slot: Slot| call_requires(place, (slot,)),
    ensures
        final(sim_state).freeze == old(sim_state).freeze,
        final(sim_state).commands@.len() == 0,
        *final(particle) == old(particle).after(old(sim_state).commands@),
        *final(physic_rules) == old(physic_rules).after(old(sim_state).commands@),
        particles_after_commands(
            old(sim_state).commands@,
            ratio,
            place,
            final(particle).radius,
            rest,
            unit_scale,
            old(entities)@,
            final(entities)@,
        ),
{
    let ghost commands = sim_state.commands@;
    let mut particle_count: u64 = 0;
    let mut delete = false;
    let count = sim_state.commands.len();
    let existing = entities.len();
    let mut index: usize = 0;
    while index < count
        invariant
            index <= count,
            count == commands.len(),
            sim_state.commands@ == commands,
            sim_state.freeze == old(sim_state).freeze,
            requested_spawns(commands) <= u64::MAX,
            forall|radius: S, original: S| call_requires(ratio, (radius, original)),
            particle_count == requested_spawns(commands.take(index as int)),
            delete == requests_delete(commands.take(index as int)),
            *particle == old(particle).after(commands.take(index as int)),
            *physic_rules == old(physic_rules).after(commands.take(index as int)),
            entities@.len() == existing,
            existing == old(entities)@.len(),
            forall|k: int|
                0 <= k < existing ==> rescaled(
                    ratio,
                    last_scale(commands.take(index as int)),
                    old(entities)@[k],
                    #[trigger] entities@[k],
                ),
        decreases count - index,
    {
        proof {
            let current = commands[index as int];
            let single = seq![current];
            let done = commands.take(index as int);
            let next = commands.take(index + 1);
            assert(next.drop_last() =~= done);
            assert(next =~= done + single);
            assert(commands =~= next + commands.skip(index + 1));
            lemma_requested_spawns_concat(next, commands.skip(index + 1));
            lemma_requests_delete_concat(done, single);
            assert(requests_delete(single) == (current is DeleteAllParticles)) by {
                if current is DeleteAllParticles {
                    assert(single[0] is DeleteAllParticles);
                }
            }
        }
        match &sim_state.commands[index] {
            SimulationCommands::DeleteAllParticles => {
                delete = true;
            },
            SimulationCommands::AddParticle(amount) => {
                particle_count += *amount;
            },
            SimulationCommands::ChangeParticleScale(new_radius) => {
                let mut k: usize = 0;
                while k < existing
                    invariant
                        k <= existing,
                        entities@.len() == existing,
                        existing == old(entities)@.len(),
                        forall|radius: S, original: S| call_requires(ratio, (radius, original)),
                        forall|m: int|
                            0 <= m < k ==> rescaled(
                                ratio,
                                Some(*new_radius),
                                old(entities)@[m],
                                #[trigger] entities@[m],
                            ),
                        forall|m: int|
                            k <= m < existing ==> rescaled(
                                ratio,
                                last_scale(commands.take(index as int)),
                                old(entities)@[m],
                                #[trigger] entities@[m],
                            ),
                    decreases existing - k,
                {
                    let entity = &entities[k];
                    let redrawn = ParticleEntity {
                        position: entity.position,
                        velocity: entity.velocity,
                        original_radius: entity.original_radius,
                        scale: ratio(*new_radius, entity.original_radius),
                    };
                    entities.set(k, redrawn);
                    k += 1;
                }
                particle.radius = *new_radius;
            },
            SimulationCommands::ChangeGravity(gravity) => {
                physic_rules.gravity = *gravity;
            },
            SimulationCommands::ChangeParticleMass(mass) => {
                particle.mass = *mass;
            },
            SimulationCommands::ChangeParticleDampening(dampening) => {
                particle.dampening = *dampening;
            },
        }
        index += 1;
    }
    assert(commands.take(count as int) =~= commands);
    if delete {
        entities.clear();
    }
    if particle_count > 0 {
        spawn_particle(
            entities,
            particle_count,
            particle.radius,
            SpawnSetting::Random,
            rest,
            unit_scale,
            place,
        );
    }
    sim_state.commands.clear();
}

/// A change of the radius moves nothing: under a queue that asks for no
/// removal every particle stays where it was and moves as it did, and is
/// drawn for the last radius that the queue sets.
pub proof fn lemma_commands_keep_motion<S, V, R: Fn(S, S) -> S, P: Fn(Slot) -> V>(
    commands: Seq<SimulationCommands<S, V>>,
    ratio: R,
    place: P,
    radius: S,
    rest: V,
    unit_scale: S,
    before: Seq<ParticleEntity<S, V>>,
    after: Seq<ParticleEntity<S, V>>,
    k: int,
)
    requires
        particles_after_commands(commands, ratio, place, radius, rest, unit_scale, before, after),
        !requests_delete(commands),
        0 <= k < before.len(),
    ensures
        k < after.len(),
        after[k].position == before[k].position,
        after[k].velocity == before[k].velocity,
        after[k].original_radius == before[k].original_radius,
        match last_scale(commands) {
            Some(target) => call_ensures(
                ratio,
                (target, before[k].original_radius),
                after[k].scale,
            ),
            None => after[k].scale == before[k].scale,
        },
{
}

/// New particles take the radius that the whole queue leaves: where the queue
/// sets a radius, before or behind the request for particles, each particle
/// that it creates remembers the last radius set.
pub proof fn lemma_new_particles_use_last_radius<S, V, R: Fn(S, S) -> S, P: Fn(Slot) -> V>(
    commands: Seq<SimulationCommands<S, V>>,
    ratio: R,
    place: P,
    particle: Particle<S>,
    rest: V,
    unit_scale: S,
    before: Seq<ParticleEntity<S, V>>,
    after: Seq<ParticleEntity<S, V>>,
    k: int,
)
    requires
        particles_after_commands(
            commands,
            ratio,
            place,
            particle.after(commands).radius,
            rest,
            unit_scale,
            before,
            after,
        ),
        kept_particles(commands, before.len()) <= k < after.len(),
    ensures
        after[k].original_radius == match last_scale(commands) {
            Some(target) => target,
            None => particle.radius,
        },
        after[k].velocity == rest,
        after[k].scale == unit_scale,
{
}

/// An empty queue changes nothing: the parameters, the rules and the
/// particles stay as they are.
pub proof fn lemma_empty_queue_changes_nothing<S, V, R: Fn(S, S) -> S, P: Fn(Slot) -> V>(
    ratio: R,
    place: P,
    particle: Particle<S>,
    physic_rules: PhysicRules<V>,
    rest: V,
    unit_scale: S,
    before: Seq<ParticleEntity<S, V>>,
    after: Seq<ParticleEntity<S, V>>,
)
    requires
        particles_after_commands(
            Seq::<SimulationCommands<S, V>>::empty(),
            ratio,
            place,
            particle.radius,
            rest,
            unit_scale,
            before,
            after,
        ),
    ensures
        particle.after(Seq::<SimulationCommands<S, V>>::empty()) == particle,
        physic_rules.after(Seq::<SimulationCommands<S, V>>::empty()) == physic_rules,
        after == before,
{
    assert(after =~= before);
}

/// `after` is `before` with its motion replaced by what `confine` makes of it
/// inside `window`.
pub open spec fn confined<S, V, W, F: Fn(W, Motion<V>) -> Motion<V>>(
    confine: F,
    window: W,
    before: ParticleEntity<S, V>,
    after: ParticleEntity<S, V>,
) -> bool {
    &&& call_ensures(confine, (window, before.motion()), after.motion())
    &&& after.original_radius == before.original_radius
    &&& after.scale == before.scale
}

/// What a containment pass makes of the particles: nothing where there is no
/// window, else each one confined to it.
pub open spec fn containment_pass<S, V, W, F: Fn(W, Motion<V>) -> Motion<V>>(
    window: Option<W>,
    confine: F,
    before: Seq<ParticleEntity<S, V>>,
    after: Seq<ParticleEntity<S, V>>,
) -> bool {
    match window {
        None => after == before,
        Some(window) => {
            &&& after.len() == before.len()
            &&& forall|i: int|
                0 <= i < before.len() ==> confined(confine, window, before[i], #[trigger] after[i])
        },
    }
}

/// Keeps every particle inside the window. This pass runs whether or not the
/// simulation is frozen; it is skipped only where the host has no window to
/// show. `confine` takes the window and the motion of a particle and returns
/// the motion that the walls leave it.
pub fn constrain_particle_in_window<
    S: Copy,
    V: Copy,
    W: Copy,
    F: Fn(W, Motion<V>) -> Motion<V>,
>(entities: &mut Vec<ParticleEntity<S, V>>, window: Option<W>, confine: F)
    requires
        forall|window: W, motion: Motion<V>| call_requires(confine, (window, motion)),
    ensures
        containment_pass(window, confine, old(entities)@, final(entities)@),
{
    let window = match window {
        Some(window) => window,
        None => {
            return ;
        },
    };
    let count = entities.len();
    let mut i: usize = 0;
    while i < count
        invariant
            i <= count,
            entities@.len() == count,
            count == old(entities)@.len(),
            forall|window: W, motion: Motion<V>| call_requires(confine, (window, motion)),
            forall|k: int| i <= k < count ==> #[trigger] entities@[k] == old(entities)@[k],
            forall|k: int|
                0 <= k < i ==> confined(
                    confine,
                    window,
                    old(entities)@[k],
                    #[trigger] entities@[k],
                ),
        decreases count - i,
    {
        let entity = &entities[i];
        let motion = confine(
            window,
            Motion { position: entity.position, velocity: entity.velocity },
        );
        let updated = ParticleEntity {
            position: motion.position,
            velocity: motion.velocity,
            original_radius: entity.original_radius,
            scale: entity.scale,
        };
        entities.set(i, updated);
        i += 1;
    }
}

/// A frozen simulation does not move. Gravity, collisions and motion leave
/// every particle as it was, whatever the host's arithmetic would have made
/// of it. The walls are not frozen: the particles are the same after the
/// whole tick where there is no window, or where the walls leave each of them
/// as it is.
pub proof fn lemma_frozen_tick_changes_nothing<
    S,
    V,
    W,
    G: Fn(V) -> V,
    C: Fn(Motion<V>, Motion<V>) -> Option<(Motion<V>, Motion<V>)>,
    M: Fn(V, V) -> V,
    F: Fn(W, Motion<V>) -> Motion<V>,
>(
    accelerate: G,
    resolve: C,
    advance: M,
    confine: F,
    window: Option<W>,
    before: Seq<ParticleEntity<S, V>>,
    after_gravity: Seq<ParticleEntity<S, V>>,
    after_collisions: Seq<ParticleEntity<S, V>>,
    after_motion: Seq<ParticleEntity<S, V>>,
    after_walls: Seq<ParticleEntity<S, V>>,
)
    requires
        gravity_pass(true, accelerate, before, after_gravity),
        collision_pass(true, resolve, after_gravity, after_collisions),
        motion_pass(true, advance, after_collisions, after_motion),
        containment_pass(window, confine, after_motion, after_walls),
        window matches Some(inside) ==> forall|i: int, motion: Motion<V>|
            0 <= i < before.len() && #[trigger] call_ensures(
                confine,
                (inside, before[i].motion()),
                motion,
            ) ==> motion == before[i].motion(),
    ensures
        after_motion == before,
        after_walls == before,
{
    if let Some(inside) = window {
        assert forall|i: int| 0 <= i < before.len() implies after_walls[i] == before[i] by {
            assert(confined(confine, inside, before[i], after_walls[i]));
        }
        assert(after_walls =~= before);
    }
}

} // verus!
