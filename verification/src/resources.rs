//! Shared simulation resources: the global rules, the freeze switch and the
//! queue of configuration commands.
//!
//! The kernel is generic over the host's number types: `S` is its scalar and
//! `V` its vector. Values of these types are carried and handed back, never
//! computed on.

use vstd::prelude::*;

verus! {

/// Rules that hold for the whole world.
#[derive(Debug, PartialEq)]
pub struct PhysicRules<V> {
    pub gravity: V,
}

/// A configuration change submitted by the host, applied at the next tick.
#[derive(Debug, PartialEq)]
pub enum SimulationCommands<S, V> {
    DeleteAllParticles,
    AddParticle(u64),
    ChangeParticleScale(S),
    ChangeGravity(V),
    ChangeParticleMass(S),
    ChangeParticleDampening(S),
}

/// The switch and the queue that the host writes between ticks.
#[derive(Debug)]
pub struct SimulationState<S, V> {
    pub freeze: bool,
    pub commands: Vec<SimulationCommands<S, V>>,
}

impl<S, V> SimulationCommands<S, V> {
    /// How many particles this one command asks for.
    pub open spec fn spawn_count(self) -> nat {
        match self {
            SimulationCommands::AddParticle(amount) => amount as nat,
            _ => 0,
        }
    }
}

/// The number of particles a queue asks for: the sum over its `AddParticle`
/// entries.
pub open spec fn requested_spawns<S, V>(commands: Seq<SimulationCommands<S, V>>) -> nat
    decreases commands.len(),
{
    if commands.len() == 0 {
        0
    } else {
        requested_spawns(commands.drop_last()) + commands.last().spawn_count()
    }
}

/// Whether a queue asks, at least once, for every particle to be removed.
pub open spec fn requests_delete<S, V>(commands: Seq<SimulationCommands<S, V>>) -> bool {
    exists|i: int| 0 <= i < commands.len() && #[trigger] commands[i] is DeleteAllParticles
}

/// The radius that the last `ChangeParticleScale` of a queue sets, if it has one.
pub open spec fn last_scale<S, V>(commands: Seq<SimulationCommands<S, V>>) -> Option<S>
    decreases commands.len(),
{
    if commands.len() == 0 {
        None
    } else {
        match commands.last() {
            SimulationCommands::ChangeParticleScale(radius) => Some(radius),
            _ => last_scale(commands.drop_last()),
        }
    }
}

/// The gravity that the last `ChangeGravity` of a queue sets, if it has one.
pub open spec fn last_gravity<S, V>(commands: Seq<SimulationCommands<S, V>>) -> Option<V>
    decreases commands.len(),
{
    if commands.len() == 0 {
        None
    } else {
        match commands.last() {
            SimulationCommands::ChangeGravity(gravity) => Some(gravity),
            _ => last_gravity(commands.drop_last()),
        }
    }
}

/// The mass that the last `ChangeParticleMass` of a queue sets, if it has one.
pub open spec fn last_mass<S, V>(commands: Seq<SimulationCommands<S, V>>) -> Option<S>
    decreases commands.len(),
{
    if commands.len() == 0 {
        None
    } else {
        match commands.last() {
            SimulationCommands::ChangeParticleMass(mass) => Some(mass),
            _ => last_mass(commands.drop_last()),
        }
    }
}

/// The dampening that the last `ChangeParticleDampening` of a queue sets, if it
/// has one.
pub open spec fn last_dampening<S, V>(commands: Seq<SimulationCommands<S, V>>) -> Option<S>
    decreases commands.len(),
{
    if commands.len() == 0 {
        None
    } else {
        match commands.last() {
            SimulationCommands::ChangeParticleDampening(dampening) => Some(dampening),
            _ => last_dampening(commands.drop_last()),
        }
    }
}

/// A queue asks for as many particles as its two parts together, wherever it
/// is cut.
pub proof fn lemma_requested_spawns_concat<S, V>(
    first: Seq<SimulationCommands<S, V>>,
    second: Seq<SimulationCommands<S, V>>,
)
    ensures
        requested_spawns(first + second) == requested_spawns(first) + requested_spawns(second),
    decreases second.len(),
{
    if second.len() == 0 {
        assert(first + second =~= first);
    } else {
        lemma_requested_spawns_concat(first, second.drop_last());
        assert((first + second).drop_last() =~= first + second.drop_last());
    }
}

/// A queue asks for removal exactly if one of its two parts does, wherever it
/// is cut.
pub proof fn lemma_requests_delete_concat<S, V>(
    first: Seq<SimulationCommands<S, V>>,
    second: Seq<SimulationCommands<S, V>>,
)
    ensures
        requests_delete(first + second) == (requests_delete(first) || requests_delete(second)),
{
    let whole = first + second;
    if requests_delete(first) {
        let i = choose|i: int| 0 <= i < first.len() && #[trigger] first[i] is DeleteAllParticles;
        assert(whole[i] is DeleteAllParticles);
    }
    if requests_delete(second) {
        let i = choose|i: int| 0 <= i < second.len() && #[trigger] second[i] is DeleteAllParticles;
        assert(whole[first.len() + i] is DeleteAllParticles);
    }
    if requests_delete(whole) {
        let i = choose|i: int| 0 <= i < whole.len() && #[trigger] whole[i] is DeleteAllParticles;
        if i < first.len() {
            assert(first[i] is DeleteAllParticles);
        } else {
            assert(second[i - first.len()] is DeleteAllParticles);
        }
    }
}

/// Within a queue the later command wins: the radius that a queue sets is the
/// one that its second part sets, and only without one there the one that its
/// first part sets. The same holds of gravity, mass and dampening.
pub proof fn lemma_later_command_wins<S, V>(
    first: Seq<SimulationCommands<S, V>>,
    second: Seq<SimulationCommands<S, V>>,
)
    ensures
        last_scale(first + second) == if last_scale(second) is Some {
            last_scale(second)
        } else {
            last_scale(first)
        },
        last_gravity(first + second) == if last_gravity(second) is Some {
            last_gravity(second)
        } else {
            last_gravity(first)
        },
        last_mass(first + second) == if last_mass(second) is Some {
            last_mass(second)
        } else {
            last_mass(first)
        },
        last_dampening(first + second) == if last_dampening(second) is Some {
            last_dampening(second)
        } else {
            last_dampening(first)
        },
    decreases second.len(),
{
    if second.len() == 0 {
        assert(first + second =~= first);
    } else {
        lemma_later_command_wins(first, second.drop_last());
        assert((first + second).drop_last() =~= first + second.drop_last());
    }
}

impl<V> PhysicRules<V> {
    /// These rules once a queue has been applied: the last `ChangeGravity`
    /// replaces the gravity, and nothing else touches it.
    pub open spec fn after<S>(self, commands: Seq<SimulationCommands<S, V>>) -> Self {
        PhysicRules {
            gravity: match last_gravity(commands) {
                Some(gravity) => gravity,
                None => self.gravity,
            },
        }
    }
}

impl<S, V> Default for SimulationState<S, V> {
    /// A running simulation with nothing queued.
    fn default() -> (state: Self)
        ensures
            !state.freeze,
            state.commands@ == Seq::<SimulationCommands<S, V>>::empty(),
    {
        SimulationState { freeze: false, commands: Vec::new() }
    }
}

impl<S, V> SimulationState<S, V> {
    /// Whether a removal of all particles is already waiting in the queue.
    pub fn delete_pending(&self) -> (pending: bool)
        ensures
            pending == requests_delete(self.commands@),
    {
        let mut i: usize = 0;
        while i < self.commands.len()
            invariant
                i <= self.commands@.len(),
                forall|k: int| 0 <= k < i ==> !(#[trigger] self.commands@[k] is DeleteAllParticles),
            decreases self.commands@.len() - i,
        {
            if let SimulationCommands::DeleteAllParticles = self.commands[i] {
                return true;
            }
            i += 1;
        }
        false
    }

    /// The number of particles that the queue asks for in all, or `None`
    /// where that number is too large to count.
    pub fn pending_spawns(&self) -> (total: Option<u64>)
        ensures
            match total {
                Some(count) => count == requested_spawns(self.commands@),
                None => requested_spawns(self.commands@) > u64::MAX,
            },
    {
        let mut count: u64 = 0;
        let mut i: usize = 0;
        while i < self.commands.len()
            invariant
                i <= self.commands@.len(),
                count == requested_spawns(self.commands@.take(i as int)),
            decreases self.commands@.len() - i,
        {
            proof {
                let next = self.commands@.take(i + 1);
                assert(next.drop_last() =~= self.commands@.take(i as int));
                assert(self.commands@ =~= next + self.commands@.skip(i + 1));
                lemma_requested_spawns_concat(next, self.commands@.skip(i + 1));
            }
            if let SimulationCommands::AddParticle(amount) = &self.commands[i] {
                match count.checked_add(*amount) {
                    Some(sum) => {
                        count = sum;
                    },
                    None => {
                        return None;
                    },
                }
            }
            i += 1;
        }
        assert(self.commands@.take(i as int) =~= self.commands@);
        Some(count)
    }

    /// Appends a command to the queue.
    pub fn submit(&mut self, command: SimulationCommands<S, V>)
        ensures
            final(self).freeze == old(self).freeze,
            final(self).commands@ == old(self).commands@.push(command),
    {
        self.commands.push(command);
    }

    /// Queues the removal of all particles, unless one is waiting already.
    pub fn request_reset(&mut self)
        ensures
            final(self).freeze == old(self).freeze,
            final(self).commands@ == if requests_delete(old(self).commands@) {
                old(self).commands@
            } else {
                old(self).commands@.push(SimulationCommands::DeleteAllParticles)
            },
    {
        if !self.delete_pending() {
            self.commands.push(SimulationCommands::DeleteAllParticles);
        }
    }
}

/// Sets up the resources that every simulation starts from.
pub struct ResourcePlugin;

impl ResourcePlugin {
    /// A running simulation with an empty queue, under the gravity that the
    /// host starts with.
    pub fn build<S, V>(&self, gravity: V) -> (resources: (SimulationState<S, V>, PhysicRules<V>))
        ensures
            !resources.0.freeze,
            resources.0.commands@ == Seq::<SimulationCommands<S, V>>::empty(),
            resources.1.gravity == gravity,
    {
        (SimulationState::default(), PhysicRules { gravity })
    }
}

} // verus!
