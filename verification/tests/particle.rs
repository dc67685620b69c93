use std::cell::RefCell;

use particle_sim::particle::{
    collide_particles, gravity, spawn_particle, update_particle_position, Motion, ParticleEntity,
    Slot, SpawnSetting,
};
use particle_sim::resources::SimulationState;

type Vec2 = (f32, f32);

fn plus(a: Vec2, b: Vec2) -> Vec2 {
    (a.0 + b.0, a.1 + b.1)
}

fn minus(a: Vec2, b: Vec2) -> Vec2 {
    (a.0 - b.0, a.1 - b.1)
}

fn times(a: Vec2, factor: f32) -> Vec2 {
    (a.0 * factor, a.1 * factor)
}

fn dot(a: Vec2, b: Vec2) -> f32 {
    a.0 * b.0 + a.1 * b.1
}

fn project_onto(a: Vec2, axis: Vec2) -> Vec2 {
    times(times(axis, dot(a, axis)), dot(axis, axis).recip())
}

fn running() -> SimulationState<f32, Vec2> {
    SimulationState::default()
}

fn frozen() -> SimulationState<f32, Vec2> {
    let mut state = SimulationState::default();
    state.freeze = true;
    state
}

fn particle(position: Vec2, velocity: Vec2) -> ParticleEntity<f32, Vec2> {
    ParticleEntity { position, velocity, original_radius: 10.0, scale: 1.0 }
}

/// The contact rule for particles of one radius, mass and dampening. Two
/// particles at the same place are pushed apart along the x axis.
fn contact(
    radius: f32,
    mass: f32,
    dampening: f32,
) -> impl Fn(Motion<Vec2>, Motion<Vec2>) -> Option<(Motion<Vec2>, Motion<Vec2>)> {
    move |a, b| {
        let apart = minus(a.position, b.position);
        let dist = dot(apart, apart).sqrt();
        let overlap = 2.0 * radius - dist;
        if !(overlap > 0.0) {
            return None;
        }
        let direction = if dist == 0.0 { (1.0, 0.0) } else { times(apart, dist.recip()) };
        let shift = times(direction, overlap / 2.0);
        let va_n = project_onto(a.velocity, times(direction, -1.0));
        let va_t = minus(a.velocity, va_n);
        let vb_n = project_onto(b.velocity, direction);
        let vb_t = minus(b.velocity, vb_n);
        let total = mass + mass;
        let va_n_new = times(
            times(
                plus(times(va_n, mass), times(minus(times(vb_n, 2.0), va_n), mass)),
                total.recip(),
            ),
            dampening,
        );
        let vb_n_new = times(
            times(
                plus(times(vb_n, mass), times(minus(times(va_n, 2.0), vb_n), mass)),
                total.recip(),
            ),
            dampening,
        );
        Some((
            Motion { position: plus(a.position, shift), velocity: plus(va_n_new, va_t) },
            Motion { position: minus(b.position, shift), velocity: plus(vb_n_new, vb_t) },
        ))
    }
}

#[test]
fn gravity_then_motion_integrates_in_two_euler_steps() {
    let g = (0.0, -10.0);
    let dt = 0.5;
    let state = running();
    let mut entities = vec![particle((0.0, 0.0), (0.0, 0.0))];
    gravity(&state, &mut entities, |velocity| plus(velocity, times(g, dt)));
    assert_eq!(entities[0].velocity, times(g, dt));
    assert_eq!(entities[0].velocity, (0.0, -5.0));
    assert_eq!(entities[0].position, (0.0, 0.0));
    update_particle_position(&mut entities, &state, |position, velocity| {
        plus(position, times(velocity, dt))
    });
    assert_eq!(entities[0].position, times(times(g, dt), dt));
    assert_eq!(entities[0].position, (0.0, -2.5));
    assert_eq!(entities[0].velocity, (0.0, -5.0));
}

#[test]
fn gravity_reaches_every_particle_and_only_its_velocity() {
    let state = running();
    let mut entities = vec![
        ParticleEntity {
            position: (1.0, 2.0),
            velocity: (3.0, 4.0),
            original_radius: 5.0,
            scale: 6.0,
        },
        ParticleEntity {
            position: (7.0, 8.0),
            velocity: (9.0, 10.0),
            original_radius: 11.0,
            scale: 12.0,
        },
    ];
    gravity(&state, &mut entities, |velocity| plus(velocity, (0.0, -1.0)));
    assert_eq!(
        entities,
        vec![
            ParticleEntity {
                position: (1.0, 2.0),
                velocity: (3.0, 3.0),
                original_radius: 5.0,
                scale: 6.0,
            },
            ParticleEntity {
                position: (7.0, 8.0),
                velocity: (9.0, 9.0),
                original_radius: 11.0,
                scale: 12.0,
            },
        ]
    );
}

#[test]
fn motion_reaches_every_particle_and_only_its_position() {
    let state = running();
    let mut entities = vec![
        ParticleEntity {
            position: (1.0, 2.0),
            velocity: (3.0, 4.0),
            original_radius: 5.0,
            scale: 6.0,
        },
        ParticleEntity {
            position: (7.0, 8.0),
            velocity: (-1.0, 0.5),
            original_radius: 11.0,
            scale: 12.0,
        },
    ];
    update_particle_position(&mut entities, &state, |position, velocity| {
        plus(position, times(velocity, 2.0))
    });
    assert_eq!(
        entities,
        vec![
            ParticleEntity {
                position: (7.0, 10.0),
                velocity: (3.0, 4.0),
                original_radius: 5.0,
                scale: 6.0,
            },
            ParticleEntity {
                position: (5.0, 9.0),
                velocity: (-1.0, 0.5),
                original_radius: 11.0,
                scale: 12.0,
            },
        ]
    );
}

#[test]
fn frozen_simulation_skips_gravity_collisions_and_motion() {
    let state = frozen();
    let mut entities = vec![particle((-5.0, 0.0), (3.0, 0.0)), particle((5.0, 0.0), (-3.0, 0.0))];
    let calls = RefCell::new(0u32);
    gravity(&state, &mut entities, |velocity| {
        *calls.borrow_mut() += 1;
        plus(velocity, (0.0, -100.0))
    });
    collide_particles(&state, &mut entities, |a, b| {
        *calls.borrow_mut() += 1;
        contact(10.0, 1.0, 0.5)(a, b)
    });
    update_particle_position(&mut entities, &state, |position, velocity| {
        *calls.borrow_mut() += 1;
        plus(position, velocity)
    });
    assert_eq!(*calls.borrow(), 0);
    assert_eq!(
        entities,
        vec![particle((-5.0, 0.0), (3.0, 0.0)), particle((5.0, 0.0), (-3.0, 0.0))]
    );
}

#[test]
fn head_on_collision_flips_and_damps_velocities() {
    let state = running();
    let radius = 10.0;
    let dampening = 0.5;
    let v = 3.0;
    let mut entities = vec![particle((-5.0, 0.0), (v, 0.0)), particle((5.0, 0.0), (-v, 0.0))];
    collide_particles(&state, &mut entities, contact(radius, 1.0, dampening));
    assert_eq!(entities[0].velocity, (-v * dampening, 0.0));
    assert_eq!(entities[1].velocity, (v * dampening, 0.0));
    assert_eq!(entities[0].position, (-10.0, 0.0));
    assert_eq!(entities[1].position, (10.0, 0.0));
    let apart = minus(entities[1].position, entities[0].position);
    assert_eq!(dot(apart, apart).sqrt(), 2.0 * radius);
    assert_eq!(entities[0].original_radius, 10.0);
    assert_eq!(entities[1].scale, 1.0);
}

#[test]
fn collision_keeps_tangential_velocity() {
    let state = running();
    let mut entities = vec![particle((-5.0, 0.0), (2.0, 7.0)), particle((5.0, 0.0), (-2.0, -1.0))];
    collide_particles(&state, &mut entities, contact(10.0, 4.0, 1.0));
    assert_eq!(entities[0].velocity, (-2.0, 7.0));
    assert_eq!(entities[1].velocity, (2.0, -1.0));
}

#[test]
fn particles_apart_do_not_interact() {
    let state = running();
    let mut entities = vec![particle((-10.0, 0.0), (3.0, 0.0)), particle((10.0, 0.0), (-3.0, 0.0))];
    collide_particles(&state, &mut entities, contact(10.0, 1.0, 0.5));
    assert_eq!(
        entities,
        vec![particle((-10.0, 0.0), (3.0, 0.0)), particle((10.0, 0.0), (-3.0, 0.0))]
    );
}

#[test]
fn particles_at_one_place_part_along_the_x_axis() {
    let state = running();
    let mut entities = vec![particle((4.0, 4.0), (0.0, 0.0)), particle((4.0, 4.0), (0.0, 0.0))];
    collide_particles(&state, &mut entities, contact(10.0, 1.0, 0.5));
    assert_eq!(entities[0].position, (14.0, 4.0));
    assert_eq!(entities[1].position, (-6.0, 4.0));
    assert_eq!(entities[0].velocity, (0.0, 0.0));
    assert_eq!(entities[1].velocity, (0.0, 0.0));
}

#[test]
fn collision_pass_visits_each_pair_once_in_order() {
    let state = running();
    let mut entities: Vec<ParticleEntity<f32, Vec2>> =
        (0..4).map(|id| particle((id as f32, 0.0), (0.0, 0.0))).collect();
    let visits = RefCell::new(Vec::new());
    collide_particles(&state, &mut entities, |a: Motion<Vec2>, b: Motion<Vec2>| {
        visits.borrow_mut().push((a.position.0 as u32, b.position.0 as u32));
        None
    });
    assert_eq!(*visits.borrow(), vec![(0, 1), (0, 2), (0, 3), (1, 2), (1, 3), (2, 3)]);
}

#[test]
fn later_pairs_see_what_earlier_pairs_left() {
    let state = running();
    let mut entities = vec![
        particle((0.0, 0.0), (1.0, 0.0)),
        particle((0.0, 0.0), (10.0, 0.0)),
        particle((0.0, 0.0), (100.0, 0.0)),
    ];
    collide_particles(&state, &mut entities, |a: Motion<Vec2>, b: Motion<Vec2>| {
        let sum = plus(a.velocity, b.velocity);
        Some((
            Motion { position: a.position, velocity: sum },
            Motion { position: b.position, velocity: sum },
        ))
    });
    assert_eq!(entities[0].velocity, (111.0, 0.0));
    assert_eq!(entities[1].velocity, (122.0, 0.0));
    assert_eq!(entities[2].velocity, (122.0, 0.0));
}

#[test]
fn collision_pass_of_one_particle_calls_nothing() {
    let state = running();
    let mut entities = vec![particle((0.0, 0.0), (1.0, 0.0))];
    let calls = RefCell::new(0u32);
    collide_particles(&state, &mut entities, |_a: Motion<Vec2>, _b: Motion<Vec2>| {
        *calls.borrow_mut() += 1;
        None
    });
    assert_eq!(*calls.borrow(), 0);
    assert_eq!(entities, vec![particle((0.0, 0.0), (1.0, 0.0))]);
}

#[test]
fn grid_spawn_places_six_particles_row_by_row() {
    let amount: u64 = 6;
    let grid_width: f32 = 2.0;
    let columns = (amount as f32 / grid_width) as u64;
    assert_eq!(columns, 3);
    let corner = -(columns as f32) * grid_width;
    let mut entities: Vec<ParticleEntity<f32, Vec2>> = Vec::new();
    spawn_particle(
        &mut entities,
        amount,
        10.0,
        SpawnSetting::GridSpawn(columns),
        (0.0, 0.0),
        1.0,
        |slot| match slot {
            Slot::Cell { column, row } => {
                (column as f32 * grid_width + corner, row as f32 * grid_width + corner)
            },
            Slot::Anywhere => panic!("a grid has no free slots"),
        },
    );
    let positions: Vec<Vec2> = entities.iter().map(|entity| entity.position).collect();
    assert_eq!(
        positions,
        vec![(-6.0, -6.0), (-4.0, -6.0), (-2.0, -6.0), (-6.0, -4.0), (-4.0, -4.0), (-2.0, -4.0)]
    );
    for entity in &entities {
        assert_eq!(entity.velocity, (0.0, 0.0));
        assert_eq!(entity.original_radius, 10.0);
        assert_eq!(entity.scale, 1.0);
    }
}

#[test]
fn grid_spawn_hands_out_cells_in_reading_order() {
    let cells = RefCell::new(Vec::new());
    let mut entities: Vec<ParticleEntity<f32, Vec2>> = Vec::new();
    spawn_particle(&mut entities, 5, 1.0, SpawnSetting::GridSpawn(2), (0.0, 0.0), 1.0, |slot| {
        cells.borrow_mut().push(slot);
        (0.0, 0.0)
    });
    assert_eq!(
        *cells.borrow(),
        vec![
            Slot::Cell { column: 0, row: 0 },
            Slot::Cell { column: 1, row: 0 },
            Slot::Cell { column: 0, row: 1 },
            Slot::Cell { column: 1, row: 1 },
            Slot::Cell { column: 0, row: 2 },
        ]
    );
}

#[test]
fn random_spawn_places_each_particle_inside_the_window() {
    let (width, height) = (800.0f32, 600.0f32);
    let draws = RefCell::new(vec![0.0f32, 0.25, 0.5, 0.75, 0.999]);
    let mut entities = vec![particle((1.0, 2.0), (3.0, 4.0))];
    spawn_particle(&mut entities, 2, 7.0, SpawnSetting::Random, (0.0, 0.0), 1.0, |slot| {
        assert_eq!(slot, Slot::Anywhere);
        let x = draws.borrow_mut().remove(0);
        let y = draws.borrow_mut().remove(0);
        (x * width - width / 2.0, y * height - height / 2.0)
    });
    assert_eq!(entities.len(), 3);
    assert_eq!(entities[0], particle((1.0, 2.0), (3.0, 4.0)));
    assert_eq!(entities[1].position, (-400.0, -150.0));
    assert_eq!(entities[2].position, (0.0, 150.0));
    for entity in &entities[1..] {
        assert!(entity.position.0 >= -width / 2.0 && entity.position.0 < width / 2.0);
        assert!(entity.position.1 >= -height / 2.0 && entity.position.1 < height / 2.0);
        assert_eq!(entity.velocity, (0.0, 0.0));
        assert_eq!(entity.original_radius, 7.0);
        assert_eq!(entity.scale, 1.0);
    }
}

#[test]
fn spawn_of_nothing_leaves_the_particles_alone() {
    let mut entities = vec![particle((1.0, 2.0), (3.0, 4.0))];
    spawn_particle(&mut entities, 0, 7.0, SpawnSetting::GridSpawn(0), (0.0, 0.0), 1.0, |_slot| {
        panic!("nothing to place")
    });
    assert_eq!(entities, vec![particle((1.0, 2.0), (3.0, 4.0))]);
}
