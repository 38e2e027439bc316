use chaotic_ball::{finite, Ball, Circle, Click, Point, Simulation, PALETTE_SIZE};

fn bits(x: f32, y: f32) -> Point {
    Point::new(x.to_bits(), y.to_bits())
}

fn drift(pos: Point, vel: Point) -> (Point, Point) {
    let x = f32::from_bits(pos.x) + f32::from_bits(vel.x);
    let y = f32::from_bits(pos.y) + f32::from_bits(vel.y);
    (bits(x, y), vel)
}

fn with_balls(count: usize) -> Simulation {
    let mut simulation = Simulation::new();
    for n in 0..count {
        simulation.spawn(bits(n as f32, 100.0), true);
    }
    simulation
}

#[test]
fn new_simulation_has_standard_geometry() {
    let simulation = Simulation::new();
    assert!(simulation.balls.is_empty());
    assert_eq!(f32::from_bits(simulation.radius), 10.0);
    assert_eq!(f32::from_bits(simulation.outer_radius), 200.0);
    assert_eq!(f32::from_bits(simulation.step_size), 0.000001);
}

#[test]
fn palette_has_nine_slots() {
    assert_eq!(PALETTE_SIZE, 9);
}

#[test]
fn spawn_inside_appends_particle_at_rest() {
    let mut simulation = Simulation::new();
    simulation.spawn(bits(250.0, 60.0), true);
    assert_eq!(
        simulation.balls,
        vec![Ball { pos: bits(250.0, 60.0), vel: bits(0.0, 0.0), color: 0 }]
    );
    assert_eq!(simulation.balls[0].vel, Point::zero());
}

#[test]
fn spawn_outside_boundary_is_ignored() {
    let mut simulation = with_balls(3);
    let before = simulation.balls.clone();
    simulation.spawn(bits(250.0, 59.0), false);
    assert_eq!(simulation.balls.len(), 3);
    assert_eq!(simulation.balls, before);
}

#[test]
fn spawn_leaves_geometry_alone() {
    let mut simulation = Simulation::new();
    simulation.step_size = 0.01f32.to_bits();
    simulation.spawn(bits(1.0, 2.0), true);
    simulation.spawn(bits(1.0, 2.0), false);
    assert_eq!(f32::from_bits(simulation.step_size), 0.01);
    assert_eq!(f32::from_bits(simulation.radius), 10.0);
    assert_eq!(f32::from_bits(simulation.outer_radius), 200.0);
}

#[test]
fn palette_cycles_in_creation_order() {
    let simulation = with_balls(20);
    let colors: Vec<usize> = simulation.balls.iter().map(|b| b.color).collect();
    assert_eq!(colors, vec![0, 1, 2, 3, 4, 5, 6, 7, 8, 0, 1, 2, 3, 4, 5, 6, 7, 8, 0, 1]);
}

#[test]
fn rejected_spawn_does_not_consume_a_palette_slot() {
    let mut simulation = Simulation::new();
    simulation.spawn(bits(1.0, 1.0), true);
    simulation.spawn(bits(900.0, 1.0), false);
    simulation.spawn(bits(2.0, 2.0), true);
    assert_eq!(simulation.balls[1].color, 1);
}

#[test]
fn input_click_inside_spawns() {
    let mut simulation = Simulation::new();
    simulation.input(Some(Click { position: bits(200.0, 210.0), inside: true }));
    assert_eq!(simulation.balls.len(), 1);
    assert_eq!(simulation.balls[0].pos, bits(200.0, 210.0));
    assert_eq!(simulation.balls[0].color, 0);
}

#[test]
fn input_click_outside_is_ignored() {
    let mut simulation = Simulation::new();
    simulation.input(Some(Click { position: bits(0.0, 0.0), inside: false }));
    assert!(simulation.balls.is_empty());
}

#[test]
fn input_without_click_changes_nothing() {
    let mut simulation = with_balls(2);
    simulation.input(None);
    assert_eq!(simulation.balls.len(), 2);
}

#[test]
fn advance_calls_integrator_exactly_steps_times() {
    let mut ball = Ball { pos: bits(0.0, 0.0), vel: bits(1.0, 2.0), color: 5 };
    ball.advance(7, &drift);
    assert_eq!(ball.pos, bits(7.0, 14.0));
    assert_eq!(ball.vel, bits(1.0, 2.0));
    assert_eq!(ball.color, 5);
}

#[test]
fn advance_feeds_each_result_to_the_next_call() {
    let double = |pos: Point, vel: Point| (Point::new(pos.x * 2, pos.y + 1), vel);
    let mut ball = Ball { pos: Point::new(1, 0), vel: Point::zero(), color: 0 };
    ball.advance(10, &double);
    assert_eq!(ball.pos, Point::new(1024, 10));
}

#[test]
fn update_moves_every_particle_by_the_same_number_of_steps() {
    let mut simulation = with_balls(4);
    for ball in simulation.balls.iter_mut() {
        ball.vel = bits(0.5, -1.0);
    }
    simulation.update(6, &drift);
    for (n, ball) in simulation.balls.iter().enumerate() {
        assert_eq!(ball.pos, bits(n as f32 + 3.0, 94.0));
        assert_eq!(ball.color, n);
    }
}

#[test]
fn update_of_zero_steps_changes_nothing() {
    let mut simulation = with_balls(3);
    let before = simulation.balls.clone();
    simulation.update(0, &drift);
    assert_eq!(simulation.balls, before);
}

#[test]
fn update_keeps_geometry_and_step_size() {
    let mut simulation = with_balls(2);
    simulation.update(5, &drift);
    assert_eq!(f32::from_bits(simulation.radius), 10.0);
    assert_eq!(f32::from_bits(simulation.outer_radius), 200.0);
    assert_eq!(f32::from_bits(simulation.step_size), 0.000001);
}

#[test]
fn two_updates_equal_one_update_of_both_lengths() {
    let accelerate = |pos: Point, vel: Point| {
        let vy = f32::from_bits(vel.y) + 0.25;
        let x = f32::from_bits(pos.x) + f32::from_bits(vel.x);
        let y = f32::from_bits(pos.y) + vy;
        (bits(x, y), bits(f32::from_bits(vel.x), vy))
    };
    let mut in_two = with_balls(5);
    let mut in_one = with_balls(5);
    in_two.update(1, &accelerate);
    in_two.update(1, &accelerate);
    in_one.update(2, &accelerate);
    assert_eq!(in_two.balls, in_one.balls);

    let mut in_two = with_balls(5);
    let mut in_one = with_balls(5);
    in_two.update(13, &accelerate);
    in_two.update(29, &accelerate);
    in_one.update(42, &accelerate);
    assert_eq!(in_two.balls, in_one.balls);
}

#[test]
fn finite_agrees_with_the_encoding() {
    let values = [
        0.0f32,
        -0.0,
        1.0,
        -1.0,
        f32::MAX,
        f32::MIN,
        f32::MIN_POSITIVE,
        1.0e-45,
        f32::INFINITY,
        f32::NEG_INFINITY,
        f32::NAN,
        -f32::NAN,
        250.0,
        980.0,
    ];
    for value in values {
        assert_eq!(finite(value.to_bits()), value.is_finite());
    }
    assert!(!finite(0x7f80_0001));
    assert!(!finite(0xffff_ffff));
    assert!(finite(0x7f7f_ffff));
}

#[test]
fn point_is_finite_when_both_coordinates_are() {
    assert!(bits(1.0, 2.0).finite());
    assert!(!bits(f32::NAN, 2.0).finite());
    assert!(!bits(1.0, f32::INFINITY).finite());
}

#[test]
fn first_non_finite_is_none_for_finite_particles() {
    assert_eq!(with_balls(4).first_non_finite(), None);
    assert_eq!(Simulation::new().first_non_finite(), None);
}

#[test]
fn first_non_finite_finds_the_first_degenerate_particle() {
    let mut simulation = with_balls(5);
    simulation.balls[3].vel = bits(f32::NAN, 0.0);
    simulation.balls[4].pos = bits(0.0, f32::INFINITY);
    assert_eq!(simulation.first_non_finite(), Some(3));
    simulation.balls[1].pos = bits(f32::NEG_INFINITY, 0.0);
    assert_eq!(simulation.first_non_finite(), Some(1));
}

#[test]
fn draw_lists_one_circle_per_particle() {
    let simulation = with_balls(3);
    let scene = simulation.draw();
    assert_eq!(f32::from_bits(scene.outer_radius), 200.0);
    assert_eq!(
        scene.circles,
        vec![
            Circle { center: bits(0.0, 100.0), radius: 10.0f32.to_bits(), color: 0 },
            Circle { center: bits(1.0, 100.0), radius: 10.0f32.to_bits(), color: 1 },
            Circle { center: bits(2.0, 100.0), radius: 10.0f32.to_bits(), color: 2 },
        ]
    );
}

#[test]
fn draw_of_empty_simulation_has_no_circle() {
    assert!(Simulation::new().draw().circles.is_empty());
}
