use craft_autopilot::model::{
    Body, Command, Component, ComponentCmd, Engine, Mount, Spacecraft, Weapon,
};
use craft_autopilot::propulsion::{
    achieve_velocity, approach_velocity, direction_to, drive_engines, fly_to, improved_fly_to,
    impulse_fly_to, impulse_steering_direction, misaligned, optimal_thrust_degree,
    optimal_thrust_direction, push, pursuit_direction, rotate_to_direction, steering_direction, Drive,
};
use craft_autopilot::vec2::Vec2;

fn body_at(x: i64, y: i64) -> Body {
    Body { position: Vec2::new(x, y), velocity: Vec2::new(0, 0), rotation: 0, angular_velocity: 0 }
}

fn engine(at: (i64, i64), direction: (i64, i64), thrust: i64) -> Engine {
    Engine {
        position: Vec2::new(at.0, at.1),
        direction: Vec2::new(direction.0, direction.1),
        thrust,
        active: false,
        power: 0,
    }
}

fn mounted(id: u64, engine: Engine) -> Mount {
    Mount { id, component: Component::Engine(engine) }
}

fn craft(components: Vec<Mount>) -> Spacecraft {
    Spacecraft {
        owner: 1,
        body: body_at(0, 0),
        heading: Vec2::new(1000, 0),
        mass: 1000,
        center_of_mass: Vec2::new(0, 0),
        components,
        tags: vec![],
    }
}

fn set_active(component: u64, on: bool) -> Command {
    Command { spacecraft: 42, component, action: ComponentCmd::SetActive(on) }
}

fn set_power(component: u64, power: i64) -> Command {
    Command { spacecraft: 42, component, action: ComponentCmd::SetPower(power) }
}

fn cross() -> Spacecraft {
    craft(vec![
        mounted(1, engine((-1000, 0), (1000, 0), 5000)),
        mounted(2, engine((0, -1000), (0, 1000), 5000)),
        mounted(3, engine((1000, 0), (-1000, 0), 5000)),
        mounted(4, engine((0, 1000), (0, -1000), 5000)),
    ])
}

fn pusher() -> Spacecraft {
    craft(vec![mounted(1, engine((-1000, 0), (1000, 0), 1000))])
}

#[test]
fn four_engines_at_right_angles_push_hardest_along_the_bisector() {
    let ship = cross();
    assert_eq!(optimal_thrust_degree(&ship), 45);
    let (direction, magnitude) = optimal_thrust_direction(&ship);
    assert_eq!(direction, Vec2::new(707, 707));
    assert_eq!(magnitude, 7071);
}

#[test]
fn the_push_along_a_heading_sums_the_aligned_engines() {
    let ship = cross();
    assert_eq!(push(&ship, Vec2::new(1_000_000, 0)), 5_000_000_000_000);
    assert_eq!(push(&ship, Vec2::new(707_107, 707_107)), 7_071_070_000_000);
    assert_eq!(push(&ship, Vec2::new(-500_000, -866_025)), 6_830_125_000_000);
}

#[test]
fn one_engine_pushes_hardest_where_it_points() {
    let ship = craft(vec![mounted(1, engine((0, 0), (0, 1000), 3000))]);
    assert_eq!(optimal_thrust_degree(&ship), 90);
    assert_eq!(optimal_thrust_direction(&ship), (Vec2::new(0, 1000), 3000));
}

#[test]
fn the_fine_scan_finds_a_heading_between_the_coarse_steps() {
    let ship = craft(vec![mounted(1, engine((0, 0), (454, 891), 2000))]);
    assert_eq!(optimal_thrust_degree(&ship), 63);
}

#[test]
fn the_fine_scan_wraps_round_the_full_turn() {
    let ship = craft(vec![mounted(1, engine((0, 0), (998, -70), 2000))]);
    assert_eq!(optimal_thrust_degree(&ship), 356);
}

#[test]
fn of_headings_that_push_alike_the_first_is_kept() {
    let ship = craft(vec![
        mounted(1, engine((0, 0), (1000, 0), 1000)),
        mounted(2, engine((0, 0), (-1000, 0), 1000)),
    ]);
    assert_eq!(optimal_thrust_degree(&ship), 0);
}

#[test]
fn a_craft_without_engines_has_no_thrust() {
    let ship = craft(vec![Mount {
        id: 1,
        component: Component::Weapon(Weapon {
            position: Vec2::new(0, 0),
            orientation: 0,
            projectile_speed: 1000,
            active: false,
            rotation: 0,
        }),
    }]);
    assert_eq!(optimal_thrust_direction(&ship), (Vec2::new(1000, 0), 0));
}

#[test]
fn directions_within_a_tenth_of_a_radian_are_aligned() {
    let ahead = Vec2::new(1000, 0);
    assert!(!misaligned(ahead, Vec2::new(1000, 100)));
    assert!(!misaligned(ahead, Vec2::new(1000, -100)));
    assert!(misaligned(ahead, Vec2::new(1000, 101)));
    assert!(misaligned(ahead, Vec2::new(1000, -101)));
    assert!(misaligned(ahead, Vec2::new(0, 1000)));
    assert!(misaligned(ahead, Vec2::new(-1000, 0)));
    assert!(!misaligned(ahead, Vec2::new(5, 0)));
}

#[test]
fn a_zero_vector_is_off_from_nothing() {
    assert!(!misaligned(Vec2::new(0, 0), Vec2::new(0, 1000)));
    assert!(!misaligned(Vec2::new(-1000, 0), Vec2::new(0, 0)));
}

fn twin() -> Spacecraft {
    craft(vec![
        mounted(1, engine((0, 1000), (1000, 0), 1000)),
        mounted(2, engine((0, -1000), (1000, 0), 1000)),
    ])
}

#[test]
fn turning_counter_clockwise_runs_the_engine_with_positive_torque() {
    let commands = rotate_to_direction((&42, &twin()), 500, 1000);
    assert_eq!(commands, vec![set_active(2, true), set_power(2, 1000)]);
}

#[test]
fn turning_clockwise_runs_the_engine_with_negative_torque() {
    let commands = rotate_to_direction((&42, &twin()), -500, 1000);
    assert_eq!(commands, vec![set_active(1, true), set_power(1, 1000)]);
}

#[test]
fn a_craft_that_turns_too_fast_already_is_braked() {
    let mut ship = twin();
    ship.body.angular_velocity = 600;
    let commands = rotate_to_direction((&42, &ship), 500, 1000);
    assert_eq!(commands, vec![set_active(1, true), set_power(1, 1000)]);
}

#[test]
fn the_turn_asked_for_scales_with_the_speed_factor() {
    let mut ship = twin();
    ship.body.angular_velocity = 400;
    assert_eq!(
        rotate_to_direction((&42, &ship), 500, 700),
        vec![set_active(1, true), set_power(1, 1000)]
    );
    assert_eq!(
        rotate_to_direction((&42, &ship), 500, 900),
        vec![set_active(2, true), set_power(2, 1000)]
    );
}

#[test]
fn turning_shuts_down_the_engine_that_turns_the_wrong_way() {
    let mut ship = twin();
    ship.components[0] = mounted(1, Engine { active: true, power: 1000, ..engine((0, 1000), (1000, 0), 1000) });
    ship.components[1] = mounted(2, Engine { active: true, power: 1000, ..engine((0, -1000), (1000, 0), 1000) });
    assert_eq!(rotate_to_direction((&42, &ship), 500, 1000), vec![set_active(1, false)]);
}

#[test]
fn an_engine_without_torque_counts_as_turning_counter_clockwise() {
    let ship = craft(vec![mounted(1, engine((-1000, 0), (1000, 0), 1000))]);
    assert_eq!(
        rotate_to_direction((&42, &ship), 500, 1000),
        vec![set_active(1, true), set_power(1, 1000)]
    );
    assert_eq!(rotate_to_direction((&42, &ship), -500, 1000), vec![]);
}

#[test]
fn no_turn_asked_counts_as_counter_clockwise() {
    assert_eq!(
        rotate_to_direction((&42, &twin()), 0, 1000),
        vec![set_active(2, true), set_power(2, 1000)]
    );
}

#[test]
fn the_direction_of_pursuit_allows_for_the_craft_s_velocity() {
    let mut ship = pusher();
    assert_eq!(pursuit_direction(&ship, &body_at(3000, 4000)), Vec2::new(600, 800));
    ship.body.velocity = Vec2::new(0, 10_000);
    assert_eq!(pursuit_direction(&ship, &body_at(10_000, 0)), Vec2::new(707, -707));
    ship.body.position = Vec2::new(1000, 1000);
    ship.body.velocity = Vec2::new(0, 0);
    assert_eq!(pursuit_direction(&ship, &body_at(1000, -5000)), Vec2::new(0, -1000));
}

#[test]
fn flying_throttles_each_engine_to_its_alignment() {
    let ship = craft(vec![
        mounted(1, engine((-1000, 0), (1000, 0), 1000)),
        mounted(2, Engine { active: true, power: 500, ..engine((1000, 0), (-1000, 0), 1000) }),
        mounted(3, engine((0, -1000), (0, 1000), 1000)),
    ]);
    let commands = fly_to((&42, &ship), body_at(3000, 4000));
    assert_eq!(
        commands,
        vec![
            set_active(1, true),
            set_power(1, 600),
            set_active(2, false),
            set_active(3, true),
            set_power(3, 800),
        ]
    );
}

#[test]
fn flying_counts_the_heading_of_the_craft() {
    let mut ship = pusher();
    ship.heading = Vec2::new(0, 1000);
    assert_eq!(fly_to((&42, &ship), body_at(10_000, 0)), vec![]);
    assert_eq!(
        fly_to((&42, &ship), body_at(0, 10_000)),
        vec![set_active(1, true), set_power(1, 1000)]
    );
}

#[test]
fn flying_sets_power_only_beyond_the_tolerance() {
    let near = craft(vec![mounted(
        1,
        Engine { active: true, power: 500, ..engine((-1000, 0), (1000, 0), 1000) },
    )]);
    assert_eq!(fly_to((&42, &near), body_at(3000, 4000)), vec![]);
    let far = craft(vec![mounted(
        1,
        Engine { active: true, power: 499, ..engine((-1000, 0), (1000, 0), 1000) },
    )]);
    assert_eq!(fly_to((&42, &far), body_at(3000, 4000)), vec![set_power(1, 600)]);
}

#[test]
fn flying_twice_asks_for_nothing_the_second_time() {
    let ship = pusher();
    let target = body_at(3000, 4000);
    assert_eq!(fly_to((&42, &ship), target), vec![set_active(1, true), set_power(1, 600)]);
    let settled = craft(vec![mounted(
        1,
        Engine { active: true, power: 600, ..engine((-1000, 0), (1000, 0), 1000) },
    )]);
    assert_eq!(fly_to((&42, &settled), target), vec![]);
}

#[test]
fn a_craft_where_it_wants_to_be_shuts_its_engines_down() {
    let mut ship = craft(vec![mounted(
        1,
        Engine { active: true, power: 1000, ..engine((-1000, 0), (1000, 0), 1000) },
    )]);
    ship.body.velocity = Vec2::new(10_000, 0);
    assert_eq!(fly_to((&42, &ship), body_at(10_000, 0)), vec![set_active(1, false)]);
}

#[test]
fn a_velocity_reached_stops_the_engines() {
    let mut ship = craft(vec![
        mounted(1, Engine { active: true, power: 1000, ..engine((-1000, 0), (1000, 0), 1000) }),
        mounted(2, engine((1000, 0), (-1000, 0), 1000)),
        mounted(3, Engine { active: true, power: 300, ..engine((0, 1000), (0, -1000), 1000) }),
    ]);
    ship.body.velocity = Vec2::new(1000, 0);
    let commands = achieve_velocity((&42, &ship), Vec2::new(1050, 50), 777);
    assert_eq!(commands, vec![set_active(1, false), set_active(3, false)]);
}

#[test]
fn a_velocity_off_by_the_tolerance_is_not_reached() {
    let mut ship = pusher();
    ship.body.velocity = Vec2::new(1000, 0);
    assert_eq!(achieve_velocity((&42, &ship), Vec2::new(1099, 0), 0), vec![]);
    assert_eq!(
        achieve_velocity((&42, &ship), Vec2::new(1100, 0), 0),
        vec![set_active(1, true), set_power(1, 1000)]
    );
}

#[test]
fn the_steering_direction_turns_the_correction_into_the_frame_of_best_push() {
    let ship = pusher();
    assert_eq!(steering_direction(&ship, Vec2::new(5000, 0)), Vec2::new(1000, 0));
    assert_eq!(steering_direction(&ship, Vec2::new(0, 2000)), Vec2::new(0, 1000));
    let sideways = craft(vec![mounted(1, engine((0, 0), (0, 1000), 1000))]);
    assert_eq!(steering_direction(&sideways, Vec2::new(5000, 0)), Vec2::new(0, -1000));
    assert_eq!(steering_direction(&sideways, Vec2::new(0, 5000)), Vec2::new(1000, 0));
    assert_eq!(steering_direction(&cross(), Vec2::new(3000, 3000)), Vec2::new(1000, 0));
}

#[test]
fn a_craft_on_the_steering_heading_pushes_along_the_correction() {
    let mut sideways = craft(vec![mounted(1, engine((0, 0), (0, 1000), 1000))]);
    sideways.heading = steering_direction(&sideways, Vec2::new(5000, 0));
    assert_eq!(sideways.heading.rotate(Vec2::new(0, 1000)), Vec2::new(1000, 0));
    assert_eq!(
        achieve_velocity((&42, &sideways), Vec2::new(5000, 0), 0),
        vec![set_active(1, true), set_power(1, 1000)]
    );
}

#[test]
fn an_aligned_craft_runs_the_engines_along_the_correction_at_full_power() {
    let ship = craft(vec![
        mounted(1, engine((-1000, 0), (1000, 0), 1000)),
        mounted(2, Engine { active: true, power: 950, ..engine((-1000, 500), (1000, 0), 100) }),
        mounted(3, Engine { active: true, power: 800, ..engine((-1000, -500), (1000, 0), 100) }),
    ]);
    let commands = achieve_velocity((&42, &ship), Vec2::new(5000, 0), 0);
    assert_eq!(commands, vec![set_active(1, true), set_power(1, 1000), set_power(3, 1000)]);
}

#[test]
fn an_engine_that_points_away_from_the_correction_does_not_run() {
    let ship = craft(vec![
        mounted(1, engine((-1000, 0), (1000, 0), 2000)),
        mounted(2, Engine { active: true, power: 1000, ..engine((1000, 0), (-1000, 0), 1000) }),
        mounted(3, engine((1000, 500), (-1000, 0), 10)),
    ]);
    assert_eq!(steering_direction(&ship, Vec2::new(1000, 0)), Vec2::new(1000, 0));
    let commands = achieve_velocity((&42, &ship), Vec2::new(1000, 0), 0);
    assert_eq!(commands, vec![set_active(1, true), set_power(1, 1000), set_active(2, false)]);
}

#[test]
fn a_craft_off_its_course_only_turns() {
    let ship = twin();
    let commands = achieve_velocity((&42, &ship), Vec2::new(-5000, 0), 3142);
    assert_eq!(commands, vec![set_active(2, true), set_power(2, 1000)]);
    let back = achieve_velocity((&42, &ship), Vec2::new(-5000, 0), -3142);
    assert_eq!(back, vec![set_active(1, true), set_power(1, 1000)]);
}

#[test]
fn reaching_a_velocity_twice_asks_for_nothing_the_second_time() {
    let mut ship = pusher();
    let first = achieve_velocity((&42, &ship), Vec2::new(5000, 0), 0);
    assert_eq!(first, vec![set_active(1, true), set_power(1, 1000)]);
    ship.components[0] =
        mounted(1, Engine { active: true, power: 1000, ..engine((-1000, 0), (1000, 0), 1000) });
    assert_eq!(achieve_velocity((&42, &ship), Vec2::new(5000, 0), 0), vec![]);
}

#[test]
fn a_craft_within_its_stopping_distance_matches_the_target_s_velocity() {
    let mut ship = pusher();
    ship.body.velocity = Vec2::new(2000, 0);
    let target = Body { velocity: Vec2::new(0, 500), ..body_at(33_000, 0) };
    assert_eq!(approach_velocity(&ship, &target), Vec2::new(0, 500));
}

#[test]
fn a_craft_beyond_its_stopping_distance_makes_for_the_target() {
    let mut ship = pusher();
    ship.body.velocity = Vec2::new(2000, 0);
    assert_eq!(approach_velocity(&ship, &body_at(33_001, 0)), Vec2::new(1000, 0));
    let target = Body { velocity: Vec2::new(0, 500), ..body_at(0, -50_000) };
    ship.body.velocity = Vec2::new(0, 0);
    assert_eq!(approach_velocity(&ship, &target), Vec2::new(0, -500));
}

#[test]
fn a_craft_that_recedes_does_not_brake() {
    let mut ship = pusher();
    ship.body.velocity = Vec2::new(-2000, 0);
    assert_eq!(approach_velocity(&ship, &body_at(10_000, 0)), Vec2::new(1000, 0));
}

#[test]
fn a_heavier_craft_brakes_earlier() {
    let mut ship = pusher();
    ship.mass = 50_000;
    ship.body.velocity = Vec2::new(2000, 0);
    assert_eq!(approach_velocity(&ship, &body_at(180_000, 0)), Vec2::new(0, 0));
    assert_eq!(approach_velocity(&ship, &body_at(180_001, 0)), Vec2::new(1000, 0));
}

#[test]
fn a_craft_without_thrust_never_brakes() {
    let mut ship = craft(vec![]);
    ship.body.velocity = Vec2::new(2000, 0);
    assert_eq!(approach_velocity(&ship, &body_at(1000, 0)), Vec2::new(0, 0));
    let moving = Body { velocity: Vec2::new(300, 0), ..body_at(1000, 0) };
    assert_eq!(approach_velocity(&ship, &moving), Vec2::new(300, 0));
}

#[test]
fn flying_to_a_target_within_the_stopping_distance_turns_round_to_brake() {
    let mut ship = twin();
    ship.body.velocity = Vec2::new(2000, 0);
    assert_eq!(approach_velocity(&ship, &body_at(10_000, 0)), Vec2::new(0, 0));
    assert_eq!(steering_direction(&ship, Vec2::new(0, 0)), Vec2::new(-1000, 0));
    let braking = improved_fly_to((&42, &ship), body_at(10_000, 0), 3142);
    assert_eq!(braking, vec![set_active(2, true), set_power(2, 1000)]);
}

#[test]
fn a_craft_that_has_turned_round_brakes_at_full_power() {
    let mut ship = twin();
    ship.body.velocity = Vec2::new(2000, 0);
    ship.heading = Vec2::new(-1000, 0);
    let braking = improved_fly_to((&42, &ship), body_at(10_000, 0), 0);
    assert_eq!(
        braking,
        vec![set_active(1, true), set_power(1, 1000), set_active(2, true), set_power(2, 1000)]
    );
}

#[test]
fn flying_to_a_target_far_away_makes_for_it_at_full_power() {
    let mut ship = twin();
    ship.body.velocity = Vec2::new(1000, 0);
    assert_eq!(approach_velocity(&ship, &body_at(100_000, 0)), Vec2::new(2000, 0));
    let cruising = improved_fly_to((&42, &ship), body_at(100_000, 0), 0);
    assert_eq!(
        cruising,
        vec![set_active(1, true), set_power(1, 1000), set_active(2, true), set_power(2, 1000)]
    );
}

#[test]
fn flying_to_a_target_at_rest_beside_it_stops_the_engines() {
    let mut drifting = craft(vec![mounted(
        1,
        Engine { active: true, power: 1000, ..engine((-1000, 0), (1000, 0), 1000) },
    )]);
    drifting.body.velocity = Vec2::new(50, 0);
    assert_eq!(approach_velocity(&drifting, &body_at(500, 0)), Vec2::new(0, 0));
    let commands = improved_fly_to((&42, &drifting), body_at(500, 0), 0);
    assert_eq!(commands, vec![set_active(1, false)]);
}

#[test]
fn the_simpler_flight_pushes_when_aligned() {
    let ship = pusher();
    let commands = impulse_fly_to((&42, &ship), body_at(10_000, 0), 700, 0);
    assert_eq!(commands, vec![set_active(1, true), set_power(1, 1000)]);
}

#[test]
fn the_simpler_flight_sets_power_only_beyond_the_tolerance() {
    let near = craft(vec![mounted(
        1,
        Engine { active: true, power: 900, ..engine((-1000, 0), (1000, 0), 1000) },
    )]);
    assert_eq!(impulse_fly_to((&42, &near), body_at(10_000, 0), 700, 0), vec![]);
    let far = craft(vec![mounted(
        1,
        Engine { active: true, power: 899, ..engine((-1000, 0), (1000, 0), 1000) },
    )]);
    assert_eq!(
        impulse_fly_to((&42, &far), body_at(10_000, 0), 700, 0),
        vec![set_power(1, 1000)]
    );
}

#[test]
fn the_simpler_flight_asks_for_nothing_the_second_time() {
    let ship = pusher();
    let target = body_at(3000, 4000);
    let mut turned = ship.clone();
    turned.heading = Vec2::new(600, 800);
    let first = impulse_fly_to((&42, &turned), target, 700, 0);
    assert_eq!(first, vec![set_active(1, true), set_power(1, 1000)]);
    turned.components[0] =
        mounted(1, Engine { active: true, power: 1000, ..engine((-1000, 0), (1000, 0), 1000) });
    assert_eq!(impulse_fly_to((&42, &turned), target, 700, 0), vec![]);
}

#[test]
fn the_simpler_flight_turns_when_off_its_course() {
    let mut ship = twin();
    ship.heading = Vec2::new(0, 1000);
    let commands = impulse_fly_to((&42, &ship), body_at(10_000, 0), 700, -1571);
    assert_eq!(commands, vec![set_active(1, true), set_power(1, 1000)]);
    assert_eq!(impulse_steering_direction(&ship, &body_at(10_000, 0)), Vec2::new(1000, 0));
}

#[test]
fn driving_engines_leaves_weapons_alone() {
    let ship = craft(vec![
        Mount {
            id: 1,
            component: Component::Weapon(Weapon {
                position: Vec2::new(0, 0),
                orientation: 0,
                projectile_speed: 1000,
                active: true,
                rotation: 0,
            }),
        },
        mounted(2, Engine { active: true, power: 1000, ..engine((0, 0), (1000, 0), 1000) }),
    ]);
    assert_eq!(drive_engines((&42, &ship), Drive::Stop), vec![set_active(2, false)]);
    assert_eq!(drive_engines((&42, &ship), Drive::Thrust { direction: Vec2::new(1000, 0) }), vec![]);
}

#[test]
fn full_thrust_sets_power_only_beyond_the_tolerance() {
    let ship = craft(vec![
        mounted(1, Engine { active: true, power: 900, ..engine((0, 0), (1000, 0), 1000) }),
        mounted(2, Engine { active: true, power: 899, ..engine((0, 0), (1000, 0), 1000) }),
        mounted(3, Engine { active: false, power: 1100, ..engine((0, 0), (1000, 0), 1000) }),
        mounted(4, Engine { active: true, power: 1101, ..engine((0, 0), (1000, 0), 1000) }),
    ]);
    assert_eq!(
        drive_engines((&42, &ship), Drive::Thrust { direction: Vec2::new(1000, 0) }),
        vec![set_power(2, 1000), set_active(3, true), set_power(4, 1000)]
    );
}

#[test]
fn only_the_sign_of_the_turn_asked_for_selects_engines() {
    let ship = craft(vec![mounted(1, engine((0, 1000), (1000, 0), 1000))]);
    let slow = rotate_to_direction((&42, &ship), -1, 1);
    let fast = rotate_to_direction((&42, &ship), -1, 1000);
    assert_eq!(slow, vec![set_active(1, true), set_power(1, 1000)]);
    assert_eq!(fast, slow);
    assert_eq!(rotate_to_direction((&42, &ship), -1, 600), slow);
    assert_eq!(rotate_to_direction((&42, &ship), 1, 1), vec![]);
}

#[test]
fn a_spin_of_a_thousandth_is_weighed_against_the_turn_asked_for() {
    let mut ship = twin();
    ship.body.angular_velocity = 1;
    assert_eq!(
        rotate_to_direction((&42, &ship), 1, 999),
        vec![set_active(1, true), set_power(1, 1000)]
    );
    assert_eq!(
        rotate_to_direction((&42, &ship), 1, 1000),
        vec![set_active(2, true), set_power(2, 1000)]
    );
}

#[test]
fn the_direction_to_a_body_is_a_unit_vector() {
    let mut ship = pusher();
    ship.body.position = Vec2::new(1000, 1000);
    assert_eq!(direction_to(&ship, &body_at(4000, 5000)), Vec2::new(600, 800));
    assert_eq!(direction_to(&ship, &body_at(1000, -7000)), Vec2::new(0, -1000));
    assert_eq!(direction_to(&ship, &body_at(1000, 1000)), Vec2::new(0, 0));
}

#[test]
fn no_engine_is_throttled_beyond_full_power() {
    let mut ship = craft(vec![mounted(1, engine((0, 0), (708, 707), 1000))]);
    ship.heading = Vec2::new(708, -707);
    let commands = drive_engines((&42, &ship), Drive::Fly { direction: Vec2::new(1000, 0) });
    assert_eq!(commands, vec![set_active(1, true), set_power(1, 1000)]);
}

#[test]
fn the_thrust_along_the_best_heading_is_no_more_than_the_engines_have() {
    let ship = craft(vec![
        mounted(1, engine((0, 0), (1000, 0), 3000)),
        mounted(2, engine((0, 0), (1000, 0), 2000)),
        mounted(3, engine((0, 0), (-1000, 0), 500)),
    ]);
    assert_eq!(optimal_thrust_direction(&ship), (Vec2::new(1000, 0), 5000));
    assert_eq!(push(&ship, Vec2::new(1_000_000, 0)), 5_000_000_000_000);
}
