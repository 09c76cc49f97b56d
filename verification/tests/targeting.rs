use craft_autopilot::model::{
    Body, Command, Component, ComponentCmd, Engine, Mount, Spacecraft, Weapon,
};
use craft_autopilot::targeting::{
    check_bearings, deactivate_weapons, firing_solution, intercept, line_of_sight,
    predictive_shoot_at, shoot_at, Aim, Intercept,
};
use craft_autopilot::vec2::Vec2;

fn body_at(x: i64, y: i64) -> Body {
    Body { position: Vec2::new(x, y), velocity: Vec2::new(0, 0), rotation: 0, angular_velocity: 0 }
}

fn moving(x: i64, y: i64, vx: i64, vy: i64) -> Body {
    Body { position: Vec2::new(x, y), velocity: Vec2::new(vx, vy), rotation: 0, angular_velocity: 0 }
}

fn weapon(active: bool, rotation: i64) -> Weapon {
    Weapon {
        position: Vec2::new(0, 0),
        orientation: 0,
        projectile_speed: 2000,
        active,
        rotation,
    }
}

fn engine() -> Engine {
    Engine {
        position: Vec2::new(-1000, 0),
        direction: Vec2::new(1000, 0),
        thrust: 1000,
        active: true,
        power: 1000,
    }
}

fn craft(components: Vec<Mount>) -> Spacecraft {
    Spacecraft {
        owner: 1,
        body: body_at(0, 0),
        heading: Vec2::new(1000, 0),
        mass: 1000,
        center_of_mass: Vec2::new(0, 0),
        components,
        tags: vec![],
    }
}

fn gun(id: u64, active: bool, rotation: i64) -> Mount {
    Mount { id, component: Component::Weapon(weapon(active, rotation)) }
}

fn set_active(component: u64, on: bool) -> Command {
    Command { spacecraft: 42, component, action: ComponentCmd::SetActive(on) }
}

fn set_rotation(component: u64, rotation: i64) -> Command {
    Command { spacecraft: 42, component, action: ComponentCmd::SetRotation(rotation) }
}

#[test]
fn a_target_standing_still_is_met_after_distance_over_speed() {
    let hit = intercept(Vec2::new(10_000, 0), Vec2::new(0, 0), 2000).unwrap();
    assert_eq!(hit.time, 5000);
    assert_eq!(hit.aim.y, 0);
    assert!(hit.aim.x > 0);
}

#[test]
fn a_target_standing_still_is_aimed_at_along_the_line_of_sight() {
    let hit = intercept(Vec2::new(6000, 8000), Vec2::new(0, 0), 2000).unwrap();
    assert_eq!(
        hit,
        Intercept { time: 5000, aim: Aim { x: 48_000_000_000, y: 64_000_000_000 } }
    );
    assert_eq!(hit.aim.x * 8000 - hit.aim.y * 6000, 0);
}

#[test]
fn a_target_that_outruns_the_projectile_is_not_met() {
    assert_eq!(intercept(Vec2::new(10_000, 0), Vec2::new(3000, 0), 2000), None);
}

#[test]
fn a_target_that_crosses_too_fast_is_not_met() {
    assert_eq!(intercept(Vec2::new(10_000, 0), Vec2::new(0, 5000), 1000), None);
}

#[test]
fn a_crossing_target_is_led() {
    let hit = intercept(Vec2::new(0, 10_000), Vec2::new(1000, 0), 2000).unwrap();
    assert_eq!(hit.time, 5773);
    assert_eq!(hit.aim, Aim { x: 34_641_016_000, y: 60_000_000_000 });
    let degrees = (hit.aim.y as f64).atan2(hit.aim.x as f64).to_degrees();
    assert!((degrees - 60.0).abs() < 0.001);
}

#[test]
fn a_faster_target_that_closes_is_met_at_the_earlier_time() {
    let hit = intercept(Vec2::new(10_000, 0), Vec2::new(-3000, 0), 2000).unwrap();
    assert_eq!(hit.time, 2000);
    assert_eq!(hit.aim.y, 0);
    assert!(hit.aim.x > 0);
}

#[test]
fn a_target_as_fast_as_the_projectile_is_met_where_it_closes() {
    let hit = intercept(Vec2::new(10_000, 0), Vec2::new(-2000, 0), 2000).unwrap();
    assert_eq!(hit, Intercept { time: 2500, aim: Aim { x: 200_000_000_000, y: 0 } });
}

#[test]
fn a_target_as_fast_as_the_projectile_is_not_met_where_it_recedes() {
    assert_eq!(intercept(Vec2::new(10_000, 0), Vec2::new(2000, 0), 2000), None);
    assert_eq!(intercept(Vec2::new(10_000, 0), Vec2::new(0, 2000), 2000), None);
}

#[test]
fn a_target_at_the_muzzle_is_not_met() {
    assert_eq!(intercept(Vec2::new(0, 0), Vec2::new(0, 0), 2000), None);
    assert_eq!(intercept(Vec2::new(0, 0), Vec2::new(-2000, 0), 2000), None);
}

#[test]
fn a_projectile_without_speed_meets_nothing() {
    assert_eq!(intercept(Vec2::new(10_000, 0), Vec2::new(0, 0), 0), None);
}

#[test]
fn the_line_of_sight_starts_at_the_turned_mount() {
    let mut ship = craft(vec![Mount {
        id: 3,
        component: Component::Weapon(Weapon { position: Vec2::new(1500, 0), ..weapon(false, 0) }),
    }]);
    ship.heading = Vec2::new(0, 1000);
    ship.center_of_mass = Vec2::new(500, 0);
    ship.body.position = Vec2::new(2000, 1000);
    let line = line_of_sight(&ship, 0, &body_at(2000, 7000));
    assert_eq!(line, Some(Vec2::new(0, 5000)));
}

#[test]
fn an_engine_has_no_line_of_sight() {
    let ship = craft(vec![Mount { id: 1, component: Component::Engine(engine()) }]);
    assert_eq!(line_of_sight(&ship, 0, &body_at(5000, 0)), None);
    assert_eq!(line_of_sight(&ship, 1, &body_at(5000, 0)), None);
    assert_eq!(firing_solution(&ship, 0, &body_at(5000, 0)), None);
    assert_eq!(firing_solution(&ship, 7, &body_at(5000, 0)), None);
}

#[test]
fn the_firing_solution_counts_the_shooter_s_own_velocity() {
    let mut ship = craft(vec![gun(1, false, 0)]);
    ship.body.velocity = Vec2::new(3000, 0);
    let hit = firing_solution(&ship, 0, &moving(10_000, 0, 3000, 0)).unwrap();
    assert_eq!(hit.time, 5000);
}

#[test]
fn a_weapon_on_target_is_only_switched_on() {
    let ship = craft(vec![gun(7, false, 0)]);
    let commands = predictive_shoot_at((&42, &ship), body_at(10_000, 0), &vec![0]);
    assert_eq!(commands, vec![set_active(7, true)]);
}

#[test]
fn a_weapon_off_target_is_turned_and_then_switched_on() {
    let ship = craft(vec![gun(7, false, 0)]);
    let commands = predictive_shoot_at((&42, &ship), body_at(10_000, 0), &vec![524]);
    assert_eq!(commands, vec![set_rotation(7, 524), set_active(7, true)]);
}

#[test]
fn the_rotation_is_relative_to_heading_and_mount() {
    let mut ship = craft(vec![Mount {
        id: 7,
        component: Component::Weapon(Weapon { orientation: 200, ..weapon(true, 0) }),
    }]);
    ship.body.rotation = 100;
    let commands = predictive_shoot_at((&42, &ship), body_at(10_000, 0), &vec![1000]);
    assert_eq!(commands, vec![set_rotation(7, 700)]);
}

#[test]
fn a_weapon_is_turned_only_beyond_the_tolerance() {
    let within = craft(vec![gun(7, true, 450)]);
    assert_eq!(predictive_shoot_at((&42, &within), body_at(10_000, 0), &vec![500]), vec![]);
    let beyond = craft(vec![gun(7, true, 449)]);
    assert_eq!(
        predictive_shoot_at((&42, &beyond), body_at(10_000, 0), &vec![500]),
        vec![set_rotation(7, 500)]
    );
    let above = craft(vec![gun(7, true, 551)]);
    assert_eq!(
        predictive_shoot_at((&42, &above), body_at(10_000, 0), &vec![500]),
        vec![set_rotation(7, 500)]
    );
}

#[test]
fn a_weapon_that_cannot_meet_the_target_is_shut_down_and_not_turned() {
    let runaway = moving(10_000, 0, 3000, 0);
    let ship = craft(vec![gun(7, true, 0), gun(8, false, 0)]);
    let commands = predictive_shoot_at((&42, &ship), runaway, &vec![900, 900]);
    assert_eq!(commands, vec![set_active(7, false)]);
}

#[test]
fn aiming_twice_asks_for_nothing_the_second_time() {
    let ship = craft(vec![gun(7, false, 0), gun(9, true, 300)]);
    let target = body_at(0, 10_000);
    let bearings = vec![1571, 1571];
    let first = predictive_shoot_at((&42, &ship), target, &bearings);
    assert_eq!(
        first,
        vec![set_rotation(7, 1571), set_active(7, true), set_rotation(9, 1571)]
    );
    let settled = craft(vec![gun(7, true, 1571), gun(9, true, 1571)]);
    assert_eq!(predictive_shoot_at((&42, &settled), target, &bearings), vec![]);
}

#[test]
fn engines_get_no_weapon_commands() {
    let ship = craft(vec![
        Mount { id: 1, component: Component::Engine(engine()) },
        gun(2, false, 0),
    ]);
    let commands = predictive_shoot_at((&42, &ship), body_at(10_000, 0), &vec![0, 100]);
    assert_eq!(commands, vec![set_rotation(2, 100), set_active(2, true)]);
}

#[test]
fn shooting_straight_switches_on_and_always_turns() {
    let ship = craft(vec![gun(7, false, 250), gun(8, true, 250)]);
    let commands = shoot_at((&42, &ship), &vec![250, -125]);
    assert_eq!(
        commands,
        vec![set_active(7, true), set_rotation(7, 250), set_rotation(8, -125)]
    );
}

#[test]
fn deactivating_shuts_down_the_weapons_that_are_on() {
    let ship = craft(vec![
        gun(1, true, 0),
        Mount { id: 2, component: Component::Engine(engine()) },
        gun(3, false, 0),
        gun(4, true, 0),
    ]);
    assert_eq!(deactivate_weapons((&42, &ship)), vec![set_active(1, false), set_active(4, false)]);
}

#[test]
fn a_craft_without_weapons_gets_no_commands() {
    let ship = craft(vec![]);
    assert_eq!(predictive_shoot_at((&42, &ship), body_at(10_000, 0), &vec![]), vec![]);
    assert_eq!(shoot_at((&42, &ship), &vec![]), vec![]);
    assert_eq!(deactivate_weapons((&42, &ship)), vec![]);
}

#[test]
fn bearings_must_match_the_components() {
    let ship = craft(vec![gun(7, false, 0), gun(8, false, 0)]);
    assert!(check_bearings(&ship, &vec![0, 3142]));
    assert!(!check_bearings(&ship, &vec![0]));
    assert!(!check_bearings(&ship, &vec![0, 100_000_001]));
    assert!(check_bearings(&ship, &vec![-100_000_000, 100_000_000]));
}
