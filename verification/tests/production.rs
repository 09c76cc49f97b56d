use craft_autopilot::game_data::{Entry, GameData, GameObject, Player};
use craft_autopilot::model::{Body, Spacecraft};
use craft_autopilot::production::{
    asteroid_miner, finished_berths, fleet_size, ivec2, least_busy, Berth, BuildSpacecrafts,
    ComponentPlaceholder, ComponentType, Hangar, Orientation, SpacecraftConstruction,
    SpacecraftStructure,
};
use craft_autopilot::vec2::Vec2;

fn berth(star_base: u64, index: usize) -> Berth {
    Berth { star_base, index }
}

fn tags(names: &[&str]) -> Vec<String> {
    names.iter().map(|name| name.to_string()).collect()
}

fn hangar(star_base: u64, index: usize, build_finished: bool, remaining_time: i64, queue: &[&[&str]]) -> Hangar {
    Hangar {
        berth: berth(star_base, index),
        build_finished,
        remaining_time,
        queue: queue.iter().map(|structure| tags(structure)).collect(),
    }
}

fn part(component_type: ComponentType, x: i32, y: i32) -> ComponentPlaceholder {
    ComponentPlaceholder::new(component_type, ivec2(x, y), Orientation::Up)
}

fn scout() -> SpacecraftStructure {
    SpacecraftStructure {
        component_placeholders: vec![part(ComponentType::Central, 0, 0)],
        tags: tags(&["scout"]),
    }
}

fn spacecraft(id: u64, owner: u64, names: &[&str]) -> Entry {
    Entry {
        id,
        object: GameObject::Spacecraft(Spacecraft {
            owner,
            body: Body {
                position: Vec2::new(0, 0),
                velocity: Vec2::new(0, 0),
                rotation: 0,
                angular_velocity: 0,
            },
            heading: Vec2::new(1000, 0),
            mass: 1000,
            center_of_mass: Vec2::new(0, 0),
            components: vec![],
            tags: tags(names),
        }),
    }
}

#[test]
fn the_asteroid_miner_has_a_core_four_blocks_two_engines_and_four_lasers() {
    let miner = asteroid_miner();
    assert_eq!(
        miner.component_placeholders,
        vec![
            part(ComponentType::Central, 0, 0),
            part(ComponentType::SteelBlock, 0, 1),
            part(ComponentType::SteelBlock, 0, -1),
            part(ComponentType::SteelBlock, 1, 0),
            part(ComponentType::SteelBlock, -1, 0),
            part(ComponentType::RaptorEngine, -1, -2),
            part(ComponentType::RaptorEngine, 1, -2),
            part(ComponentType::LaserWeapon, 0, 1),
            part(ComponentType::LaserWeapon, 0, -1),
            part(ComponentType::LaserWeapon, 1, 0),
            part(ComponentType::LaserWeapon, -1, 0),
        ]
    );
    assert_eq!(miner.tags, tags(&["asteroid_miner"]));
}

#[test]
fn finished_hangars_are_listed_in_order() {
    let hangars = vec![
        hangar(1, 0, false, 0, &[]),
        hangar(1, 1, true, 0, &[&["a"]]),
        hangar(2, 0, true, 0, &[&["b"]]),
    ];
    assert_eq!(finished_berths(&hangars), vec![berth(1, 1), berth(2, 0)]);
    assert_eq!(finished_berths(&vec![]), vec![]);
}

#[test]
fn the_least_busy_hangar_is_the_first_of_the_least() {
    let hangars = vec![
        hangar(1, 0, false, 9000, &[]),
        hangar(1, 1, false, 2000, &[]),
        hangar(2, 0, false, 2000, &[]),
        hangar(2, 1, false, 5000, &[]),
    ];
    assert_eq!(least_busy(&hangars), Some(berth(1, 1)));
    assert_eq!(least_busy(&vec![]), None);
}

#[test]
fn a_new_shipyard_deploys_by_itself_and_builds_nothing() {
    let yard = SpacecraftConstruction::new();
    assert!(yard.auto_deploy);
    assert_eq!(yard.build_queue, vec![]);
}

#[test]
fn the_shipyard_deploys_what_is_finished_and_builds_in_the_least_busy_hangar() {
    let mut yard = SpacecraftConstruction::new();
    yard.enqueue(scout());
    yard.enqueue(asteroid_miner());
    let hangars = vec![hangar(1, 0, true, 4000, &[&["x"]]), hangar(1, 1, false, 1000, &[])];
    let plan = yard.update(&hangars);
    assert_eq!(plan.deploy, vec![berth(1, 0)]);
    assert_eq!(plan.build_at, Some(berth(1, 1)));
    assert_eq!(plan.build, vec![scout(), asteroid_miner()]);
    assert_eq!(yard.build_queue, vec![]);
    assert!(yard.auto_deploy);
}

#[test]
fn a_shipyard_that_does_not_deploy_by_itself_leaves_finished_craft_where_they_are() {
    let mut yard = SpacecraftConstruction { auto_deploy: false, build_queue: vec![] };
    let plan = yard.update(&vec![hangar(1, 0, true, 0, &[&["x"]])]);
    assert_eq!(plan.deploy, vec![]);
    assert_eq!(plan.build, vec![]);
    assert_eq!(plan.build_at, Some(berth(1, 0)));
}

#[test]
fn what_is_asked_for_without_a_hangar_is_dropped() {
    let mut yard = SpacecraftConstruction::new();
    yard.enqueue(scout());
    let plan = yard.update(&vec![]);
    assert_eq!(plan.build, vec![]);
    assert_eq!(plan.build_at, None);
    assert_eq!(yard.build_queue, vec![]);
}

#[test]
fn the_fleet_counts_my_craft_that_carry_the_tag() {
    let data = GameData::new(
        vec![
            spacecraft(1, 1, &["scout"]),
            spacecraft(2, 2, &["scout"]),
            spacecraft(3, 1, &["miner"]),
            spacecraft(4, 1, &["fast", "scout"]),
        ],
        1,
        Player { materials: vec![] },
        vec![],
    );
    assert_eq!(fleet_size(&data, &"scout".to_string()), 2);
    assert_eq!(fleet_size(&data, &"miner".to_string()), 1);
    assert_eq!(fleet_size(&data, &"tug".to_string()), 0);
}

#[test]
fn a_standing_order_holds_what_it_was_given() {
    let order = BuildSpacecrafts::new(scout(), "scout".to_string(), 2, Some(5));
    assert_eq!(order.structure, scout());
    assert_eq!(order.tag, "scout");
    assert_eq!(order.max_parallel, 2);
    assert_eq!(order.max_total, Some(5));
}

#[test]
fn a_standing_order_starts_builds_in_idle_hangars_up_to_its_limit() {
    let order = BuildSpacecrafts::new(scout(), "scout".to_string(), 2, None);
    let hangars = vec![
        hangar(1, 0, false, 0, &[]),
        hangar(1, 1, false, 0, &[&["miner"]]),
        hangar(2, 0, false, 0, &[]),
        hangar(2, 1, false, 0, &[]),
    ];
    let plan = order.update(0, &hangars, true);
    assert_eq!(plan.deploy, vec![]);
    assert_eq!(plan.build, vec![berth(1, 0), berth(2, 0)]);
}

#[test]
fn queued_craft_of_the_tag_count_against_the_limit() {
    let order = BuildSpacecrafts::new(scout(), "scout".to_string(), 2, None);
    let hangars = vec![
        hangar(1, 0, false, 0, &[&["scout"]]),
        hangar(1, 1, false, 0, &[]),
        hangar(2, 0, false, 0, &[]),
    ];
    let plan = order.update(0, &hangars, true);
    assert_eq!(plan.deploy, vec![]);
    assert_eq!(plan.build, vec![berth(1, 1)]);
}

#[test]
fn a_finished_craft_of_the_tag_is_deployed() {
    let order = BuildSpacecrafts::new(scout(), "scout".to_string(), 3, None);
    let hangars = vec![
        hangar(1, 0, true, 0, &[&["scout"], &["miner"], &["scout", "fast"]]),
        hangar(1, 1, true, 0, &[&["miner"]]),
        hangar(2, 0, true, 0, &[&["scout"], &["scout"]]),
        hangar(2, 1, false, 0, &[]),
    ];
    let plan = order.update(0, &hangars, true);
    assert_eq!(plan.deploy, vec![berth(1, 0), berth(1, 0), berth(2, 0)]);
    assert_eq!(plan.build, vec![]);
}

#[test]
fn a_complete_fleet_stops_the_order() {
    let order = BuildSpacecrafts::new(scout(), "scout".to_string(), 2, Some(3));
    let hangars = vec![hangar(1, 0, true, 0, &[&["scout"]]), hangar(1, 1, false, 0, &[])];
    let done = order.update(3, &hangars, true);
    assert_eq!(done.deploy, vec![]);
    assert_eq!(done.build, vec![]);
    let short = order.update(2, &hangars, true);
    assert_eq!(short.deploy, vec![berth(1, 0)]);
    assert_eq!(short.build, vec![berth(1, 1)]);
}

#[test]
fn nothing_is_started_that_cannot_be_paid_for() {
    let order = BuildSpacecrafts::new(scout(), "scout".to_string(), 2, None);
    let hangars = vec![hangar(1, 0, true, 0, &[&["scout"]]), hangar(1, 1, false, 0, &[])];
    let plan = order.update(0, &hangars, false);
    assert_eq!(plan.deploy, vec![berth(1, 0)]);
    assert_eq!(plan.build, vec![]);
}
