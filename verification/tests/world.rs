use craft_autopilot::game_data::{
    rank, record, record_all, Asteroid, Category, Entry, GameData, GameObject, Material, Outcome,
    Player, Ranking, StarBase, Stock,
};
use craft_autopilot::model::{
    Body, Command, Component, ComponentCmd, Engine, Mount, Spacecraft,
};
use craft_autopilot::vec2::Vec2;

const ME: u64 = 1;
const FOE: u64 = 2;

fn body_at(x: i64, y: i64) -> Body {
    Body { position: Vec2::new(x, y), velocity: Vec2::new(0, 0), rotation: 0, angular_velocity: 0 }
}

fn asteroid(id: u64, x: i64, y: i64, material: Material) -> Entry {
    Entry { id, object: GameObject::Asteroid(Asteroid { body: body_at(x, y), material }) }
}

fn star_base(id: u64, owner: u64, x: i64, y: i64) -> Entry {
    Entry { id, object: GameObject::StarBase(StarBase { owner, body: body_at(x, y) }) }
}

fn ship(owner: u64, x: i64, y: i64) -> Spacecraft {
    Spacecraft {
        owner,
        body: body_at(x, y),
        heading: Vec2::new(1000, 0),
        mass: 1000,
        center_of_mass: Vec2::new(0, 0),
        components: vec![],
        tags: vec![],
    }
}

fn spacecraft(id: u64, owner: u64, x: i64, y: i64) -> Entry {
    Entry { id, object: GameObject::Spacecraft(ship(owner, x, y)) }
}

fn world(game_objects: Vec<Entry>) -> GameData {
    GameData::new(game_objects, ME, Player { materials: vec![] }, vec![])
}

fn command(component: u64) -> Command {
    Command { spacecraft: 5, component, action: ComponentCmd::SetActive(true) }
}

#[test]
fn a_new_snapshot_holds_what_it_was_given() {
    let player = Player { materials: vec![Stock { material: Material::Iron, amount: 5000 }] };
    let data = GameData::new(vec![asteroid(1, 0, 0, Material::Iron)], 9, player.clone(), vec![command(1)]);
    assert_eq!(data.game_objects, vec![asteroid(1, 0, 0, Material::Iron)]);
    assert_eq!(data.player_id, 9);
    assert_eq!(data.player(), &player);
    assert_eq!(data.network_game_cmds, vec![command(1)]);
}

#[test]
fn the_exact_rank_is_the_distance_squared() {
    let from = Vec2::new(1000, 1000);
    assert_eq!(rank(&from, &body_at(4000, 5000), Ranking::Exact), 25_000_000);
}

#[test]
fn the_truncated_rank_is_the_distance_in_whole_units() {
    let from = Vec2::new(0, 0);
    assert_eq!(rank(&from, &body_at(10_999, 0), Ranking::Truncated), 10);
    assert_eq!(rank(&from, &body_at(11_000, 0), Ranking::Truncated), 11);
    assert_eq!(rank(&from, &body_at(999, 0), Ranking::Truncated), 0);
    assert_eq!(rank(&from, &body_at(-3000, 4000), Ranking::Truncated), 5);
}

#[test]
fn the_closest_asteroid_is_found_by_exact_distance() {
    let data = world(vec![
        asteroid(1, 10_900, 0, Material::Iron),
        asteroid(2, 10_200, 0, Material::Gold),
    ]);
    let found = data.closest_asteroid(&Vec2::new(0, 0)).unwrap();
    assert_eq!(found, (2, Asteroid { body: body_at(10_200, 0), material: Material::Gold }));
}

#[test]
fn of_asteroids_at_the_same_distance_the_first_is_found() {
    let data = world(vec![
        asteroid(1, 0, -5000, Material::Iron),
        asteroid(2, 3000, 4000, Material::Gold),
        asteroid(3, 50_000, 0, Material::Iron),
    ]);
    assert_eq!(data.closest_asteroid(&Vec2::new(0, 0)).unwrap().0, 1);
}

#[test]
fn targets_less_than_a_unit_apart_in_distance_rank_alike() {
    let data = world(vec![
        asteroid(1, 10_900, 0, Material::Iron),
        asteroid(2, 10_200, 0, Material::Gold),
    ]);
    assert_eq!(data.closest_enemy_target(&Vec2::new(0, 0)), Some((1, body_at(10_900, 0))));
    assert_eq!(data.closest(Category::Asteroid, &Vec2::new(0, 0), Ranking::Truncated), Some(0));
    assert_eq!(data.closest(Category::Asteroid, &Vec2::new(0, 0), Ranking::Exact), Some(1));
}

#[test]
fn a_target_a_whole_unit_nearer_is_closer() {
    let data = world(vec![
        asteroid(1, 11_000, 0, Material::Iron),
        asteroid(2, 0, -10_999, Material::Gold),
    ]);
    assert_eq!(data.closest_enemy_target(&Vec2::new(0, 0)), Some((2, body_at(0, -10_999))));
}

#[test]
fn my_closest_star_base_is_found_by_exact_distance() {
    let data = world(vec![
        star_base(1, ME, 10_900, 0),
        star_base(2, ME, 10_200, 0),
        star_base(3, FOE, 100, 0),
    ]);
    let found = data.closest_my_star_base(&Vec2::new(0, 0)).unwrap();
    assert_eq!(found, (2, StarBase { owner: ME, body: body_at(10_200, 0) }));
}

#[test]
fn of_my_star_bases_at_the_same_distance_the_first_is_found() {
    let data = world(vec![star_base(4, ME, 0, 3000), star_base(7, ME, 3000, 0)]);
    assert_eq!(data.closest_my_star_base(&Vec2::new(0, 0)).unwrap().0, 4);
}

#[test]
fn the_closest_star_base_may_be_anyone_s() {
    let data = world(vec![star_base(1, ME, 10_000, 0), star_base(2, FOE, 5000, 0)]);
    assert_eq!(data.closest_star_base(&Vec2::new(0, 0)).unwrap().0, 2);
    assert_eq!(data.closest_star_base(&Vec2::new(9000, 0)).unwrap().0, 1);
    assert_eq!(data.closest_star_base(&Vec2::new(7501, 0)).unwrap().0, 1);
    assert_eq!(data.closest_star_base(&Vec2::new(7500, 0)).unwrap().0, 1);
    assert_eq!(data.closest_star_base(&Vec2::new(7499, 0)).unwrap().0, 2);
}

#[test]
fn the_closest_enemy_star_base_is_not_mine() {
    let data = world(vec![
        star_base(1, ME, 1000, 0),
        star_base(2, FOE, 20_700, 0),
        star_base(3, 3, 20_300, 0),
    ]);
    let found = data.closest_enemy_star_base(&Vec2::new(0, 0)).unwrap();
    assert_eq!(found, (3, StarBase { owner: 3, body: body_at(20_300, 0) }));
}

#[test]
fn the_closest_enemy_spacecraft_is_not_mine() {
    let data = world(vec![
        spacecraft(1, ME, 1000, 0),
        spacecraft(2, FOE, 8900, 0),
        spacecraft(3, FOE, 8100, 0),
    ]);
    let found = data.closest_enemy_spacecraft(&Vec2::new(0, 0)).unwrap();
    assert_eq!(found.0, 3);
    assert_eq!(found.1, &ship(FOE, 8100, 0));
}

#[test]
fn queries_on_an_empty_category_find_nothing() {
    let data = world(vec![spacecraft(1, ME, 1000, 0), star_base(2, ME, 0, 0)]);
    let here = Vec2::new(0, 0);
    assert_eq!(data.closest_asteroid(&here), None);
    assert_eq!(data.closest_enemy_spacecraft(&here), None);
    assert_eq!(data.closest_enemy_star_base(&here), None);
    assert_eq!(data.closest_enemy_target(&here), None);
    assert_eq!(world(vec![]).closest_my_star_base(&here), None);
    assert_eq!(world(vec![]).closest_star_base(&here), None);
}

#[test]
fn the_closest_enemy_target_is_the_nearest_of_three_kinds() {
    let data = world(vec![
        spacecraft(1, FOE, 20_000, 0),
        asteroid(2, 0, 15_000, Material::Iron),
        star_base(3, FOE, -14_900, 0),
        spacecraft(4, ME, 100, 0),
        star_base(5, ME, 200, 0),
    ]);
    assert_eq!(data.closest_enemy_target(&Vec2::new(0, 0)), Some((3, body_at(-14_900, 0))));
}

#[test]
fn of_targets_that_rank_alike_the_spacecraft_comes_first_then_the_asteroid() {
    let here = Vec2::new(0, 0);
    let all = world(vec![
        star_base(1, FOE, 15_100, 0),
        asteroid(2, 0, 15_500, Material::Iron),
        spacecraft(3, FOE, -15_900, 0),
    ]);
    assert_eq!(all.closest_enemy_target(&here), Some((3, body_at(-15_900, 0))));
    let two = world(vec![star_base(1, FOE, 15_100, 0), asteroid(2, 0, 15_500, Material::Iron)]);
    assert_eq!(two.closest_enemy_target(&here), Some((2, body_at(0, 15_500))));
}

#[test]
fn an_asteroid_alone_is_a_target() {
    let data = world(vec![asteroid(2, 3000, 4000, Material::Carbon)]);
    assert_eq!(data.closest_enemy_target(&Vec2::new(0, 0)), Some((2, body_at(3000, 4000))));
}

#[test]
fn the_closest_of_a_category_is_found_by_place() {
    let data = world(vec![
        asteroid(1, 9000, 0, Material::Iron),
        asteroid(2, 5000, 0, Material::Gold),
        asteroid(3, 7000, 0, Material::Gold),
        asteroid(4, 3000, 0, Material::Iron),
    ]);
    let here = Vec2::new(0, 0);
    assert_eq!(data.closest(Category::Asteroid, &here, Ranking::Exact), Some(3));
    assert_eq!(data.closest(Category::AsteroidBearing(Material::Gold), &here, Ranking::Exact), Some(1));
    assert_eq!(data.closest(Category::AsteroidBearing(Material::Copper), &here, Ranking::Exact), None);
    assert_eq!(data.closest(Category::StarBase, &here, Ranking::Exact), None);
}

#[test]
fn my_star_bases_are_listed_in_order() {
    let data = world(vec![
        star_base(1, FOE, 0, 0),
        star_base(2, ME, 1000, 0),
        spacecraft(3, ME, 0, 0),
        star_base(4, ME, 2000, 0),
    ]);
    assert_eq!(
        data.my_star_bases(),
        vec![
            (2, StarBase { owner: ME, body: body_at(1000, 0) }),
            (4, StarBase { owner: ME, body: body_at(2000, 0) }),
        ]
    );
}

#[test]
fn my_spacecraft_are_listed_in_order() {
    let data = world(vec![
        spacecraft(1, ME, 1000, 0),
        spacecraft(2, FOE, 2000, 0),
        asteroid(3, 0, 0, Material::Iron),
        spacecraft(4, ME, 4000, 0),
    ]);
    let mine = data.my_spacecrafts();
    assert_eq!(mine.len(), 2);
    assert_eq!(mine[0], (1, &ship(ME, 1000, 0)));
    assert_eq!(mine[1], (4, &ship(ME, 4000, 0)));
    assert_eq!(data.places(Category::MySpacecraft), vec![0, 3]);
    assert_eq!(data.places(Category::EnemySpacecraft), vec![1]);
}

#[test]
fn an_accepted_command_joins_the_log() {
    let mut data = world(vec![]);
    data.execute_cmd(command(1), true);
    data.execute_cmd(command(2), false);
    data.execute_cmd(command(3), true);
    assert_eq!(data.network_game_cmds, vec![command(1), command(3)]);
}

#[test]
fn a_rejected_command_does_not_stop_the_batch() {
    let mut data = GameData::new(vec![], ME, Player { materials: vec![] }, vec![command(9)]);
    data.execute_cmds(vec![
        Outcome { command: command(1), accepted: true },
        Outcome { command: command(2), accepted: false },
        Outcome { command: command(3), accepted: true },
        Outcome { command: command(4), accepted: true },
    ]);
    assert_eq!(
        data.network_game_cmds,
        vec![command(9), command(1), command(3), command(4)]
    );
    data.execute_cmds(vec![]);
    assert_eq!(data.network_game_cmds.len(), 4);
}

#[test]
fn a_snapshot_is_valid_where_identifiers_ascend_and_bodies_are_in_bounds() {
    assert!(world(vec![asteroid(1, 0, 0, Material::Iron), star_base(2, ME, 0, 0)]).valid());
    assert!(world(vec![]).valid());
    assert!(!world(vec![asteroid(2, 0, 0, Material::Iron), star_base(1, ME, 0, 0)]).valid());
    assert!(!world(vec![asteroid(1, 0, 0, Material::Iron), star_base(1, ME, 0, 0)]).valid());
    assert!(!world(vec![asteroid(1, 100_000_001, 0, Material::Iron)]).valid());
    assert!(world(vec![asteroid(1, 100_000_000, -100_000_000, Material::Iron)]).valid());
}

#[test]
fn a_log_of_any_kind_of_command_takes_what_was_accepted() {
    let mut log = vec!["deploy".to_string()];
    record(&mut log, Outcome { command: "build".to_string(), accepted: false });
    record(&mut log, Outcome { command: "aim".to_string(), accepted: true });
    record_all(
        &mut log,
        vec![
            Outcome { command: "a".to_string(), accepted: true },
            Outcome { command: "b".to_string(), accepted: false },
            Outcome { command: "c".to_string(), accepted: true },
        ],
    );
    assert_eq!(log, vec!["deploy", "aim", "a", "c"]);
}

#[test]
fn a_craft_is_valid_where_its_heading_and_engines_are_unit_vectors() {
    let engine = |thrust: i64, direction: Vec2| Mount {
        id: 1,
        component: Component::Engine(Engine {
            position: Vec2::new(0, 0),
            direction,
            thrust,
            active: false,
            power: 0,
        }),
    };
    let mut craft = ship(ME, 0, 0);
    assert!(craft.valid());
    craft.components = vec![engine(1000, Vec2::new(600, -800))];
    assert!(craft.valid());
    craft.components = vec![engine(1000, Vec2::new(1000, 1000))];
    assert!(!craft.valid());
    craft.components = vec![engine(1000, Vec2::new(500, 0))];
    assert!(!craft.valid());
    craft.components = vec![engine(-1, Vec2::new(1000, 0))];
    assert!(!craft.valid());
    craft.components = vec![];
    craft.heading = Vec2::new(1000, 1000);
    assert!(!craft.valid());
    craft.heading = Vec2::new(0, 0);
    assert!(!craft.valid());
}

#[test]
fn a_craft_may_carry_many_components_but_not_too_much_thrust() {
    let engine = |id: u64, thrust: i64| Mount {
        id,
        component: Component::Engine(Engine {
            position: Vec2::new(0, 0),
            direction: Vec2::new(1000, 0),
            thrust,
            active: false,
            power: 0,
        }),
    };
    let mut craft = ship(ME, 0, 0);
    craft.components = (0..5000).map(|id| engine(id, 1000)).collect();
    assert!(craft.valid());
    craft.components = (0..3999).map(|id| engine(id, 100_000_000)).collect();
    assert!(craft.valid());
    craft.components = (0..4000).map(|id| engine(id, 100_000_000)).collect();
    assert!(!craft.valid());
}
