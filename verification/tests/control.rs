use craft_autopilot::control::{
    least_material, mining_site, orders_for, recorded_state, shares_tag, Action, Order,
    SpacecraftControl, SpacecraftState, Unit,
};
use craft_autopilot::game_data::{
    Asteroid, Entry, GameData, GameObject, Material, Player, StarBase, Stock,
};
use craft_autopilot::model::{Body, Spacecraft};
use craft_autopilot::vec2::Vec2;

const ME: u64 = 1;
const FOE: u64 = 2;

fn body_at(x: i64, y: i64) -> Body {
    Body { position: Vec2::new(x, y), velocity: Vec2::new(0, 0), rotation: 0, angular_velocity: 0 }
}

fn asteroid(id: u64, x: i64, y: i64, material: Material) -> Entry {
    Entry { id, object: GameObject::Asteroid(Asteroid { body: body_at(x, y), material }) }
}

fn star_base(id: u64, owner: u64, x: i64, y: i64) -> Entry {
    Entry { id, object: GameObject::StarBase(StarBase { owner, body: body_at(x, y) }) }
}

fn spacecraft(id: u64, owner: u64, x: i64, y: i64, tags: &[&str]) -> Entry {
    Entry {
        id,
        object: GameObject::Spacecraft(Spacecraft {
            owner,
            body: body_at(x, y),
            heading: Vec2::new(1000, 0),
            mass: 1000,
            center_of_mass: Vec2::new(0, 0),
            components: vec![],
            tags: tags.iter().map(|tag| tag.to_string()).collect(),
        }),
    }
}

fn stock(material: Material, amount: i64) -> Stock {
    Stock { material, amount }
}

fn world(game_objects: Vec<Entry>, materials: Vec<Stock>) -> GameData {
    GameData::new(game_objects, ME, Player { materials }, vec![])
}

fn shoot(spacecraft: u64, x: i64, y: i64) -> Order {
    Order { spacecraft, action: Action::Shoot { target: body_at(x, y) } }
}

fn fly(spacecraft: u64, x: i64, y: i64, steering: i64) -> Order {
    Order { spacecraft, action: Action::FlyTo { target: body_at(x, y), steering } }
}

fn tags(names: &[&str]) -> Vec<String> {
    names.iter().map(|name| name.to_string()).collect()
}

#[test]
fn a_unit_is_idle_by_default() {
    assert_eq!(SpacecraftState::default(), SpacecraftState::Idle);
    assert_eq!(SpacecraftControl::new().state_of(5), SpacecraftState::Idle);
}

#[test]
fn the_least_held_material_is_the_first_of_the_least() {
    assert_eq!(least_material(&vec![]), None);
    assert_eq!(
        least_material(&vec![stock(Material::Iron, 100_000), stock(Material::Gold, 10_000)]),
        Some(Material::Gold)
    );
    assert_eq!(
        least_material(&vec![
            stock(Material::Iron, 7000),
            stock(Material::Copper, 3000),
            stock(Material::Carbon, 3000),
            stock(Material::Gold, 9000),
        ]),
        Some(Material::Copper)
    );
}

#[test]
fn a_miner_picks_the_asteroid_of_the_least_held_material_not_the_nearer_one() {
    let data = world(
        vec![
            asteroid(10, 50_000, 0, Material::Gold),
            asteroid(11, 0, 10_000, Material::Iron),
        ],
        vec![stock(Material::Iron, 100_000), stock(Material::Gold, 10_000)],
    );
    let here = Vec2::new(0, 0);
    assert_eq!(
        mining_site(&data, &here),
        Some(Asteroid { body: body_at(50_000, 0), material: Material::Gold })
    );
    assert_eq!(
        orders_for(&data, 7, &here, SpacecraftState::Mining),
        vec![fly(7, 50_000, 0, 600), shoot(7, 50_000, 0)]
    );
}

#[test]
fn a_miner_picks_the_closest_asteroid_of_the_material_by_exact_distance() {
    let data = world(
        vec![
            asteroid(10, 50_900, 0, Material::Gold),
            asteroid(11, 0, 50_100, Material::Gold),
            asteroid(12, 1000, 0, Material::Iron),
        ],
        vec![stock(Material::Gold, 0), stock(Material::Iron, 1)],
    );
    assert_eq!(mining_site(&data, &Vec2::new(0, 0)).unwrap().body, body_at(0, 50_100));
}

#[test]
fn a_miner_out_of_reach_shoots_at_the_closest_enemy_target() {
    let data = world(
        vec![
            asteroid(10, 200_000, 0, Material::Gold),
            asteroid(11, 0, 10_000, Material::Iron),
        ],
        vec![stock(Material::Iron, 100_000), stock(Material::Gold, 10_000)],
    );
    assert_eq!(
        orders_for(&data, 7, &Vec2::new(0, 0), SpacecraftState::Mining),
        vec![fly(7, 200_000, 0, 600), shoot(7, 0, 10_000)]
    );
    assert_eq!(
        orders_for(&data, 7, &Vec2::new(1, 0), SpacecraftState::Mining),
        vec![fly(7, 200_000, 0, 600), shoot(7, 200_000, 0)]
    );
}

#[test]
fn a_miner_without_an_asteroid_to_mine_still_defends_itself() {
    let data = world(
        vec![asteroid(11, 0, 10_000, Material::Iron), spacecraft(12, FOE, 3000, 0, &[])],
        vec![stock(Material::Iron, 100_000), stock(Material::Gold, 10_000)],
    );
    assert_eq!(mining_site(&data, &Vec2::new(0, 0)), None);
    assert_eq!(
        orders_for(&data, 7, &Vec2::new(0, 0), SpacecraftState::Mining),
        vec![shoot(7, 3000, 0)]
    );
    let broke = world(vec![asteroid(11, 0, 10_000, Material::Iron)], vec![]);
    assert_eq!(
        orders_for(&broke, 7, &Vec2::new(0, 0), SpacecraftState::Mining),
        vec![shoot(7, 0, 10_000)]
    );
}

#[test]
fn an_idle_unit_only_shoots() {
    let data = world(
        vec![
            spacecraft(3, FOE, 5000, 0, &[]),
            star_base(4, FOE, 9000, 0),
            star_base(5, ME, -9000, 0),
        ],
        vec![],
    );
    assert_eq!(
        orders_for(&data, 7, &Vec2::new(0, 0), SpacecraftState::Idle),
        vec![shoot(7, 5000, 0)]
    );
}

#[test]
fn an_attacking_unit_shoots_and_makes_for_the_enemy_base() {
    let data = world(
        vec![
            spacecraft(3, FOE, 5000, 0, &[]),
            star_base(4, FOE, 80_900, 0),
            star_base(5, ME, -9000, 0),
            star_base(6, FOE, 0, 80_100),
        ],
        vec![],
    );
    assert_eq!(
        orders_for(&data, 7, &Vec2::new(0, 0), SpacecraftState::Attack),
        vec![shoot(7, 5000, 0), fly(7, 0, 80_100, 700)]
    );
}

#[test]
fn a_defending_unit_shoots_and_falls_back_to_its_own_base() {
    let data = world(
        vec![
            spacecraft(3, FOE, 5000, 0, &[]),
            star_base(4, FOE, 1000, 0),
            star_base(5, ME, -9000, 0),
            star_base(6, ME, 0, 8000),
        ],
        vec![],
    );
    assert_eq!(
        orders_for(&data, 7, &Vec2::new(0, 0), SpacecraftState::Defense),
        vec![shoot(7, 1000, 0), fly(7, 0, 8000, 600)]
    );
}

#[test]
fn a_unit_with_nothing_around_it_does_nothing() {
    let data = world(vec![spacecraft(1, ME, 0, 0, &[])], vec![]);
    let here = Vec2::new(0, 0);
    assert_eq!(orders_for(&data, 1, &here, SpacecraftState::Idle), vec![]);
    assert_eq!(orders_for(&data, 1, &here, SpacecraftState::Attack), vec![]);
    assert_eq!(orders_for(&data, 1, &here, SpacecraftState::Mining), vec![]);
    assert_eq!(orders_for(&data, 1, &here, SpacecraftState::Defense), vec![]);
}

#[test]
fn a_tick_takes_up_new_units_as_idle_and_notes_their_tags() {
    let data = world(
        vec![
            spacecraft(1, ME, 0, 0, &["asteroid_miner"]),
            spacecraft(2, FOE, 5000, 0, &["raider"]),
            spacecraft(3, ME, 1000, 0, &[]),
        ],
        vec![],
    );
    let mut control = SpacecraftControl::new();
    let orders = control.update(&data);
    assert_eq!(
        control.units,
        vec![
            Unit { id: 1, state: SpacecraftState::Idle, tags: tags(&["asteroid_miner"]) },
            Unit { id: 3, state: SpacecraftState::Idle, tags: vec![] },
        ]
    );
    assert_eq!(orders, vec![shoot(1, 5000, 0), shoot(3, 5000, 0)]);
}

#[test]
fn a_tick_keeps_the_state_of_units_and_forgets_those_that_are_gone() {
    let mut control = SpacecraftControl {
        units: vec![
            Unit { id: 1, state: SpacecraftState::Attack, tags: tags(&["old"]) },
            Unit { id: 2, state: SpacecraftState::Mining, tags: vec![] },
            Unit { id: 5, state: SpacecraftState::Defense, tags: vec![] },
        ],
    };
    let data = world(
        vec![
            spacecraft(2, ME, 0, 0, &["new"]),
            spacecraft(4, ME, 0, 0, &[]),
            spacecraft(5, ME, 0, 0, &[]),
            star_base(6, ME, 0, 7000),
        ],
        vec![],
    );
    let orders = control.update(&data);
    assert_eq!(
        control.units,
        vec![
            Unit { id: 2, state: SpacecraftState::Mining, tags: tags(&["new"]) },
            Unit { id: 4, state: SpacecraftState::Idle, tags: vec![] },
            Unit { id: 5, state: SpacecraftState::Defense, tags: vec![] },
        ]
    );
    assert_eq!(orders, vec![fly(5, 0, 7000, 600)]);
    assert_eq!(control.state_of(1), SpacecraftState::Idle);
    assert_eq!(control.state_of(2), SpacecraftState::Mining);
}

#[test]
fn a_second_tick_on_the_same_snapshot_gives_the_same_orders() {
    let data = world(
        vec![
            spacecraft(1, ME, 0, 0, &["scout"]),
            spacecraft(2, FOE, 5000, 0, &[]),
            star_base(3, FOE, 50_000, 0),
        ],
        vec![],
    );
    let mut control = SpacecraftControl::new();
    control.update(&data);
    control.assign_state(&tags(&["scout"]), SpacecraftState::Attack);
    let first = control.update(&data);
    let units = control.units.clone();
    let second = control.update(&data);
    assert_eq!(first, vec![shoot(1, 5000, 0), fly(1, 50_000, 0, 700)]);
    assert_eq!(second, first);
    assert_eq!(control.units, units);
}

#[test]
fn units_that_carry_a_selected_tag_change_state() {
    let mut control = SpacecraftControl {
        units: vec![
            Unit { id: 1, state: SpacecraftState::Idle, tags: tags(&["miner", "slow"]) },
            Unit { id: 2, state: SpacecraftState::Attack, tags: tags(&["raider"]) },
            Unit { id: 3, state: SpacecraftState::Defense, tags: vec![] },
            Unit { id: 4, state: SpacecraftState::Idle, tags: tags(&["fast", "miner"]) },
        ],
    };
    control.assign_state(&tags(&["miner", "guard"]), SpacecraftState::Mining);
    assert_eq!(
        control.units,
        vec![
            Unit { id: 1, state: SpacecraftState::Mining, tags: tags(&["miner", "slow"]) },
            Unit { id: 2, state: SpacecraftState::Attack, tags: tags(&["raider"]) },
            Unit { id: 3, state: SpacecraftState::Defense, tags: vec![] },
            Unit { id: 4, state: SpacecraftState::Mining, tags: tags(&["fast", "miner"]) },
        ]
    );
}

#[test]
fn an_empty_selection_changes_no_unit() {
    let mut control = SpacecraftControl {
        units: vec![Unit { id: 1, state: SpacecraftState::Attack, tags: tags(&["miner"]) }],
    };
    control.assign_state(&vec![], SpacecraftState::Idle);
    assert_eq!(control.state_of(1), SpacecraftState::Attack);
}

#[test]
fn tags_are_shared_where_one_is_in_both_lists() {
    assert!(shares_tag(&tags(&["a", "b"]), &tags(&["c", "b"])));
    assert!(!shares_tag(&tags(&["a", "b"]), &tags(&["c", "d"])));
    assert!(!shares_tag(&tags(&[]), &tags(&["c"])));
    assert!(!shares_tag(&tags(&["a"]), &tags(&[])));
    assert!(!shares_tag(&tags(&["miner"]), &tags(&["mine"])));
}

#[test]
fn the_state_on_record_is_found_by_identifier() {
    let units = vec![
        Unit { id: 3, state: SpacecraftState::Attack, tags: vec![] },
        Unit { id: 8, state: SpacecraftState::Defense, tags: vec![] },
    ];
    assert_eq!(recorded_state(&units, 3), SpacecraftState::Attack);
    assert_eq!(recorded_state(&units, 8), SpacecraftState::Defense);
    assert_eq!(recorded_state(&units, 5), SpacecraftState::Idle);
}
