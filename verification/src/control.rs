//! The behaviour of each unit: what it shoots at and where it flies,
//! decided afresh every tick from the state it was given.

use vstd::prelude::*;
use crate::commands::{assemble, lemma_assemble_all, lemma_assemble_none, lemma_assemble_step};
use crate::game_data::{
    lemma_closest, lemma_places, places_upto, Asteroid, Category, GameData, GameObject, Material,
    Ranking, Stock,
};
use crate::game_data::rank;
use crate::model::{Body, GameObjectId, Spacecraft};
use crate::numeric::LIMIT;
use crate::vec2::Vec2;

verus! {

/// What a unit is about.
#[derive(Clone, Copy, Debug, PartialEq, Eq, Structural)]
pub enum SpacecraftState {
    /// Defend itself where it stands.
    Idle,
    /// Make for the closest enemy star base.
    Attack,
    /// Mine the material its player holds least of.
    Mining,
    /// Fall back to the closest star base of its own.
    Defense,
}

impl Default for SpacecraftState {
    fn default() -> (state: Self)
        ensures
            state == SpacecraftState::Idle,
    {
        SpacecraftState::Idle
    }
}

/// How hard a unit steers on the attack, in thousandths.
pub const ATTACK_STEERING: i64 = 700;

/// How hard a unit steers toward an asteroid, in thousandths.
pub const MINING_STEERING: i64 = 600;

/// How hard a unit steers on the way home, in thousandths.
pub const DEFENSE_STEERING: i64 = 600;

/// A unit shoots its asteroid from less than two hundred units away. This
/// is that distance squared, in millionths.
pub const MINING_REACH_SQUARED: i128 = 40_000_000_000;

/// One thing a unit is to do this tick.
#[derive(Clone, Copy, Debug, PartialEq, Eq, Structural)]
pub enum Action {
    /// Aim ahead of the body and fire.
    Shoot { target: Body },
    /// Fly to the body, steering at `steering` thousandths.
    FlyTo { target: Body, steering: i64 },
}

/// An action for one unit.
#[derive(Clone, Copy, Debug, PartialEq, Eq, Structural)]
pub struct Order {
    pub spacecraft: GameObjectId,
    pub action: Action,
}

/// What is remembered of a unit from tick to tick.
#[derive(Clone, Debug, PartialEq, Eq)]
pub struct Unit {
    pub id: GameObjectId,
    pub state: SpacecraftState,
    /// The tags the unit carried when it was last seen.
    pub tags: Vec<String>,
}

/// The state on record for a unit; a unit not on record is idle.
pub open spec fn state_in(units: Seq<Unit>, id: GameObjectId) -> SpacecraftState
    decreases units.len(),
{
    if units.len() == 0 {
        SpacecraftState::Idle
    } else if units[0].id == id {
        units[0].state
    } else {
        state_in(units.drop_first(), id)
    }
}

/// Whether two lists of tags share a tag.
pub open spec fn share_tag(tags: Seq<String>, selection: Seq<String>) -> bool {
    exists|a: int, b: int|
        0 <= a < tags.len() && 0 <= b < selection.len() && (#[trigger] tags[a])@ == (
        #[trigger] selection[b])@
}

/// The place of the first stock of least amount among the first `upto`.
pub open spec fn least_upto(stocks: Seq<Stock>, upto: nat) -> Option<int>
    decreases upto,
{
    if upto == 0 {
        None
    } else {
        match least_upto(stocks, (upto - 1) as nat) {
            None => Some(upto - 1),
            Some(best) => if stocks[upto - 1].amount < stocks[best].amount {
                Some(upto - 1)
            } else {
                Some(best)
            },
        }
    }
}

/// The material a player holds least of: of several held alike, the first
/// listed. None for a player who has no stock at all.
pub open spec fn least_material_spec(stocks: Seq<Stock>) -> Option<Material> {
    match least_upto(stocks, stocks.len()) {
        Some(i) => Some(stocks[i].material),
        None => None,
    }
}

/// The asteroid a mining unit at `position` works on: the closest, by
/// exact distance, of those that bear the material its player holds least
/// of.
pub open spec fn mining_site_spec(data: GameData, position: Vec2) -> Option<Asteroid> {
    match least_material_spec(data.player.materials@) {
        Some(material) => match data.closest_spec(
            Category::AsteroidBearing(material),
            position,
            Ranking::Exact,
        ) {
            Some(i) => Some(data.game_objects[i].object->Asteroid_0),
            None => None,
        },
        None => None,
    }
}

/// The order to shoot at a target, where there is one.
pub open spec fn shot_spec(id: GameObjectId, target: Option<(GameObjectId, Body)>) -> Seq<Order> {
    match target {
        Some(found) => seq![Order { spacecraft: id, action: Action::Shoot { target: found.1 } }],
        None => Seq::empty(),
    }
}

/// The order to fly to a star base, where there is one.
pub open spec fn flight_spec(
    id: GameObjectId,
    star_base: Option<int>,
    data: GameData,
    steering: i64,
) -> Seq<Order> {
    match star_base {
        Some(i) => seq![
            Order {
                spacecraft: id,
                action: Action::FlyTo {
                    target: data.game_objects[i].object.body_spec(),
                    steering,
                },
            },
        ],
        None => Seq::empty(),
    }
}

/// Whether an asteroid is close enough to a mining unit to be shot.
pub open spec fn in_mining_reach(asteroid: Asteroid, position: Vec2) -> bool {
    position.minus_spec(asteroid.body.position).length_squared_spec() < MINING_REACH_SQUARED
}

/// What a unit does this tick, in the order in which it does it.
///
/// Idle: it shoots at the closest enemy target. Attack: it does so and
/// flies to the closest enemy star base. Mining: it flies to its asteroid
/// and shoots it from within reach; out of reach, or without an asteroid,
/// it shoots at the closest enemy target. Defense: it shoots at the closest
/// enemy target and flies to the closest star base of its own. Where there
/// is nothing to shoot at or to fly to, that part is left out.
pub open spec fn unit_orders(
    data: GameData,
    id: GameObjectId,
    position: Vec2,
    state: SpacecraftState,
) -> Seq<Order> {
    let general = shot_spec(id, data.closest_enemy_target_spec(position));
    match state {
        SpacecraftState::Idle => general,
        SpacecraftState::Attack => general + flight_spec(
            id,
            data.closest_spec(Category::EnemyStarBase, position, Ranking::Exact),
            data,
            ATTACK_STEERING,
        ),
        SpacecraftState::Mining => match mining_site_spec(data, position) {
            Some(asteroid) => seq![
                Order {
                    spacecraft: id,
                    action: Action::FlyTo { target: asteroid.body, steering: MINING_STEERING },
                },
            ] + if in_mining_reach(asteroid, position) {
                seq![Order { spacecraft: id, action: Action::Shoot { target: asteroid.body } }]
            } else {
                general
            },
            None => general,
        },
        SpacecraftState::Defense => general + flight_spec(
            id,
            data.closest_spec(Category::MyStarBase, position, Ranking::Exact),
            data,
            DEFENSE_STEERING,
        ),
    }
}

/// The asteroid a mining unit works on bears the material that its
/// player holds least of, and no asteroid bearing that material is
/// closer.
pub proof fn lemma_mining_site(data: GameData, position: Vec2, other: int)
    requires
        mining_site_spec(data, position) is Some,
        0 <= other < data.game_objects.len(),
        data.game_objects[other].object matches GameObject::Asteroid(rock)
            && Some(rock.material) == least_material_spec(data.player.materials@),
    ensures
        Some(mining_site_spec(data, position).unwrap().material) == least_material_spec(
            data.player.materials@,
        ),
        position.minus_spec(
            mining_site_spec(data, position).unwrap().body.position,
        ).length_squared_spec() <= position.minus_spec(
            data.game_objects[other].object.body_spec().position,
        ).length_squared_spec(),
{
    let material = least_material_spec(data.player.materials@).unwrap();
    lemma_closest(
        data.game_objects@,
        data.player_id,
        Category::AsteroidBearing(material),
        position,
        Ranking::Exact,
        data.game_objects.len() as nat,
    );
}

/// No stock is of a smaller amount than the least, and none before it is
/// of the same.
pub proof fn lemma_least(stocks: Seq<Stock>, upto: nat)
    requires
        upto <= stocks.len(),
    ensures
        match least_upto(stocks, upto) {
            Some(best) => {
                &&& 0 <= best < upto
                &&& forall|i: int| 0 <= i < upto ==> stocks[best].amount <= (#[trigger] stocks[i]).amount
                &&& forall|i: int| 0 <= i < best ==> stocks[best].amount < (#[trigger] stocks[i]).amount
            },
            None => upto == 0,
        },
    decreases upto,
{
    if upto > 0 {
        lemma_least(stocks, (upto - 1) as nat);
    }
}

/// The material a player holds least of.
pub fn least_material(stocks: &Vec<Stock>) -> (material: Option<Material>)
    ensures
        material == least_material_spec(stocks@),
{
    if stocks.len() == 0 {
        return None;
    }
    let mut best: usize = 0;
    let mut i: usize = 1;
    assert(least_upto(stocks@, 0) == None::<int>);
    assert(least_upto(stocks@, 1) == Some(0int));
    while i < stocks.len()
        invariant
            1 <= i <= stocks.len(),
            least_upto(stocks@, i as nat) == Some(best as int),
            best < i,
        decreases stocks.len() - i,
    {
        if stocks[i].amount < stocks[best].amount {
            best = i;
        }
        i += 1;
    }
    Some(stocks[best].material)
}

/// The asteroid a mining unit at `position` works on.
pub fn mining_site(data: &GameData, position: &Vec2) -> (site: Option<Asteroid>)
    requires
        data.wf(),
        position.within(LIMIT as int),
    ensures
        site == mining_site_spec(*data, *position),
        site matches Some(asteroid) ==> asteroid.body.wf(),
{
    match least_material(&data.player.materials) {
        Some(material) => match data.closest(
            Category::AsteroidBearing(material),
            position,
            Ranking::Exact,
        ) {
            Some(i) => {
                assert(data.game_objects[i as int].object.wf());
                match &data.game_objects[i].object {
                    GameObject::Asteroid(asteroid) => Some(*asteroid),
                    _ => None,
                }
            },
            None => None,
        },
        None => None,
    }
}

/// Appends the order to shoot at the closest enemy target, where there is
/// one.
fn order_shot(orders: &mut Vec<Order>, data: &GameData, id: GameObjectId, position: &Vec2)
    requires
        data.wf(),
        position.within(LIMIT as int),
    ensures
        final(orders)@ == old(orders)@ + shot_spec(id, data.closest_enemy_target_spec(*position)),
{
    match data.closest_enemy_target(position) {
        Some(found) => {
            orders.push(Order { spacecraft: id, action: Action::Shoot { target: found.1 } });
        },
        None => {},
    }
    assert(orders@ =~= old(orders)@ + shot_spec(id, data.closest_enemy_target_spec(*position)));
}

/// Appends the order to fly to the closest star base of a category, where
/// there is one.
fn order_flight(
    orders: &mut Vec<Order>,
    data: &GameData,
    id: GameObjectId,
    position: &Vec2,
    category: Category,
    ranking: Ranking,
    steering: i64,
)
    requires
        data.wf(),
        position.within(LIMIT as int),
    ensures
        final(orders)@ == old(orders)@ + flight_spec(
            id,
            data.closest_spec(category, *position, ranking),
            *data,
            steering,
        ),
{
    match data.closest(category, position, ranking) {
        Some(i) => {
            orders.push(
                Order {
                    spacecraft: id,
                    action: Action::FlyTo { target: data.game_objects[i].object.body(), steering },
                },
            );
        },
        None => {},
    }
    assert(orders@ =~= old(orders)@ + flight_spec(
        id,
        data.closest_spec(category, *position, ranking),
        *data,
        steering,
    ));
}

/// What the unit `id` at `position` does this tick in `state`.
pub fn orders_for(data: &GameData, id: GameObjectId, position: &Vec2, state: SpacecraftState) -> (orders:
    Vec<Order>)
    requires
        data.wf(),
        position.within(LIMIT as int),
    ensures
        orders@ == unit_orders(*data, id, *position, state),
{
    let mut orders: Vec<Order> = Vec::new();
    match state {
        SpacecraftState::Idle => {
            order_shot(&mut orders, data, id, position);
        },
        SpacecraftState::Attack => {
            order_shot(&mut orders, data, id, position);
            order_flight(
                &mut orders,
                data,
                id,
                position,
                Category::EnemyStarBase,
                Ranking::Exact,
                ATTACK_STEERING,
            );
        },
        SpacecraftState::Mining => {
            match mining_site(data, position) {
                Some(asteroid) => {
                    orders.push(
                        Order {
                            spacecraft: id,
                            action: Action::FlyTo {
                                target: asteroid.body,
                                steering: MINING_STEERING,
                            },
                        },
                    );
                    if rank(position, &asteroid.body, Ranking::Exact) < MINING_REACH_SQUARED {
                        orders.push(
                            Order { spacecraft: id, action: Action::Shoot { target: asteroid.body } },
                        );
                    } else {
                        order_shot(&mut orders, data, id, position);
                    }
                },
                None => {
                    order_shot(&mut orders, data, id, position);
                },
            }
        },
        SpacecraftState::Defense => {
            order_shot(&mut orders, data, id, position);
            order_flight(
                &mut orders,
                data,
                id,
                position,
                Category::MyStarBase,
                Ranking::Exact,
                DEFENSE_STEERING,
            );
        },
    }
    assert(orders@ =~= unit_orders(*data, id, *position, state));
    orders
}

/// The places of the acting player's spacecraft, in ascending order.
pub open spec fn own_places(data: GameData) -> Seq<int> {
    places_upto(
        data.game_objects@,
        data.player_id,
        Category::MySpacecraft,
        data.game_objects.len() as nat,
    )
}

/// Whether `units` is the record that a tick on `data` leaves of `before`:
/// one unit for each spacecraft of the acting player, in ascending order of
/// identifier, with the tags it carries now and the state it had on record,
/// idle if it had none. Units that are gone are forgotten.
pub open spec fn follows(units: Seq<Unit>, before: Seq<Unit>, data: GameData) -> bool {
    &&& units.len() == own_places(data).len()
    &&& forall|k: int|
        0 <= k < units.len() ==> {
            let entry = data.game_objects[own_places(data)[k]];
            &&& (#[trigger] units[k]).id == entry.id
            &&& units[k].state == state_in(before, entry.id)
            &&& units[k].tags@ == entry.object->Spacecraft_0.tags@
        }
}

/// The orders of each unit on record, by its place in the record.
pub open spec fn order_blocks(data: GameData, units: Seq<Unit>) -> spec_fn(int) -> Seq<Order> {
    |k: int|
        unit_orders(
            data,
            units[k].id,
            data.game_objects[own_places(data)[k]].object.body_spec().position,
            units[k].state,
        )
}

/// Whether the units are listed in ascending order of identifier.
pub open spec fn ascending_units(units: Seq<Unit>) -> bool {
    forall|i: int, j: int| 0 <= i < j < units.len() ==> units[i].id < units[j].id
}

/// The state on record for a unit; a unit not on record is idle.
pub fn recorded_state(units: &Vec<Unit>, id: GameObjectId) -> (state: SpacecraftState)
    ensures
        state == state_in(units@, id),
{
    let mut i: usize = 0;
    assert(units@.skip(0) =~= units@);
    while i < units.len()
        invariant
            i <= units.len(),
            state_in(units@, id) == state_in(units@.skip(i as int), id),
        decreases units.len() - i,
    {
        if units[i].id == id {
            return units[i].state;
        }
        assert(units@.skip(i as int).drop_first() =~= units@.skip(i + 1));
        i += 1;
    }
    SpacecraftState::Idle
}

/// A copy of a list of tags.
fn copy_tags(tags: &Vec<String>) -> (copy: Vec<String>)
    ensures
        copy@ == tags@,
{
    let mut copy: Vec<String> = Vec::new();
    let mut i: usize = 0;
    while i < tags.len()
        invariant
            i <= tags.len(),
            copy@ == tags@.take(i as int),
        decreases tags.len() - i,
    {
        copy.push(tags[i].clone());
        assert(copy@ =~= tags@.take(i + 1));
        i += 1;
    }
    assert(tags@.take(i as int) =~= tags@);
    copy
}

/// Whether a tag is among a selection.
pub fn selected(tag: &String, selection: &Vec<String>) -> (found: bool)
    ensures
        found == exists|b: int| 0 <= b < selection.len() && tag@ == (#[trigger] selection[b])@,
{
    let mut b: usize = 0;
    while b < selection.len()
        invariant
            b <= selection.len(),
            forall|j: int| 0 <= j < b ==> tag@ != (#[trigger] selection[j])@,
        decreases selection.len() - b,
    {
        if *tag == selection[b] {
            return true;
        }
        b += 1;
    }
    false
}

/// Whether two lists of tags share a tag.
pub fn shares_tag(tags: &Vec<String>, selection: &Vec<String>) -> (shared: bool)
    ensures
        shared == share_tag(tags@, selection@),
{
    let mut a: usize = 0;
    while a < tags.len()
        invariant
            a <= tags.len(),
            forall|i: int, j: int|
                0 <= i < a && 0 <= j < selection.len() ==> (#[trigger] tags[i])@ != (
                #[trigger] selection[j])@,
        decreases tags.len() - a,
    {
        if selected(&tags[a], selection) {
            return true;
        }
        a += 1;
    }
    false
}

/// The behaviour of the acting player's units: the state of each, kept
/// from tick to tick.
#[derive(Debug, PartialEq, Eq)]
pub struct SpacecraftControl {
    /// One record for each unit seen at the last tick, in ascending order
    /// of identifier.
    pub units: Vec<Unit>,
}

impl SpacecraftControl {
    /// A control that has seen no unit yet.
    pub fn new() -> (control: Self)
        ensures
            control.units@ == Seq::<Unit>::empty(),
    {
        Self { units: Vec::new() }
    }

    /// The state of a unit; a unit not on record is idle.
    pub fn state_of(&self, id: GameObjectId) -> (state: SpacecraftState)
        ensures
            state == state_in(self.units@, id),
    {
        recorded_state(&self.units, id)
    }

    /// Puts every unit that carries one of the selected tags into `state`
    /// and leaves the others as they are.
    pub fn assign_state(&mut self, selection: &Vec<String>, state: SpacecraftState)
        ensures
            final(self).units.len() == old(self).units.len(),
            forall|k: int|
                0 <= k < old(self).units.len() ==> {
                    &&& (#[trigger] final(self).units[k]).id == old(self).units[k].id
                    &&& final(self).units[k].tags@ == old(self).units[k].tags@
                    &&& final(self).units[k].state == if share_tag(
                        old(self).units[k].tags@,
                        selection@,
                    ) {
                        state
                    } else {
                        old(self).units[k].state
                    }
                },
    {
        let mut units: Vec<Unit> = Vec::new();
        let mut k: usize = 0;
        while k < self.units.len()
            invariant
                k <= self.units.len(),
                self.units == old(self).units,
                units.len() == k,
                forall|j: int|
                    0 <= j < k ==> {
                        &&& (#[trigger] units[j]).id == self.units[j].id
                        &&& units[j].tags@ == self.units[j].tags@
                        &&& units[j].state == if share_tag(self.units[j].tags@, selection@) {
                            state
                        } else {
                            self.units[j].state
                        }
                    },
            decreases self.units.len() - k,
        {
            let unit: &Unit = &self.units[k];
            let next: SpacecraftState = if shares_tag(&unit.tags, selection) {
                state
            } else {
                unit.state
            };
            units.push(Unit { id: unit.id, state: next, tags: copy_tags(&unit.tags) });
            k += 1;
        }
        self.units = units;
    }

    /// One control tick: forgets the units that are gone, takes up the new
    /// ones as idle, notes the tags of each, and says what each does this
    /// tick, unit after unit in ascending order of identifier.
    pub fn update(&mut self, game_data: &GameData) -> (orders: Vec<Order>)
        requires
            game_data.wf(),
        ensures
            follows(final(self).units@, old(self).units@, *game_data),
            ascending_units(final(self).units@),
            orders@ == assemble(
                final(self).units.len() as nat,
                order_blocks(*game_data, final(self).units@),
            ),
    {
        let own: Vec<(GameObjectId, &Spacecraft)> = game_data.my_spacecrafts();
        let ghost places = own_places(*game_data);
        let mut units: Vec<Unit> = Vec::new();
        let mut orders: Vec<Order> = Vec::new();
        let ghost mut blocks: Seq<Seq<Order>> = Seq::empty();
        let mut k: usize = 0;
        proof {
            lemma_places(
                game_data.game_objects@,
                game_data.player_id,
                Category::MySpacecraft,
                game_data.game_objects.len() as nat,
            );
        }
        while k < own.len()
            invariant
                game_data.wf(),
                places == own_places(*game_data),
                k <= own.len(),
                own@.len() == places.len(),
                forall|j: int|
                    0 <= j < own@.len() ==> (#[trigger] own@[j]).0 == game_data.game_objects[places[j]].id
                        && *own@[j].1 == game_data.game_objects[places[j]].object->Spacecraft_0,
                forall|j: int|
                    0 <= j < places.len() ==> 0 <= (#[trigger] places[j]) < game_data.game_objects.len()
                        && admits_own(*game_data, places[j]),
                forall|i: int, j: int| 0 <= i < j < places.len() ==> places[i] < places[j],
                self.units == old(self).units,
                units.len() == k,
                forall|j: int|
                    0 <= j < k ==> {
                        let entry = game_data.game_objects[places[j]];
                        &&& (#[trigger] units[j]).id == entry.id
                        &&& units[j].state == state_in(old(self).units@, entry.id)
                        &&& units[j].tags@ == entry.object->Spacecraft_0.tags@
                    },
                blocks.len() == k,
                forall|j: int|
                    0 <= j < k ==> (#[trigger] blocks[j]) == unit_orders(
                        *game_data,
                        units[j].id,
                        game_data.game_objects[places[j]].object.body_spec().position,
                        units[j].state,
                    ),
                orders@ == blocks.flatten(),
            decreases own.len() - k,
        {
            let id: GameObjectId = own[k].0;
            let craft: &Spacecraft = own[k].1;
            let ghost place = places[k as int];
            assert(admits_own(*game_data, place));
            assert(game_data.game_objects[place].object.wf());
            let state: SpacecraftState = recorded_state(&self.units, id);
            units.push(Unit { id, state, tags: copy_tags(&craft.tags) });
            let mut unit_orders: Vec<Order> = orders_for(game_data, id, &craft.body.position, state);
            proof {
                blocks.lemma_flatten_push(unit_orders@);
                blocks = blocks.push(unit_orders@);
            }
            orders.append(&mut unit_orders);
            k += 1;
        }
        proof {
            assert(Seq::new(units.len() as nat, order_blocks(*game_data, units@)) =~= blocks);
            assert forall|i: int, j: int| 0 <= i < j < units.len() implies units[i].id
                < units[j].id by {
                assert(places[i] < places[j]);
            }
        }
        self.units = units;
        orders
    }
}

/// Whether the object at a place is a spacecraft of the acting player.
pub open spec fn admits_own(data: GameData, place: int) -> bool {
    crate::game_data::admits(data.game_objects[place].object, Category::MySpacecraft, data.player_id)
}

/// In a record in ascending order of identifier, each unit is found under
/// its own identifier.
pub proof fn lemma_state_found(units: Seq<Unit>, k: int)
    requires
        ascending_units(units),
        0 <= k < units.len(),
    ensures
        state_in(units, units[k].id) == units[k].state,
    decreases units.len(),
{
    if k > 0 {
        assert(units[0].id < units[k].id);
        let rest = units.drop_first();
        assert forall|i: int, j: int| 0 <= i < j < rest.len() implies rest[i].id < rest[j].id by {
            assert(rest[i] == units[i + 1]);
            assert(rest[j] == units[j + 1]);
        }
        assert(rest[k - 1] == units[k]);
        lemma_state_found(rest, k - 1);
    }
}

/// A tick settles: a second tick on the same snapshot leaves the record as
/// the first left it and gives the same orders.
pub proof fn lemma_tick_settles(before: Seq<Unit>, first: Seq<Unit>, second: Seq<Unit>, data: GameData)
    requires
        follows(first, before, data),
        ascending_units(first),
        follows(second, first, data),
    ensures
        second.len() == first.len(),
        forall|k: int|
            0 <= k < first.len() ==> (#[trigger] second[k]).id == first[k].id && second[k].state
                == first[k].state && second[k].tags@ == first[k].tags@,
        assemble(second.len(), order_blocks(data, second)) == assemble(
            first.len(),
            order_blocks(data, first),
        ),
{
    assert forall|k: int| 0 <= k < first.len() implies (#[trigger] second[k]).id == first[k].id
        && second[k].state == first[k].state && second[k].tags@ == first[k].tags@ by {
        lemma_state_found(first, k);
    }
    assert(Seq::new(second.len(), order_blocks(data, second)) =~= Seq::new(
        first.len(),
        order_blocks(data, first),
    ));
}

/// No order names what is not there: every order of a tick is for a
/// spacecraft of the acting player that is in the snapshot.
pub proof fn lemma_orders_for_own_units(before: Seq<Unit>, units: Seq<Unit>, data: GameData, k: int)
    requires
        follows(units, before, data),
        0 <= k < assemble(units.len(), order_blocks(data, units)).len(),
    ensures
        exists|place: int|
            0 <= place < data.game_objects.len() && admits_own(data, place) && (
            #[trigger] data.game_objects[place]).id == assemble(
                units.len(),
                order_blocks(data, units),
            )[k].spacecraft,
{
    let blocks = order_blocks(data, units);
    let holds = |order: Order|
        exists|place: int|
            0 <= place < data.game_objects.len() && admits_own(data, place) && (
            #[trigger] data.game_objects[place]).id == order.spacecraft;
    lemma_places(
        data.game_objects@,
        data.player_id,
        Category::MySpacecraft,
        data.game_objects.len() as nat,
    );
    assert forall|i: int, j: int| 0 <= i < units.len() && 0 <= j < blocks(i).len() implies holds(
        #[trigger] blocks(i)[j],
    ) by {
        let place = own_places(data)[i];
        assert(blocks(i)[j].spacecraft == units[i].id);
        assert(data.game_objects[place].id == units[i].id);
        assert(admits_own(data, place));
    }
    lemma_assemble_all(units.len(), blocks, holds);
    assert(holds(assemble(units.len(), blocks)[k]));
}

} // verus!
