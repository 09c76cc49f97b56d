//! The world as one control tick sees it, and the questions the
//! controllers ask of it.

use vstd::prelude::*;
use crate::model::{Body, Command, GameObjectId, PlayerId, Spacecraft};
use crate::numeric::{sqrt_floor, LIMIT, SCALE};
use crate::vec2::Vec2;

verus! {

/// What an asteroid yields and a player holds.
#[derive(Clone, Copy, Debug, PartialEq, Eq, Structural)]
pub enum Material {
    Iron,
    Nickel,
    Silicates,
    Copper,
    Carbon,
    Gold,
}

/// A rock that bears one material. Asteroids have no owner.
#[derive(Clone, Copy, Debug, PartialEq, Eq, Structural)]
pub struct Asteroid {
    pub body: Body,
    pub material: Material,
}

/// A player's base.
#[derive(Clone, Copy, Debug, PartialEq, Eq, Structural)]
pub struct StarBase {
    pub owner: PlayerId,
    pub body: Body,
}

/// An object of the world.
#[derive(Clone, Debug, PartialEq, Eq)]
pub enum GameObject {
    Spacecraft(Spacecraft),
    Asteroid(Asteroid),
    StarBase(StarBase),
}

impl GameObject {
    /// The kinematic state of the object.
    pub open spec fn body_spec(self) -> Body {
        match self {
            GameObject::Spacecraft(spacecraft) => spacecraft.body,
            GameObject::Asteroid(asteroid) => asteroid.body,
            GameObject::StarBase(star_base) => star_base.body,
        }
    }

    /// Every quantity of the object is within the accepted magnitude.
    pub open spec fn wf(self) -> bool {
        match self {
            GameObject::Spacecraft(spacecraft) => spacecraft.wf(),
            GameObject::Asteroid(asteroid) => asteroid.body.wf(),
            GameObject::StarBase(star_base) => star_base.body.wf(),
        }
    }

    /// The kinematic state of the object.
    pub fn body(&self) -> (body: Body)
        ensures
            body == self.body_spec(),
    {
        match self {
            GameObject::Spacecraft(spacecraft) => spacecraft.body,
            GameObject::Asteroid(asteroid) => asteroid.body,
            GameObject::StarBase(star_base) => star_base.body,
        }
    }

    /// Whether the object is well-formed.
    pub fn valid(&self) -> (b: bool)
        ensures
            b == self.wf(),
    {
        match self {
            GameObject::Spacecraft(spacecraft) => spacecraft.valid(),
            GameObject::Asteroid(asteroid) => asteroid.body.valid(),
            GameObject::StarBase(star_base) => star_base.body.valid(),
        }
    }
}

/// An object under its identifier.
#[derive(Clone, Debug, PartialEq, Eq)]
pub struct Entry {
    pub id: GameObjectId,
    pub object: GameObject,
}

/// How much a player holds of one material, in thousandths.
#[derive(Clone, Copy, Debug, PartialEq, Eq, Structural)]
pub struct Stock {
    pub material: Material,
    pub amount: i64,
}

/// The acting player's inventory.
#[derive(Clone, Debug, PartialEq, Eq)]
pub struct Player {
    pub materials: Vec<Stock>,
}

/// A kind of object that a query looks for.
#[derive(Clone, Copy, Debug, PartialEq, Eq, Structural)]
pub enum Category {
    /// A star base of the acting player.
    MyStarBase,
    /// A spacecraft of the acting player.
    MySpacecraft,
    /// Any star base.
    StarBase,
    /// Any asteroid.
    Asteroid,
    /// An asteroid that bears the given material.
    AsteroidBearing(Material),
    /// A spacecraft of another player.
    EnemySpacecraft,
    /// A star base of another player.
    EnemyStarBase,
}

/// How distances are compared.
#[derive(Clone, Copy, Debug, PartialEq, Eq, Structural)]
pub enum Ranking {
    /// By the distance itself.
    Exact,
    /// By the distance in whole units, rounded down: objects less than a
    /// unit apart in distance rank alike.
    Truncated,
}

/// Whether an object is of a category, for the acting player `player_id`.
pub open spec fn admits(object: GameObject, category: Category, player_id: PlayerId) -> bool {
    match (category, object) {
        (Category::MyStarBase, GameObject::StarBase(star_base)) => star_base.owner == player_id,
        (Category::MySpacecraft, GameObject::Spacecraft(spacecraft)) => spacecraft.owner == player_id,
        (Category::StarBase, GameObject::StarBase(_)) => true,
        (Category::Asteroid, GameObject::Asteroid(_)) => true,
        (Category::AsteroidBearing(material), GameObject::Asteroid(asteroid)) => asteroid.material
            == material,
        (Category::EnemySpacecraft, GameObject::Spacecraft(spacecraft)) => spacecraft.owner
            != player_id,
        (Category::EnemyStarBase, GameObject::StarBase(star_base)) => star_base.owner != player_id,
        _ => false,
    }
}

/// The rank of a body by its distance from `position`: the smaller, the
/// closer. The exact rank is the distance squared.
pub open spec fn rank_spec(position: Vec2, body: Body, ranking: Ranking) -> int {
    let squared = position.minus_spec(body.position).length_squared_spec();
    match ranking {
        Ranking::Exact => squared,
        Ranking::Truncated => sqrt_floor(squared) / (SCALE as int),
    }
}

/// The place of the closest object of a category among the first `upto`
/// objects: of several that rank alike, the first.
pub open spec fn closest_upto(
    objects: Seq<Entry>,
    player_id: PlayerId,
    category: Category,
    position: Vec2,
    ranking: Ranking,
    upto: nat,
) -> Option<int>
    decreases upto,
{
    if upto == 0 {
        None
    } else {
        let before = closest_upto(objects, player_id, category, position, ranking, (upto - 1) as nat);
        let i = upto - 1;
        if !admits(objects[i].object, category, player_id) {
            before
        } else {
            match before {
                None => Some(i),
                Some(best) => if rank_spec(position, objects[i].object.body_spec(), ranking)
                    < rank_spec(position, objects[best].object.body_spec(), ranking) {
                    Some(i)
                } else {
                    before
                },
            }
        }
    }
}

/// The closer of two bodies, each with its identifier, by truncated
/// distance: the first unless the second is strictly closer.
pub open spec fn nearer_spec(
    position: Vec2,
    first: Option<(GameObjectId, Body)>,
    second: Option<(GameObjectId, Body)>,
) -> Option<(GameObjectId, Body)> {
    match (first, second) {
        (None, _) => second,
        (_, None) => first,
        (Some(a), Some(b)) => if rank_spec(position, b.1, Ranking::Truncated) < rank_spec(
            position,
            a.1,
            Ranking::Truncated,
        ) {
            second
        } else {
            first
        },
    }
}

/// The rank of a body by its distance from `position`.
pub fn rank(position: &Vec2, body: &Body, ranking: Ranking) -> (r: i128)
    requires
        position.within(LIMIT as int),
        body.wf(),
    ensures
        r == rank_spec(*position, *body, ranking),
{
    let difference: Vec2 = position.minus(body.position);
    match ranking {
        Ranking::Exact => difference.length_squared(),
        Ranking::Truncated => (difference.length() / SCALE) as i128,
    }
}

/// What a control tick knows: the objects of the world, who acts, what the
/// acting player holds, and the commands that the host has accepted so far.
#[derive(Debug, PartialEq, Eq)]
pub struct GameData {
    /// In ascending order of identifier.
    pub game_objects: Vec<Entry>,
    pub player_id: PlayerId,
    pub player: Player,
    /// The accepted commands, for a peer to replay.
    pub network_game_cmds: Vec<Command>,
}

/// The identifiers ascend strictly, so none occurs twice.
pub open spec fn ascending_ids(objects: Seq<Entry>) -> bool {
    forall|i: int, j: int| 0 <= i < j < objects.len() ==> objects[i].id < objects[j].id
}

/// A command with the host's verdict on it.
#[derive(Clone, Debug, PartialEq, Eq)]
pub struct Outcome<T> {
    pub command: T,
    pub accepted: bool,
}

/// The commands that the host accepted, in order.
pub open spec fn accepted_spec<T>(outcomes: Seq<Outcome<T>>) -> Seq<T>
    decreases outcomes.len(),
{
    if outcomes.len() == 0 {
        Seq::empty()
    } else if outcomes.last().accepted {
        accepted_spec(outcomes.drop_last()).push(outcomes.last().command)
    } else {
        accepted_spec(outcomes.drop_last())
    }
}

/// Records the host's verdict on one command: an accepted command joins
/// the log for the peer, a rejected one is dropped.
pub fn record<T>(log: &mut Vec<T>, outcome: Outcome<T>)
    ensures
        final(log)@ == if outcome.accepted {
            old(log)@.push(outcome.command)
        } else {
            old(log)@
        },
{
    if outcome.accepted {
        log.push(outcome.command);
    }
}

/// Records the host's verdicts on a batch of commands, in order. A
/// rejected command does not stop those after it.
pub fn record_all<T>(log: &mut Vec<T>, outcomes: Vec<Outcome<T>>)
    ensures
        final(log)@ == old(log)@ + accepted_spec(outcomes@),
{
    let ghost all = outcomes@;
    let ghost mut done: int = 0;
    let mut left: Vec<Outcome<T>> = outcomes;
    assert(all.take(0) =~= Seq::<Outcome<T>>::empty());
    assert(all.skip(0) =~= all);
    while left.len() > 0
        invariant
            0 <= done <= all.len(),
            left@ == all.skip(done),
            log@ == old(log)@ + accepted_spec(all.take(done)),
        decreases left.len(),
    {
        let outcome: Outcome<T> = left.remove(0);
        proof {
            let next = all.take(done + 1);
            assert(next.drop_last() =~= all.take(done));
            assert(next.last() == outcome);
            assert(left@ =~= all.skip(done + 1));
            done = done + 1;
        }
        record(log, outcome);
    }
    assert(all.take(done) =~= all);
}

/// The places of the objects of a category among the first `upto` objects,
/// in ascending order.
pub open spec fn places_upto(
    objects: Seq<Entry>,
    player_id: PlayerId,
    category: Category,
    upto: nat,
) -> Seq<int>
    decreases upto,
{
    if upto == 0 {
        Seq::empty()
    } else if admits(objects[upto - 1].object, category, player_id) {
        places_upto(objects, player_id, category, (upto - 1) as nat).push(upto - 1)
    } else {
        places_upto(objects, player_id, category, (upto - 1) as nat)
    }
}

/// The places listed are those of the objects of the category, each once,
/// in ascending order.
pub proof fn lemma_places(objects: Seq<Entry>, player_id: PlayerId, category: Category, upto: nat)
    requires
        upto <= objects.len(),
    ensures
        forall|k: int|
            0 <= k < places_upto(objects, player_id, category, upto).len() ==> {
                let i = #[trigger] places_upto(objects, player_id, category, upto)[k];
                0 <= i < upto && admits(objects[i].object, category, player_id)
            },
        forall|k: int, l: int|
            0 <= k < l < places_upto(objects, player_id, category, upto).len() ==> places_upto(
                objects,
                player_id,
                category,
                upto,
            )[k] < places_upto(objects, player_id, category, upto)[l],
        forall|i: int|
            0 <= i < upto && admits(#[trigger] objects[i].object, category, player_id)
                ==> places_upto(objects, player_id, category, upto).contains(i),
    decreases upto,
{
    if upto > 0 {
        let before = places_upto(objects, player_id, category, (upto - 1) as nat);
        let now = places_upto(objects, player_id, category, upto);
        lemma_places(objects, player_id, category, (upto - 1) as nat);
        assert forall|i: int|
            0 <= i < upto && admits(#[trigger] objects[i].object, category, player_id) implies now.contains(
            i,
        ) by {
            if i < upto - 1 {
                let k = choose|k: int| 0 <= k < before.len() && before[k] == i;
                assert(now[k] == i);
            } else {
                assert(now[now.len() - 1] == i);
            }
        }
    }
}

/// The closest object found is of the category and ranks no higher than
/// any other of the category, and lower than each before it; none is found
/// only where there is none of the category.
pub proof fn lemma_closest(
    objects: Seq<Entry>,
    player_id: PlayerId,
    category: Category,
    position: Vec2,
    ranking: Ranking,
    upto: nat,
)
    requires
        upto <= objects.len(),
    ensures
        match closest_upto(objects, player_id, category, position, ranking, upto) {
            Some(best) => {
                &&& 0 <= best < upto
                &&& admits(objects[best].object, category, player_id)
                &&& forall|i: int|
                    0 <= i < upto && admits(#[trigger] objects[i].object, category, player_id)
                        ==> rank_spec(position, objects[best].object.body_spec(), ranking)
                        <= rank_spec(position, objects[i].object.body_spec(), ranking)
                &&& forall|i: int|
                    0 <= i < best && admits(#[trigger] objects[i].object, category, player_id)
                        ==> rank_spec(position, objects[best].object.body_spec(), ranking)
                        < rank_spec(position, objects[i].object.body_spec(), ranking)
            },
            None => forall|i: int|
                0 <= i < upto ==> !admits(#[trigger] objects[i].object, category, player_id),
        },
    decreases upto,
{
    if upto > 0 {
        lemma_closest(objects, player_id, category, position, ranking, (upto - 1) as nat);
    }
}

impl GameData {
    /// Every object is well-formed and the objects are listed once each in
    /// ascending order of identifier.
    pub open spec fn wf(self) -> bool {
        &&& forall|i: int| 0 <= i < self.game_objects.len() ==> (#[trigger] self.game_objects[i]).object.wf()
        &&& ascending_ids(self.game_objects@)
    }

    /// The place of the closest object of a category, if there is one.
    pub open spec fn closest_spec(self, category: Category, position: Vec2, ranking: Ranking) -> Option<
        int,
    > {
        closest_upto(
            self.game_objects@,
            self.player_id,
            category,
            position,
            ranking,
            self.game_objects.len() as nat,
        )
    }

    /// The closest object of a category with its identifier and body.
    pub open spec fn closest_body_spec(self, category: Category, position: Vec2) -> Option<
        (GameObjectId, Body),
    > {
        match self.closest_spec(category, position, Ranking::Truncated) {
            Some(i) => Some((self.game_objects[i].id, self.game_objects[i].object.body_spec())),
            None => None,
        }
    }

    /// The closest thing to shoot at: the closest enemy spacecraft, the
    /// closest asteroid or the closest enemy star base, whichever is
    /// nearest; of several that rank alike, the first in that order.
    pub open spec fn closest_enemy_target_spec(self, position: Vec2) -> Option<(GameObjectId, Body)> {
        nearer_spec(
            position,
            nearer_spec(
                position,
                self.closest_body_spec(Category::EnemySpacecraft, position),
                self.closest_body_spec(Category::Asteroid, position),
            ),
            self.closest_body_spec(Category::EnemyStarBase, position),
        )
    }

    pub fn new(
        game_objects: Vec<Entry>,
        player_id: PlayerId,
        player: Player,
        network_game_cmds: Vec<Command>,
    ) -> (data: Self)
        ensures
            data.game_objects == game_objects,
            data.player_id == player_id,
            data.player == player,
            data.network_game_cmds == network_game_cmds,
    {
        Self { game_objects, player_id, player, network_game_cmds }
    }

    /// The acting player.
    pub fn player(&self) -> (player: &Player)
        ensures
            *player == self.player,
    {
        &self.player
    }

    /// Whether the snapshot is well-formed.
    pub fn valid(&self) -> (b: bool)
        ensures
            b == self.wf(),
    {
        let mut i: usize = 0;
        while i < self.game_objects.len()
            invariant
                i <= self.game_objects.len(),
                forall|k: int| 0 <= k < i ==> (#[trigger] self.game_objects[k]).object.wf(),
                forall|k: int, l: int| 0 <= k < l < i ==> self.game_objects[k].id < self.game_objects[l].id,
            decreases self.game_objects.len() - i,
        {
            if !self.game_objects[i].object.valid() {
                return false;
            }
            if i > 0 && self.game_objects[i - 1].id >= self.game_objects[i].id {
                return false;
            }
            proof {
                assert forall|k: int, l: int| 0 <= k < l < i + 1 implies self.game_objects[k].id
                    < self.game_objects[l].id by {
                    if l == i && k < i - 1 {
                        assert(self.game_objects[k].id < self.game_objects[i - 1].id);
                    }
                }
            }
            i += 1;
        }
        true
    }

    /// Whether the object at a place is of a category.
    fn is_of(&self, index: usize, category: Category) -> (b: bool)
        requires
            index < self.game_objects.len(),
        ensures
            b == admits(self.game_objects[index as int].object, category, self.player_id),
    {
        match (category, &self.game_objects[index].object) {
            (Category::MyStarBase, GameObject::StarBase(star_base)) => star_base.owner
                == self.player_id,
            (Category::MySpacecraft, GameObject::Spacecraft(spacecraft)) => spacecraft.owner
                == self.player_id,
            (Category::StarBase, GameObject::StarBase(_)) => true,
            (Category::Asteroid, GameObject::Asteroid(_)) => true,
            (Category::AsteroidBearing(material), GameObject::Asteroid(asteroid)) => asteroid.material
                == material,
            (Category::EnemySpacecraft, GameObject::Spacecraft(spacecraft)) => spacecraft.owner
                != self.player_id,
            (Category::EnemyStarBase, GameObject::StarBase(star_base)) => star_base.owner
                != self.player_id,
            _ => false,
        }
    }

    /// The place of the closest object of a category, if there is one.
    pub fn closest(&self, category: Category, position: &Vec2, ranking: Ranking) -> (place: Option<
        usize,
    >)
        requires
            self.wf(),
            position.within(LIMIT as int),
        ensures
            match place {
                Some(i) => self.closest_spec(category, *position, ranking) == Some(i as int) && i
                    < self.game_objects.len() && admits(
                    self.game_objects[i as int].object,
                    category,
                    self.player_id,
                ),
                None => self.closest_spec(category, *position, ranking).is_none(),
            },
    {
        let mut best: Option<usize> = None;
        let mut best_rank: i128 = 0;
        let mut i: usize = 0;
        while i < self.game_objects.len()
            invariant
                self.wf(),
                position.within(LIMIT as int),
                i <= self.game_objects.len(),
                match best {
                    Some(b) => closest_upto(
                        self.game_objects@,
                        self.player_id,
                        category,
                        *position,
                        ranking,
                        i as nat,
                    ) == Some(b as int) && b < i && best_rank == rank_spec(
                        *position,
                        self.game_objects[b as int].object.body_spec(),
                        ranking,
                    ) && admits(self.game_objects[b as int].object, category, self.player_id),
                    None => closest_upto(
                        self.game_objects@,
                        self.player_id,
                        category,
                        *position,
                        ranking,
                        i as nat,
                    ).is_none(),
                },
            decreases self.game_objects.len() - i,
        {
            if self.is_of(i, category) {
                assert(self.game_objects[i as int].object.wf());
                let body: Body = self.game_objects[i].object.body();
                let r: i128 = rank(position, &body, ranking);
                match best {
                    None => {
                        best = Some(i);
                        best_rank = r;
                    },
                    Some(_) => {
                        if r < best_rank {
                            best = Some(i);
                            best_rank = r;
                        }
                    },
                }
            }
            i += 1;
        }
        best
    }
    /// The object at a place with its identifier and body.
    fn body_at(&self, place: Option<usize>) -> (result: Option<(GameObjectId, Body)>)
        requires
            place matches Some(i) ==> i < self.game_objects.len(),
        ensures
            result == match place {
                Some(i) => Some(
                    (self.game_objects[i as int].id, self.game_objects[i as int].object.body_spec()),
                ),
                None => None,
            },
    {
        match place {
            Some(i) => Some((self.game_objects[i].id, self.game_objects[i].object.body())),
            None => None,
        }
    }

    /// The star base at a place with its identifier.
    fn star_base_at(&self, place: Option<usize>) -> (result: Option<(GameObjectId, StarBase)>)
        requires
            place matches Some(i) ==> i < self.game_objects.len()
                && self.game_objects[i as int].object is StarBase,
        ensures
            result == match place {
                Some(i) => Some(
                    (self.game_objects[i as int].id, self.game_objects[i as int].object->StarBase_0),
                ),
                None => None,
            },
    {
        match place {
            Some(i) => match &self.game_objects[i].object {
                GameObject::StarBase(star_base) => Some((self.game_objects[i].id, *star_base)),
                _ => None,
            },
            None => None,
        }
    }

    /// The acting player's star base closest to `position`, by exact
    /// distance.
    pub fn closest_my_star_base(&self, position: &Vec2) -> (result: Option<(GameObjectId, StarBase)>)
        requires
            self.wf(),
            position.within(LIMIT as int),
        ensures
            result == match self.closest_spec(Category::MyStarBase, *position, Ranking::Exact) {
                Some(i) => Some((self.game_objects[i].id, self.game_objects[i].object->StarBase_0)),
                None => None,
            },
    {
        let place: Option<usize> = self.closest(Category::MyStarBase, position, Ranking::Exact);
        self.star_base_at(place)
    }

    /// The places of the objects of a category, in ascending order.
    pub fn places(&self, category: Category) -> (result: Vec<usize>)
        ensures
            result@.len() == places_upto(
                self.game_objects@,
                self.player_id,
                category,
                self.game_objects.len() as nat,
            ).len(),
            forall|k: int|
                0 <= k < result@.len() ==> (#[trigger] result@[k]) as int == places_upto(
                    self.game_objects@,
                    self.player_id,
                    category,
                    self.game_objects.len() as nat,
                )[k],
            forall|k: int|
                0 <= k < result@.len() ==> (#[trigger] result@[k]) < self.game_objects.len() && admits(
                    self.game_objects[result@[k] as int].object,
                    category,
                    self.player_id,
                ),
    {
        let mut result: Vec<usize> = Vec::new();
        let mut i: usize = 0;
        while i < self.game_objects.len()
            invariant
                i <= self.game_objects.len(),
                result@.len() == places_upto(
                    self.game_objects@,
                    self.player_id,
                    category,
                    i as nat,
                ).len(),
                forall|k: int|
                    0 <= k < result@.len() ==> (#[trigger] result@[k]) as int == places_upto(
                        self.game_objects@,
                        self.player_id,
                        category,
                        i as nat,
                    )[k],
                forall|k: int|
                    0 <= k < result@.len() ==> (#[trigger] result@[k]) < i && admits(
                        self.game_objects[result@[k] as int].object,
                        category,
                        self.player_id,
                    ),
            decreases self.game_objects.len() - i,
        {
            if self.is_of(i, category) {
                result.push(i);
            }
            i += 1;
        }
        result
    }

    /// The acting player's star bases, in ascending order of identifier.
    pub fn my_star_bases(&self) -> (result: Vec<(GameObjectId, StarBase)>)
        ensures
            result@ == places_upto(
                self.game_objects@,
                self.player_id,
                Category::MyStarBase,
                self.game_objects.len() as nat,
            ).map_values(
                |i: int| (self.game_objects[i].id, self.game_objects[i].object->StarBase_0),
            ),
    {
        let places: Vec<usize> = self.places(Category::MyStarBase);
        let ghost listed = places_upto(
            self.game_objects@,
            self.player_id,
            Category::MyStarBase,
            self.game_objects.len() as nat,
        );
        let ghost pick = |i: int| (self.game_objects[i].id, self.game_objects[i].object->StarBase_0);
        let mut result: Vec<(GameObjectId, StarBase)> = Vec::new();
        let mut k: usize = 0;
        while k < places.len()
            invariant
                k <= places.len(),
                places@.len() == listed.len(),
                forall|j: int| 0 <= j < places@.len() ==> (#[trigger] places@[j]) as int == listed[j],
                forall|j: int|
                    0 <= j < places@.len() ==> (#[trigger] places@[j]) < self.game_objects.len()
                        && admits(
                        self.game_objects[places@[j] as int].object,
                        Category::MyStarBase,
                        self.player_id,
                    ),
                pick == |i: int| (self.game_objects[i].id, self.game_objects[i].object->StarBase_0),
                result@ =~= listed.map_values(pick).take(k as int),
            decreases places.len() - k,
        {
            let i: usize = places[k];
            match &self.game_objects[i].object {
                GameObject::StarBase(star_base) => {
                    result.push((self.game_objects[i].id, *star_base));
                },
                _ => {
                    assert(false);
                },
            }
            assert(listed.map_values(pick)[k as int] == pick(listed[k as int]));
            k += 1;
        }
        assert(listed.map_values(pick).take(k as int) =~= listed.map_values(pick));
        result
    }

    /// The acting player's spacecraft, in ascending order of identifier.
    pub fn my_spacecrafts(&self) -> (result: Vec<(GameObjectId, &Spacecraft)>)
        ensures
            result@.len() == places_upto(
                self.game_objects@,
                self.player_id,
                Category::MySpacecraft,
                self.game_objects.len() as nat,
            ).len(),
            forall|k: int|
                0 <= k < result@.len() ==> {
                    let i = places_upto(
                        self.game_objects@,
                        self.player_id,
                        Category::MySpacecraft,
                        self.game_objects.len() as nat,
                    )[k];
                    &&& (#[trigger] result@[k]).0 == self.game_objects[i].id
                    &&& *result@[k].1 == self.game_objects[i].object->Spacecraft_0
                },
    {
        let places: Vec<usize> = self.places(Category::MySpacecraft);
        let ghost listed = places_upto(
            self.game_objects@,
            self.player_id,
            Category::MySpacecraft,
            self.game_objects.len() as nat,
        );
        let mut result: Vec<(GameObjectId, &Spacecraft)> = Vec::new();
        let mut k: usize = 0;
        while k < places.len()
            invariant
                k <= places.len(),
                places@.len() == listed.len(),
                forall|j: int| 0 <= j < places@.len() ==> (#[trigger] places@[j]) as int == listed[j],
                forall|j: int|
                    0 <= j < places@.len() ==> (#[trigger] places@[j]) < self.game_objects.len()
                        && admits(
                        self.game_objects[places@[j] as int].object,
                        Category::MySpacecraft,
                        self.player_id,
                    ),
                result@.len() == k,
                forall|j: int|
                    0 <= j < k ==> (#[trigger] result@[j]).0 == self.game_objects[listed[j]].id
                        && *result@[j].1 == self.game_objects[listed[j]].object->Spacecraft_0,
            decreases places.len() - k,
        {
            let i: usize = places[k];
            match &self.game_objects[i].object {
                GameObject::Spacecraft(spacecraft) => {
                    result.push((self.game_objects[i].id, spacecraft));
                },
                _ => {
                    assert(false);
                },
            }
            k += 1;
        }
        result
    }

    /// The star base closest to `position`, by exact distance.
    pub fn closest_star_base(&self, position: &Vec2) -> (result: Option<(GameObjectId, StarBase)>)
        requires
            self.wf(),
            position.within(LIMIT as int),
        ensures
            result == match self.closest_spec(Category::StarBase, *position, Ranking::Exact) {
                Some(i) => Some((self.game_objects[i].id, self.game_objects[i].object->StarBase_0)),
                None => None,
            },
    {
        let place: Option<usize> = self.closest(Category::StarBase, position, Ranking::Exact);
        self.star_base_at(place)
    }

    /// The asteroid closest to `position`, by exact distance.
    pub fn closest_asteroid(&self, position: &Vec2) -> (result: Option<(GameObjectId, Asteroid)>)
        requires
            self.wf(),
            position.within(LIMIT as int),
        ensures
            result == match self.closest_spec(Category::Asteroid, *position, Ranking::Exact) {
                Some(i) => Some((self.game_objects[i].id, self.game_objects[i].object->Asteroid_0)),
                None => None,
            },
    {
        match self.closest(Category::Asteroid, position, Ranking::Exact) {
            Some(i) => match &self.game_objects[i].object {
                GameObject::Asteroid(asteroid) => Some((self.game_objects[i].id, *asteroid)),
                _ => None,
            },
            None => None,
        }
    }

    /// The spacecraft of another player closest to `position`, by
    /// exact distance.
    pub fn closest_enemy_spacecraft(&self, position: &Vec2) -> (result: Option<
        (GameObjectId, &Spacecraft),
    >)
        requires
            self.wf(),
            position.within(LIMIT as int),
        ensures
            match self.closest_spec(Category::EnemySpacecraft, *position, Ranking::Exact) {
                Some(i) => result matches Some(found) && found.0 == self.game_objects[i].id
                    && *found.1 == self.game_objects[i].object->Spacecraft_0,
                None => result.is_none(),
            },
    {
        match self.closest(Category::EnemySpacecraft, position, Ranking::Exact) {
            Some(i) => match &self.game_objects[i].object {
                GameObject::Spacecraft(spacecraft) => Some((self.game_objects[i].id, spacecraft)),
                _ => None,
            },
            None => None,
        }
    }

    /// The star base of another player closest to `position`, by exact
    /// distance.
    pub fn closest_enemy_star_base(&self, position: &Vec2) -> (result: Option<
        (GameObjectId, StarBase),
    >)
        requires
            self.wf(),
            position.within(LIMIT as int),
        ensures
            result == match self.closest_spec(
                Category::EnemyStarBase,
                *position,
                Ranking::Exact,
            ) {
                Some(i) => Some((self.game_objects[i].id, self.game_objects[i].object->StarBase_0)),
                None => None,
            },
    {
        let place: Option<usize> = self.closest(
            Category::EnemyStarBase,
            position,
            Ranking::Exact,
        );
        self.star_base_at(place)
    }

    /// The closer of two bodies by truncated distance: the first unless the
    /// second is strictly closer.
    fn nearer(
        position: &Vec2,
        first: Option<(GameObjectId, Body)>,
        second: Option<(GameObjectId, Body)>,
    ) -> (result: Option<(GameObjectId, Body)>)
        requires
            position.within(LIMIT as int),
            first matches Some(a) ==> a.1.wf(),
            second matches Some(b) ==> b.1.wf(),
        ensures
            result == nearer_spec(*position, first, second),
            result matches Some(c) ==> c.1.wf(),
    {
        match (first, second) {
            (None, _) => second,
            (_, None) => first,
            (Some(a), Some(b)) => {
                if rank(position, &b.1, Ranking::Truncated) < rank(position, &a.1, Ranking::Truncated) {
                    second
                } else {
                    first
                }
            },
        }
    }

    /// The closest thing to shoot at from `position`: the closest enemy
    /// spacecraft, the closest asteroid or the closest enemy star base,
    /// whichever is nearest by truncated distance.
    pub fn closest_enemy_target(&self, position: &Vec2) -> (result: Option<(GameObjectId, Body)>)
        requires
            self.wf(),
            position.within(LIMIT as int),
        ensures
            result == self.closest_enemy_target_spec(*position),
            result matches Some(found) ==> found.1.wf(),
    {
        let spacecraft: Option<(GameObjectId, Body)> = self.body_at(
            self.closest(Category::EnemySpacecraft, position, Ranking::Truncated),
        );
        let asteroid: Option<(GameObjectId, Body)> = self.body_at(
            self.closest(Category::Asteroid, position, Ranking::Truncated),
        );
        let star_base: Option<(GameObjectId, Body)> = self.body_at(
            self.closest(Category::EnemyStarBase, position, Ranking::Truncated),
        );
        proof {
            assert forall|i: int| 0 <= i < self.game_objects.len() implies (
            #[trigger] self.game_objects[i]).object.body_spec().wf() by {
                assert(self.game_objects[i].object.wf());
            }
        }
        Self::nearer(position, Self::nearer(position, spacecraft, asteroid), star_base)
    }

    /// Records the host's verdict on one command: an accepted command joins
    /// the log for the peer, a rejected one is dropped.
    pub fn execute_cmd(&mut self, cmd: Command, accepted: bool)
        ensures
            final(self).network_game_cmds@ == if accepted {
                old(self).network_game_cmds@.push(cmd)
            } else {
                old(self).network_game_cmds@
            },
            final(self).game_objects == old(self).game_objects,
            final(self).player_id == old(self).player_id,
            final(self).player == old(self).player,
    {
        record(&mut self.network_game_cmds, Outcome { command: cmd, accepted });
    }

    /// Records the host's verdicts on a batch of commands, in order. A
    /// rejected command does not stop those after it.
    pub fn execute_cmds(&mut self, outcomes: Vec<Outcome<Command>>)
        ensures
            final(self).network_game_cmds@ == old(self).network_game_cmds@ + accepted_spec(outcomes@),
            final(self).game_objects == old(self).game_objects,
            final(self).player_id == old(self).player_id,
            final(self).player == old(self).player,
    {
        record_all(&mut self.network_game_cmds, outcomes);
    }
}

} // verus!
