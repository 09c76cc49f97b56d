//! Shipyard decisions: which finished craft to deploy and where to build
//! the next.

use vstd::prelude::*;
use crate::commands::{assemble, lemma_assemble_none, lemma_assemble_step};
use crate::control::selected;
use crate::game_data::{Entry, GameData, GameObject};
use crate::model::{GameObjectId, PlayerId};

verus! {

/// What a cell of a structure holds.
#[derive(Clone, Copy, Debug, PartialEq, Eq, Structural)]
pub enum ComponentType {
    Central,
    SteelBlock,
    RaptorEngine,
    LaserWeapon,
}

/// Which way a component of a structure faces.
#[derive(Clone, Copy, Debug, PartialEq, Eq, Structural)]
pub enum Orientation {
    Up,
    Right,
    Down,
    Left,
}

/// A cell of the grid on which structures are laid out.
#[derive(Clone, Copy, Debug, PartialEq, Eq, Structural)]
pub struct IVec2 {
    pub x: i32,
    pub y: i32,
}

/// The cell at `x`, `y`.
pub fn ivec2(x: i32, y: i32) -> (cell: IVec2)
    ensures
        cell == (IVec2 { x, y }),
{
    IVec2 { x, y }
}

/// A component to be built at a cell.
#[derive(Clone, Copy, Debug, PartialEq, Eq, Structural)]
pub struct ComponentPlaceholder {
    pub component_type: ComponentType,
    pub position: IVec2,
    pub orientation: Orientation,
}

impl ComponentPlaceholder {
    pub fn new(component_type: ComponentType, position: IVec2, orientation: Orientation) -> (placeholder:
        Self)
        ensures
            placeholder == (ComponentPlaceholder { component_type, position, orientation }),
    {
        ComponentPlaceholder { component_type, position, orientation }
    }
}

/// The plan of a craft: its components and the tags it will carry.
#[derive(Clone, Debug, PartialEq, Eq)]
pub struct SpacecraftStructure {
    pub component_placeholders: Vec<ComponentPlaceholder>,
    pub tags: Vec<String>,
}

/// One component of the asteroid miner.
pub open spec fn miner_part(component_type: ComponentType, x: int, y: int) -> ComponentPlaceholder {
    ComponentPlaceholder {
        component_type,
        position: IVec2 { x: x as i32, y: y as i32 },
        orientation: Orientation::Up,
    }
}

/// The components of the asteroid miner: a core with a steel block and a
/// laser on each side, and two engines astern.
pub open spec fn asteroid_miner_parts() -> Seq<ComponentPlaceholder> {
    seq![
        miner_part(ComponentType::Central, 0, 0),
        miner_part(ComponentType::SteelBlock, 0, 1),
        miner_part(ComponentType::SteelBlock, 0, -1),
        miner_part(ComponentType::SteelBlock, 1, 0),
        miner_part(ComponentType::SteelBlock, -1, 0),
        miner_part(ComponentType::RaptorEngine, -1, -2),
        miner_part(ComponentType::RaptorEngine, 1, -2),
        miner_part(ComponentType::LaserWeapon, 0, 1),
        miner_part(ComponentType::LaserWeapon, 0, -1),
        miner_part(ComponentType::LaserWeapon, 1, 0),
        miner_part(ComponentType::LaserWeapon, -1, 0),
    ]
}

/// The plan of the asteroid miner, tagged `asteroid_miner`.
pub fn asteroid_miner() -> (structure: SpacecraftStructure)
    ensures
        structure.component_placeholders@ == asteroid_miner_parts(),
        structure.tags@.len() == 1,
        structure.tags@[0]@ == "asteroid_miner"@,
{
    let mut parts: Vec<ComponentPlaceholder> = Vec::new();
    parts.push(ComponentPlaceholder::new(ComponentType::Central, ivec2(0, 0), Orientation::Up));
    parts.push(ComponentPlaceholder::new(ComponentType::SteelBlock, ivec2(0, 1), Orientation::Up));
    parts.push(ComponentPlaceholder::new(ComponentType::SteelBlock, ivec2(0, -1), Orientation::Up));
    parts.push(ComponentPlaceholder::new(ComponentType::SteelBlock, ivec2(1, 0), Orientation::Up));
    parts.push(ComponentPlaceholder::new(ComponentType::SteelBlock, ivec2(-1, 0), Orientation::Up));
    parts.push(ComponentPlaceholder::new(ComponentType::RaptorEngine, ivec2(-1, -2), Orientation::Up));
    parts.push(ComponentPlaceholder::new(ComponentType::RaptorEngine, ivec2(1, -2), Orientation::Up));
    parts.push(ComponentPlaceholder::new(ComponentType::LaserWeapon, ivec2(0, 1), Orientation::Up));
    parts.push(ComponentPlaceholder::new(ComponentType::LaserWeapon, ivec2(0, -1), Orientation::Up));
    parts.push(ComponentPlaceholder::new(ComponentType::LaserWeapon, ivec2(1, 0), Orientation::Up));
    parts.push(ComponentPlaceholder::new(ComponentType::LaserWeapon, ivec2(-1, 0), Orientation::Up));
    assert(parts@ =~= asteroid_miner_parts());
    let mut tags: Vec<String> = Vec::new();
    tags.push("asteroid_miner".to_owned());
    SpacecraftStructure { component_placeholders: parts, tags }
}

/// A hangar of a star base, by the base and its place there.
#[derive(Clone, Copy, Debug, PartialEq, Eq, Structural)]
pub struct Berth {
    pub star_base: GameObjectId,
    pub index: usize,
}

/// What a shipyard decision reads of a hangar.
#[derive(Clone, Debug, PartialEq, Eq)]
pub struct Hangar {
    pub berth: Berth,
    /// Whether the craft at the head of the queue is ready to leave.
    pub build_finished: bool,
    /// Build time still ahead of the hangar, in thousandths of a second.
    pub remaining_time: i64,
    /// The tags of each structure in the queue.
    pub queue: Vec<Vec<String>>,
}

/// The berths of the hangars, among the first `upto`, whose craft is
/// ready to leave.
pub open spec fn finished_upto(hangars: Seq<Hangar>, upto: nat) -> Seq<Berth>
    decreases upto,
{
    if upto == 0 {
        Seq::empty()
    } else if hangars[upto - 1].build_finished {
        finished_upto(hangars, (upto - 1) as nat).push(hangars[upto - 1].berth)
    } else {
        finished_upto(hangars, (upto - 1) as nat)
    }
}

/// The berths of the hangars, among the first `upto`, that build nothing.
pub open spec fn idle_upto(hangars: Seq<Hangar>, upto: nat) -> Seq<Berth>
    decreases upto,
{
    if upto == 0 {
        Seq::empty()
    } else if hangars[upto - 1].queue.len() == 0 {
        idle_upto(hangars, (upto - 1) as nat).push(hangars[upto - 1].berth)
    } else {
        idle_upto(hangars, (upto - 1) as nat)
    }
}

/// The place of the hangar, among the first `upto`, with the least build
/// time ahead of it: of several alike, the first.
pub open spec fn least_busy_upto(hangars: Seq<Hangar>, upto: nat) -> Option<int>
    decreases upto,
{
    if upto == 0 {
        None
    } else {
        match least_busy_upto(hangars, (upto - 1) as nat) {
            None => Some(upto - 1),
            Some(best) => if hangars[upto - 1].remaining_time < hangars[best].remaining_time {
                Some(upto - 1)
            } else {
                Some(best)
            },
        }
    }
}

/// The berth of the hangar with the least build time ahead of it.
pub open spec fn least_busy_spec(hangars: Seq<Hangar>) -> Option<Berth> {
    match least_busy_upto(hangars, hangars.len()) {
        Some(i) => Some(hangars[i].berth),
        None => None,
    }
}

/// The berths whose craft is ready to leave, in the order of the hangars.
pub fn finished_berths(hangars: &Vec<Hangar>) -> (berths: Vec<Berth>)
    ensures
        berths@ == finished_upto(hangars@, hangars.len() as nat),
{
    let mut berths: Vec<Berth> = Vec::new();
    let mut i: usize = 0;
    while i < hangars.len()
        invariant
            i <= hangars.len(),
            berths@ == finished_upto(hangars@, i as nat),
        decreases hangars.len() - i,
    {
        if hangars[i].build_finished {
            berths.push(hangars[i].berth);
        }
        i += 1;
    }
    berths
}

/// The berth of the hangar with the least build time ahead of it.
pub fn least_busy(hangars: &Vec<Hangar>) -> (berth: Option<Berth>)
    ensures
        berth == least_busy_spec(hangars@),
{
    if hangars.len() == 0 {
        return None;
    }
    let mut best: usize = 0;
    let mut i: usize = 1;
    assert(least_busy_upto(hangars@, 0) == None::<int>);
    assert(least_busy_upto(hangars@, 1) == Some(0int));
    while i < hangars.len()
        invariant
            1 <= i <= hangars.len(),
            best < i,
            least_busy_upto(hangars@, i as nat) == Some(best as int),
        decreases hangars.len() - i,
    {
        if hangars[i].remaining_time < hangars[best].remaining_time {
            best = i;
        }
        i += 1;
    }
    Some(hangars[best].berth)
}

/// What the shipyard is to do this tick.
#[derive(Debug, PartialEq, Eq)]
pub struct ConstructionPlan {
    /// The berths to deploy from.
    pub deploy: Vec<Berth>,
    /// The structures to build, in the order in which they were asked for.
    pub build: Vec<SpacecraftStructure>,
    /// The berth to build them in.
    pub build_at: Option<Berth>,
}

/// A shipyard that builds what it is asked for.
#[derive(Debug, PartialEq, Eq)]
pub struct SpacecraftConstruction {
    /// Whether finished craft leave their hangar by themselves.
    pub auto_deploy: bool,
    /// The structures asked for and not yet handed to a hangar.
    pub build_queue: Vec<SpacecraftStructure>,
}

impl SpacecraftConstruction {
    /// A shipyard that deploys by itself and has nothing to build.
    pub fn new() -> (yard: Self)
        ensures
            yard.auto_deploy,
            yard.build_queue@ == Seq::<SpacecraftStructure>::empty(),
    {
        Self { auto_deploy: true, build_queue: Vec::new() }
    }

    /// Asks for one more craft of a structure.
    pub fn enqueue(&mut self, structure: SpacecraftStructure)
        ensures
            final(self).build_queue@ == old(self).build_queue@.push(structure),
            final(self).auto_deploy == old(self).auto_deploy,
    {
        self.build_queue.push(structure);
    }

    /// One tick of the shipyard. Every finished craft is deployed, where
    /// the yard deploys by itself. Everything asked for is handed to the
    /// hangar with the least build time ahead of it; without a hangar it is
    /// dropped. Either way nothing stays in the queue.
    pub fn update(&mut self, hangars: &Vec<Hangar>) -> (plan: ConstructionPlan)
        ensures
            plan.deploy@ == if old(self).auto_deploy {
                finished_upto(hangars@, hangars.len() as nat)
            } else {
                Seq::empty()
            },
            plan.build_at == least_busy_spec(hangars@),
            plan.build@ == if plan.build_at is Some {
                old(self).build_queue@
            } else {
                Seq::empty()
            },
            final(self).build_queue@ == Seq::<SpacecraftStructure>::empty(),
            final(self).auto_deploy == old(self).auto_deploy,
    {
        let deploy: Vec<Berth> = if self.auto_deploy {
            finished_berths(hangars)
        } else {
            Vec::new()
        };
        let mut queue: Vec<SpacecraftStructure> = Vec::new();
        core::mem::swap(&mut self.build_queue, &mut queue);
        let build_at: Option<Berth> = least_busy(hangars);
        let build: Vec<SpacecraftStructure> = if build_at.is_some() {
            queue
        } else {
            Vec::new()
        };
        ConstructionPlan { deploy, build, build_at }
    }
}

/// Whether a list of tags holds `tag`.
pub open spec fn carries(tags: Seq<String>, tag: Seq<char>) -> bool {
    exists|i: int| 0 <= i < tags.len() && tag == (#[trigger] tags[i])@
}

/// Whether an object is a spacecraft of `player_id` that carries `tag`.
pub open spec fn in_fleet(object: GameObject, player_id: PlayerId, tag: Seq<char>) -> bool {
    object matches GameObject::Spacecraft(spacecraft) && spacecraft.owner == player_id && carries(
        spacecraft.tags@,
        tag,
    )
}

/// How many of the first `upto` objects are spacecraft of `player_id` that
/// carry `tag`.
pub open spec fn fleet_upto(objects: Seq<Entry>, player_id: PlayerId, tag: Seq<char>, upto: nat) -> nat
    decreases upto,
{
    if upto == 0 {
        0
    } else {
        fleet_upto(objects, player_id, tag, (upto - 1) as nat) + if in_fleet(
            objects[upto - 1].object,
            player_id,
            tag,
        ) {
            1nat
        } else {
            0nat
        }
    }
}

/// How many spacecraft of the acting player carry `tag`.
pub fn fleet_size(game_data: &GameData, tag: &String) -> (fleet: usize)
    ensures
        fleet == fleet_upto(
            game_data.game_objects@,
            game_data.player_id,
            tag@,
            game_data.game_objects.len() as nat,
        ),
{
    let mut fleet: usize = 0;
    let mut i: usize = 0;
    while i < game_data.game_objects.len()
        invariant
            i <= game_data.game_objects.len(),
            fleet <= i,
            fleet == fleet_upto(game_data.game_objects@, game_data.player_id, tag@, i as nat),
        decreases game_data.game_objects.len() - i,
    {
        match &game_data.game_objects[i].object {
            GameObject::Spacecraft(spacecraft) => {
                if spacecraft.owner == game_data.player_id && selected(tag, &spacecraft.tags) {
                    fleet += 1;
                }
            },
            _ => {},
        }
        i += 1;
    }
    fleet
}

/// How many of the queued structures carry `tag`.
pub open spec fn tagged_count(queue: Seq<Vec<String>>, tag: Seq<char>) -> nat
    decreases queue.len(),
{
    if queue.len() == 0 {
        0
    } else {
        tagged_count(queue.drop_last(), tag) + if carries(queue.last()@, tag) {
            1nat
        } else {
            0nat
        }
    }
}

/// How many structures that carry `tag` are queued in the first `upto`
/// hangars.
pub open spec fn tagged_upto(hangars: Seq<Hangar>, tag: Seq<char>, upto: nat) -> nat
    decreases upto,
{
    if upto == 0 {
        0
    } else {
        tagged_upto(hangars, tag, (upto - 1) as nat) + tagged_count(hangars[upto - 1].queue@, tag)
    }
}

/// What is left of a budget after `spent` has been taken from it, and
/// nothing where more was asked than it held.
pub open spec fn left(budget: nat, spent: nat) -> nat {
    if spent >= budget {
        0
    } else {
        (budget - spent) as nat
    }
}

/// The smaller of two numbers.
pub open spec fn least(a: nat, b: nat) -> nat {
    if a <= b {
        a
    } else {
        b
    }
}

/// The deployments from one hangar: where its craft is ready to leave, one
/// for each queued structure that carries the tag and still finds room in
/// the budget.
pub open spec fn deploy_block(hangars: Seq<Hangar>, tag: Seq<char>, budget: nat, place: int) -> Seq<
    Berth,
> {
    if hangars[place].build_finished {
        Seq::new(
            least(
                left(budget, tagged_upto(hangars, tag, place as nat)),
                tagged_count(hangars[place].queue@, tag),
            ),
            |k: int| hangars[place].berth,
        )
    } else {
        Seq::empty()
    }
}

/// The deployments from each hangar, by its place.
pub open spec fn deploy_blocks(hangars: Seq<Hangar>, tag: Seq<char>, budget: nat) -> spec_fn(
    int,
) -> Seq<Berth> {
    |place: int| deploy_block(hangars, tag, budget, place)
}

/// What a standing order is to do this tick.
#[derive(Debug, PartialEq, Eq)]
pub struct BuildPlan {
    /// The berths to deploy from.
    pub deploy: Vec<Berth>,
    /// The berths to start a build in.
    pub build: Vec<Berth>,
}

/// A standing order: keep building craft of one structure, so many at a
/// time and so many in all.
#[derive(Debug, PartialEq, Eq)]
pub struct BuildSpacecrafts {
    pub structure: SpacecraftStructure,
    /// The tag by which the craft of this order are told apart.
    pub tag: String,
    pub max_parallel: usize,
    pub max_total: Option<usize>,
}

impl BuildSpacecrafts {
    /// A standing order for a structure that the caller has found sound.
    pub fn new(
        structure: SpacecraftStructure,
        tag: String,
        max_parallel: usize,
        max_total: Option<usize>,
    ) -> (order: Self)
        ensures
            order.structure == structure,
            order.tag == tag,
            order.max_parallel == max_parallel,
            order.max_total == max_total,
    {
        Self { structure, tag, max_parallel, max_total }
    }

    /// Whether the fleet has reached the size beyond which nothing is
    /// built.
    pub open spec fn complete(self, fleet: usize) -> bool {
        self.max_total matches Some(most) && fleet >= most
    }

    /// One tick of the order, for a player who has `fleet` craft of the
    /// order's tag and can or cannot pay for one more.
    ///
    /// Nothing is done once the fleet is complete. Else every queued
    /// structure of the tag counts against the number built at a time, and
    /// its hangar deploys for it where its craft is ready to leave. What is
    /// left of that number is started in the hangars that build nothing, in
    /// their order, where the player can pay.
    pub fn update(&self, fleet: usize, hangars: &Vec<Hangar>, affordable: bool) -> (plan: BuildPlan)
        ensures
            plan.deploy@ == if self.complete(fleet) {
                Seq::empty()
            } else {
                assemble(
                    hangars.len() as nat,
                    deploy_blocks(hangars@, self.tag@, self.max_parallel as nat),
                )
            },
            plan.build@ == if self.complete(fleet) || !affordable {
                Seq::empty()
            } else {
                idle_upto(hangars@, hangars.len() as nat).take(
                    least(
                        left(
                            self.max_parallel as nat,
                            tagged_upto(hangars@, self.tag@, hangars.len() as nat),
                        ),
                        idle_upto(hangars@, hangars.len() as nat).len(),
                    ) as int,
                )
            },
    {
        let mut deploy: Vec<Berth> = Vec::new();
        let mut build: Vec<Berth> = Vec::new();
        match self.max_total {
            Some(most) => {
                if fleet >= most {
                    return BuildPlan { deploy, build };
                }
            },
            None => {},
        }
        let ghost blocks = deploy_blocks(hangars@, self.tag@, self.max_parallel as nat);
        let ghost budget = self.max_parallel as nat;
        let mut remaining: usize = self.max_parallel;
        let mut idle: Vec<Berth> = Vec::new();
        let mut i: usize = 0;
        proof {
            lemma_assemble_none(blocks);
        }
        while i < hangars.len()
            invariant
                i <= hangars.len(),
                budget == self.max_parallel as nat,
                blocks == deploy_blocks(hangars@, self.tag@, budget),
                remaining == left(budget, tagged_upto(hangars@, self.tag@, i as nat)),
                deploy@ == assemble(i as nat, blocks),
                idle@ == idle_upto(hangars@, i as nat),
            decreases hangars.len() - i,
        {
            let hangar: &Hangar = &hangars[i];
            let ghost before = deploy@;
            let ghost room = remaining as nat;
            let mut j: usize = 0;
            assert(hangar.queue@.take(0) =~= Seq::<Vec<String>>::empty());
            while j < hangar.queue.len()
                invariant
                    j <= hangar.queue.len(),
                    room == left(budget, tagged_upto(hangars@, self.tag@, i as nat)),
                    remaining == left(room, tagged_count(hangar.queue@.take(j as int), self.tag@)),
                    deploy@ == before + if hangar.build_finished {
                        Seq::new(
                            least(room, tagged_count(hangar.queue@.take(j as int), self.tag@)),
                            |k: int| hangar.berth,
                        )
                    } else {
                        Seq::empty()
                    },
                decreases hangar.queue.len() - j,
            {
                let ghost counted = tagged_count(hangar.queue@.take(j as int), self.tag@);
                proof {
                    let next = hangar.queue@.take(j + 1);
                    assert(next.drop_last() =~= hangar.queue@.take(j as int));
                    assert(next.last() == hangar.queue@[j as int]);
                }
                if selected(&self.tag, &hangar.queue[j]) && remaining > 0 {
                    remaining -= 1;
                    if hangar.build_finished {
                        deploy.push(hangar.berth);
                        assert(deploy@ =~= before + Seq::new(
                            least(room, counted + 1),
                            |k: int| hangar.berth,
                        ));
                    }
                }
                j += 1;
            }
            proof {
                assert(hangar.queue@.take(j as int) =~= hangar.queue@);
                lemma_assemble_step(i as nat, blocks);
            }
            if hangar.queue.len() == 0 {
                idle.push(hangar.berth);
            }
            i += 1;
        }
        if affordable {
            let mut k: usize = 0;
            while k < idle.len() && k < remaining
                invariant
                    k <= idle.len(),
                    k <= remaining,
                    build@ == idle@.take(k as int),
                decreases idle.len() - k,
            {
                build.push(idle[k]);
                assert(build@ =~= idle@.take(k + 1));
                k += 1;
            }
        }
        assert(build@ =~= if !affordable {
            Seq::empty()
        } else {
            idle@.take(least(remaining as nat, idle@.len()) as int)
        });
        BuildPlan { deploy, build }
    }
}

} // verus!
