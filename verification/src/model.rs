//! The snapshot of a craft that the controllers read, and the commands they
//! emit.

use vstd::prelude::*;
use crate::numeric::{abs, LIMIT, SCALE};
use crate::vec2::Vec2;

verus! {

/// Identifier of a world object, assigned by the host.
pub type GameObjectId = u64;

/// Identifier of a component within its craft.
pub type ComponentId = u64;

/// Identifier of a player.
pub type PlayerId = u64;

/// Most thrust that the engines of one craft may have together: as much
/// as still leaves the velocity that the craft makes for at full thrust
/// within the reach of the vector arithmetic.
pub const MAX_THRUST: i64 = 399_900_000_000;

/// Whether a scalar of the model is within the accepted magnitude.
pub open spec fn bounded(x: int) -> bool {
    abs(x) <= LIMIT
}

/// Whether a scalar of the model is within the accepted magnitude.
pub fn is_bounded(x: i64) -> (b: bool)
    ensures
        b == bounded(x as int),
{
    -LIMIT <= x && x <= LIMIT
}

/// Kinematic state of a world object.
#[derive(Clone, Copy, Debug, PartialEq, Eq, Structural)]
pub struct Body {
    pub position: Vec2,
    pub velocity: Vec2,
    /// Heading angle, in milliradians.
    pub rotation: i64,
    /// In milliradians per second.
    pub angular_velocity: i64,
}

impl Body {
    /// Every quantity is within the accepted magnitude.
    pub open spec fn wf(self) -> bool {
        &&& self.position.within(LIMIT as int)
        &&& self.velocity.within(LIMIT as int)
        &&& bounded(self.rotation as int)
        &&& bounded(self.angular_velocity as int)
    }

    /// Whether every quantity is within the accepted magnitude.
    pub fn valid(&self) -> (b: bool)
        ensures
            b == self.wf(),
    {
        self.position.fits(LIMIT) && self.velocity.fits(LIMIT) && is_bounded(self.rotation)
            && is_bounded(self.angular_velocity)
    }
}

/// A thruster at a fixed place of its craft.
#[derive(Clone, Copy, Debug, PartialEq, Eq, Structural)]
pub struct Engine {
    /// Centre of the engine, in the craft's frame.
    pub position: Vec2,
    /// Unit vector of the mount orientation, in the craft's frame.
    pub direction: Vec2,
    /// Largest force the engine delivers.
    pub thrust: i64,
    pub active: bool,
    /// Throttle, in thousandths of full power.
    pub power: i64,
}

impl Engine {
    pub open spec fn wf(self) -> bool {
        &&& self.position.within(LIMIT as int)
        &&& self.direction.within(SCALE as int)
        &&& self.direction.is_unit_spec()
        &&& 0 <= self.thrust <= LIMIT
        &&& bounded(self.power as int)
    }

    pub fn valid(&self) -> (b: bool)
        ensures
            b == self.wf(),
    {
        self.position.fits(LIMIT) && self.direction.fits(SCALE) && self.direction.is_unit()
            && 0 <= self.thrust && self.thrust <= LIMIT && is_bounded(self.power)
    }
}

/// A gun at a fixed place of its craft.
#[derive(Clone, Copy, Debug, PartialEq, Eq, Structural)]
pub struct Weapon {
    /// Centre of the weapon, in the craft's frame.
    pub position: Vec2,
    /// Angle of the mount in the craft's frame, in milliradians.
    pub orientation: i64,
    pub projectile_speed: i64,
    pub active: bool,
    /// Current aim relative to the mount, in milliradians.
    pub rotation: i64,
}

impl Weapon {
    pub open spec fn wf(self) -> bool {
        &&& self.position.within(LIMIT as int)
        &&& bounded(self.orientation as int)
        &&& 0 <= self.projectile_speed <= LIMIT
        &&& bounded(self.rotation as int)
    }

    pub fn valid(&self) -> (b: bool)
        ensures
            b == self.wf(),
    {
        self.position.fits(LIMIT) && is_bounded(self.orientation) && 0 <= self.projectile_speed
            && self.projectile_speed <= LIMIT && is_bounded(self.rotation)
    }
}

/// What a craft is built of, as far as the controllers act on it.
#[derive(Clone, Copy, Debug, PartialEq, Eq, Structural)]
pub enum Component {
    Engine(Engine),
    Weapon(Weapon),
}

impl Component {
    pub open spec fn wf(self) -> bool {
        match self {
            Component::Engine(engine) => engine.wf(),
            Component::Weapon(weapon) => weapon.wf(),
        }
    }

    pub fn valid(&self) -> (b: bool)
        ensures
            b == self.wf(),
    {
        match self {
            Component::Engine(engine) => engine.valid(),
            Component::Weapon(weapon) => weapon.valid(),
        }
    }
}

/// A component under the identifier by which commands address it.
#[derive(Clone, Copy, Debug, PartialEq, Eq, Structural)]
pub struct Mount {
    pub id: ComponentId,
    pub component: Component,
}

/// A player-owned craft.
#[derive(Clone, Debug, PartialEq, Eq)]
pub struct Spacecraft {
    pub owner: PlayerId,
    pub body: Body,
    /// Unit vector of `body.rotation`.
    pub heading: Vec2,
    pub mass: i64,
    /// In the craft's frame.
    pub center_of_mass: Vec2,
    /// In ascending order of identifier.
    pub components: Vec<Mount>,
    pub tags: Vec<String>,
}

/// The identifiers ascend strictly, so none occurs twice.
pub open spec fn ascending(mounts: Seq<Mount>) -> bool {
    forall|i: int, j: int| 0 <= i < j < mounts.len() ==> mounts[i].id < mounts[j].id
}

/// The thrust of one component: that of an engine, none of a weapon.
pub open spec fn mount_thrust(mount: Mount) -> int {
    match mount.component {
        Component::Engine(engine) => engine.thrust as int,
        Component::Weapon(_) => 0,
    }
}

/// The thrust of all engines together.
pub open spec fn total_thrust(mounts: Seq<Mount>) -> int
    decreases mounts.len(),
{
    if mounts.len() == 0 {
        0
    } else {
        total_thrust(mounts.drop_last()) + mount_thrust(mounts.last())
    }
}

/// The thrust of the first components is no more than that of all.
pub proof fn lemma_thrust_grows(mounts: Seq<Mount>, upto: int)
    requires
        0 <= upto <= mounts.len(),
        forall|i: int| 0 <= i < mounts.len() ==> (#[trigger] mounts[i]).component.wf(),
    ensures
        0 <= total_thrust(mounts.take(upto)) <= total_thrust(mounts),
    decreases mounts.len() - upto,
{
    if upto == mounts.len() {
        assert(mounts.take(upto) =~= mounts);
        lemma_thrust_positive(mounts);
    } else {
        let next = mounts.take(upto + 1);
        assert(next.drop_last() =~= mounts.take(upto));
        assert(next.last() == mounts[upto]);
        assert(mounts[upto].component.wf());
        lemma_thrust_grows(mounts, upto + 1);
        assert forall|i: int| 0 <= i < mounts.take(upto).len() implies (#[trigger] mounts.take(
            upto,
        )[i]).component.wf() by {
            assert(mounts.take(upto)[i] == mounts[i]);
        }
        lemma_thrust_positive(mounts.take(upto));
    }
}

/// Thrust is never negative.
pub proof fn lemma_thrust_positive(mounts: Seq<Mount>)
    requires
        forall|i: int| 0 <= i < mounts.len() ==> (#[trigger] mounts[i]).component.wf(),
    ensures
        0 <= total_thrust(mounts),
    decreases mounts.len(),
{
    if mounts.len() > 0 {
        assert forall|i: int| 0 <= i < mounts.drop_last().len() implies (
        #[trigger] mounts.drop_last()[i]).component.wf() by {
            assert(mounts.drop_last()[i] == mounts[i]);
        }
        lemma_thrust_positive(mounts.drop_last());
        assert(mounts.last() == mounts[mounts.len() - 1]);
        assert(mounts[mounts.len() - 1].component.wf());
    }
}

impl Spacecraft {
    /// Every quantity is within the accepted magnitude, the heading and
    /// the direction of each engine are unit vectors, the engines together
    /// have no more than the accepted thrust, and the components are listed
    /// once each in ascending order of identifier.
    pub open spec fn wf(self) -> bool {
        &&& self.body.wf()
        &&& self.heading.within(SCALE as int)
        &&& self.heading.is_unit_spec()
        &&& 0 <= self.mass <= LIMIT
        &&& self.center_of_mass.within(LIMIT as int)
        &&& forall|i: int| 0 <= i < self.components.len() ==> (#[trigger] self.components[i]).component.wf()
        &&& ascending(self.components@)
        &&& total_thrust(self.components@) <= MAX_THRUST
    }

    /// Whether the craft is well-formed.
    pub fn valid(&self) -> (b: bool)
        ensures
            b == self.wf(),
    {
        if !(self.body.valid() && self.heading.fits(SCALE) && self.heading.is_unit() && 0
            <= self.mass && self.mass <= LIMIT && self.center_of_mass.fits(LIMIT)) {
            return false;
        }
        let mut i: usize = 0;
        while i < self.components.len()
            invariant
                i <= self.components.len(),
                forall|k: int| 0 <= k < i ==> (#[trigger] self.components[k]).component.wf(),
                forall|k: int, l: int| 0 <= k < l < i ==> self.components[k].id < self.components[l].id,
            decreases self.components.len() - i,
        {
            if !self.components[i].component.valid() {
                return false;
            }
            if i > 0 && self.components[i - 1].id >= self.components[i].id {
                return false;
            }
            proof {
                assert forall|k: int, l: int| 0 <= k < l < i + 1 implies self.components[k].id
                    < self.components[l].id by {
                    if l == i && k < i - 1 {
                        assert(self.components[k].id < self.components[i - 1].id);
                    }
                }
            }
            i += 1;
        }
        let mut thrust: i64 = 0;
        let mut j: usize = 0;
        assert(self.components@.take(0) =~= Seq::<Mount>::empty());
        while j < self.components.len()
            invariant
                j <= self.components.len(),
                forall|k: int|
                    0 <= k < self.components.len() ==> (#[trigger] self.components[k]).component.wf(),
                thrust == total_thrust(self.components@.take(j as int)),
                0 <= thrust <= MAX_THRUST,
            decreases self.components.len() - j,
        {
            proof {
                let next = self.components@.take(j + 1);
                assert(next.drop_last() =~= self.components@.take(j as int));
                assert(next.last() == self.components@[j as int]);
                assert(self.components[j as int].component.wf());
            }
            let more: i64 = match self.components[j].component {
                Component::Engine(engine) => engine.thrust,
                Component::Weapon(_) => 0,
            };
            if more > MAX_THRUST - thrust {
                proof {
                    lemma_thrust_grows(self.components@, j + 1);
                }
                return false;
            }
            thrust = thrust + more;
            j += 1;
        }
        assert(self.components@.take(j as int) =~= self.components@);
        true
    }
}

/// What a command sets on the component it addresses. Each sets an absolute
/// state, so repeating one changes nothing.
#[derive(Clone, Copy, Debug, PartialEq, Eq, Structural)]
pub enum ComponentCmd {
    SetActive(bool),
    /// In thousandths of full power.
    SetPower(i64),
    /// In milliradians, relative to the mount.
    SetRotation(i64),
}

/// An instruction to one component of one craft.
#[derive(Clone, Copy, Debug, PartialEq, Eq, Structural)]
pub struct Command {
    pub spacecraft: GameObjectId,
    pub component: ComponentId,
    pub action: ComponentCmd,
}

/// The component after the host has carried out `action` on it. Power is for
/// engines and rotation for weapons; what does not apply leaves the
/// component as it is.
pub open spec fn acted(component: Component, action: ComponentCmd) -> Component {
    match (component, action) {
        (Component::Engine(engine), ComponentCmd::SetActive(on)) => Component::Engine(
            Engine { active: on, ..engine },
        ),
        (Component::Weapon(weapon), ComponentCmd::SetActive(on)) => Component::Weapon(
            Weapon { active: on, ..weapon },
        ),
        (Component::Engine(engine), ComponentCmd::SetPower(power)) => Component::Engine(
            Engine { power, ..engine },
        ),
        (Component::Weapon(weapon), ComponentCmd::SetRotation(rotation)) => Component::Weapon(
            Weapon { rotation, ..weapon },
        ),
        _ => component,
    }
}

/// The component after the host has carried out those of `commands` that
/// are addressed to it, in order.
pub open spec fn mount_after(id: GameObjectId, mount: Mount, commands: Seq<Command>) -> Mount
    decreases commands.len(),
{
    if commands.len() == 0 {
        mount
    } else if commands[0].spacecraft == id && commands[0].component == mount.id {
        mount_after(
            id,
            Mount { id: mount.id, component: acted(mount.component, commands[0].action) },
            commands.drop_first(),
        )
    } else {
        mount_after(id, mount, commands.drop_first())
    }
}

/// Whether `after` is the craft `before` once the host has carried out
/// `commands`: each component has taken the commands addressed to it, and
/// nothing else has changed.
pub open spec fn carried_out(
    id: GameObjectId,
    before: Spacecraft,
    commands: Seq<Command>,
    after: Spacecraft,
) -> bool {
    &&& after.owner == before.owner
    &&& after.body == before.body
    &&& after.heading == before.heading
    &&& after.mass == before.mass
    &&& after.center_of_mass == before.center_of_mass
    &&& after.components.len() == before.components.len()
    &&& forall|i: int|
        0 <= i < before.components.len() ==> #[trigger] after.components[i] == mount_after(
            id,
            before.components[i],
            commands,
        )
}

/// Commands carried out one list after the other are carried out as one
/// list.
pub proof fn lemma_after_concat(id: GameObjectId, mount: Mount, first: Seq<Command>, second: Seq<Command>)
    ensures
        mount_after(id, mount, first + second) == mount_after(
            id,
            mount_after(id, mount, first),
            second,
        ),
        mount_after(id, mount, first).id == mount.id,
    decreases first.len(),
{
    if first.len() == 0 {
        assert(first + second =~= second);
    } else {
        let next = if first[0].spacecraft == id && first[0].component == mount.id {
            Mount { id: mount.id, component: acted(mount.component, first[0].action) }
        } else {
            mount
        };
        assert((first + second).drop_first() =~= first.drop_first() + second);
        lemma_after_concat(id, next, first.drop_first(), second);
    }
}

/// Commands addressed to others leave a component as it is.
pub proof fn lemma_after_others(id: GameObjectId, mount: Mount, commands: Seq<Command>)
    requires
        forall|k: int|
            0 <= k < commands.len() ==> !((#[trigger] commands[k]).spacecraft == id
                && commands[k].component == mount.id),
    ensures
        mount_after(id, mount, commands) == mount,
    decreases commands.len(),
{
    if commands.len() > 0 {
        assert forall|k: int| 0 <= k < commands.drop_first().len() implies !((
        #[trigger] commands.drop_first()[k]).spacecraft == id && commands.drop_first()[k].component
            == mount.id) by {
            assert(commands.drop_first()[k] == commands[k + 1]);
        }
        lemma_after_others(id, mount, commands.drop_first());
    }
}

} // verus!
