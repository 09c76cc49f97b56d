//! Weapon control: where to aim so that a projectile fired now meets a
//! moving target, and the commands that aim and arm the weapons.

use vstd::prelude::*;
use vstd::arithmetic::div_mod::lemma_div_multiples_vanish_quotient;
use crate::commands::{
    assemble, lemma_after_assemble, lemma_assemble_all, lemma_assemble_has, lemma_assemble_none,
    lemma_assemble_nothing, lemma_assemble_step, switch, switch_spec,
};
use crate::model::{
    bounded, carried_out, mount_after, Body, Command, Component, ComponentCmd, GameObjectId, Mount,
    Spacecraft, Weapon,
};
use crate::numeric::{
    abs, is_sqrt_floor, isqrt, lemma_mul_bound, lemma_sqrt_floor_exists, lemma_sqrt_floor_square,
    sqrt_floor, LIMIT, SCALE,
};
use crate::vec2::Vec2;

verus! {

/// Largest component of a target's position relative to a weapon.
pub const RANGE: i64 = 800_000_000;

/// Largest component of a target's velocity relative to a weapon.
pub const CLOSING: i64 = 200_000_000;

/// A weapon's aim may be off by this much, in milliradians, before it is
/// set again.
pub const ROTATION_TOLERANCE: i64 = 50;

/// A direction with wide components; its length carries no meaning.
#[derive(Clone, Copy, Debug, PartialEq, Eq, Structural)]
pub struct Aim {
    pub x: i128,
    pub y: i128,
}

/// Where and when a projectile fired now meets its target.
#[derive(Clone, Copy, Debug, PartialEq, Eq, Structural)]
pub struct Intercept {
    /// Time of flight in milliseconds, rounded down.
    pub time: i128,
    /// Direction from the weapon to the meeting point.
    pub aim: Aim,
}

/// Leading coefficient of the intercept equation: the target's relative
/// speed squared less the projectile's speed squared.
pub open spec fn lead_a(relative_vel: Vec2, speed: int) -> int {
    relative_vel.length_squared_spec() - speed * speed
}

/// Middle coefficient of the intercept equation.
pub open spec fn lead_b(relative_pos: Vec2, relative_vel: Vec2) -> int {
    2 * relative_pos.dot_spec(relative_vel)
}

/// Constant coefficient of the intercept equation: the distance squared.
pub open spec fn lead_c(relative_pos: Vec2) -> int {
    relative_pos.length_squared_spec()
}

/// Discriminant of the intercept equation.
pub open spec fn discriminant(relative_pos: Vec2, relative_vel: Vec2, speed: int) -> int {
    lead_b(relative_pos, relative_vel) * lead_b(relative_pos, relative_vel) - 4 * lead_a(
        relative_vel,
        speed,
    ) * lead_c(relative_pos)
}

/// The time of flight to the earliest meeting point ahead in time, as a
/// fraction of a positive numerator over a positive denominator, in
/// seconds.
///
/// The time `t` solves `a t^2 + b t + c = 0`. There is none where the
/// discriminant is negative. Of the two roots the smaller is taken where it
/// is positive, else the larger, and there is none where that is not
/// positive either. Where the target's relative speed equals the
/// projectile's the equation is linear and has the one root `-c / b`. The
/// square root of the discriminant is rounded down.
pub open spec fn lead_time_spec(relative_pos: Vec2, relative_vel: Vec2, speed: int) -> Option<
    (int, int),
> {
    let a = lead_a(relative_vel, speed);
    let b = lead_b(relative_pos, relative_vel);
    let c = lead_c(relative_pos);
    let d = discriminant(relative_pos, relative_vel, speed);
    if d < 0 {
        None
    } else if a == 0 {
        if b < 0 && c > 0 {
            Some((c, -b))
        } else {
            None
        }
    } else {
        let root = sqrt_floor(d);
        let middle = if a > 0 {
            -b
        } else {
            b
        };
        let chosen = if middle - root > 0 {
            middle - root
        } else {
            middle + root
        };
        if chosen > 0 {
            Some((chosen, 2 * abs(a)))
        } else {
            None
        }
    }
}

/// The meeting point ahead in time of a projectile of speed `speed` fired
/// now and a target at `relative_pos` moving at `relative_vel`, both
/// relative to the weapon; none where the projectile cannot meet it.
///
/// The aim is the target's position at the time of flight, stretched by the
/// denominator of that time.
pub open spec fn intercept_spec(relative_pos: Vec2, relative_vel: Vec2, speed: int) -> Option<
    Intercept,
> {
    match lead_time_spec(relative_pos, relative_vel, speed) {
        None => None,
        Some((numerator, denominator)) => Some(
            Intercept {
                time: (numerator * SCALE / denominator) as i128,
                aim: Aim {
                    x: (relative_pos.x * denominator + relative_vel.x * numerator) as i128,
                    y: (relative_pos.y * denominator + relative_vel.y * numerator) as i128,
                },
            },
        ),
    }
}

/// The meeting point ahead in time of a projectile fired now and a moving
/// target.
pub fn intercept(relative_pos: Vec2, relative_vel: Vec2, speed: i64) -> (result: Option<Intercept>)
    requires
        relative_pos.within(RANGE as int),
        relative_vel.within(CLOSING as int),
        0 <= speed <= LIMIT,
    ensures
        result == intercept_spec(relative_pos, relative_vel, speed as int),
{
    let px: i128 = relative_pos.x as i128;
    let py: i128 = relative_pos.y as i128;
    let vx: i128 = relative_vel.x as i128;
    let vy: i128 = relative_vel.y as i128;
    proof {
        lemma_mul_bound(vx as int, vx as int, 200_000_000, 200_000_000);
        lemma_mul_bound(vy as int, vy as int, 200_000_000, 200_000_000);
        lemma_mul_bound(px as int, px as int, 800_000_000, 800_000_000);
        lemma_mul_bound(py as int, py as int, 800_000_000, 800_000_000);
        lemma_mul_bound(px as int, vx as int, 800_000_000, 200_000_000);
        lemma_mul_bound(py as int, vy as int, 800_000_000, 200_000_000);
        lemma_mul_bound(speed as int, speed as int, 100_000_000, 100_000_000);
        assert(vx * vx >= 0 && vy * vy >= 0 && px * px >= 0 && py * py >= 0 && speed * speed >= 0)
            by (nonlinear_arith);
    }
    let a: i128 = relative_vel.length_squared() - (speed as i128) * (speed as i128);
    let b: i128 = 2 * relative_pos.dot(relative_vel);
    let c: i128 = relative_pos.length_squared();
    assert(abs(a as int) <= 80_000_000_000_000_000);
    assert(abs(b as int) <= 640_000_000_000_000_000);
    assert(0 <= c <= 1_280_000_000_000_000_000);
    proof {
        lemma_mul_bound(b as int, b as int, 640_000_000_000_000_000, 640_000_000_000_000_000);
        lemma_mul_bound(
            a as int,
            c as int,
            80_000_000_000_000_000,
            1_280_000_000_000_000_000,
        );
    }
    let d: i128 = b * b - 4 * (a * c);
    assert(d == discriminant(relative_pos, relative_vel, speed as int)) by (nonlinear_arith)
        requires
            d == b * b - 4 * (a * c),
            discriminant(relative_pos, relative_vel, speed as int) == b * b - 4 * a * c,
    ;
    if d < 0 {
        return None;
    }
    let numerator: i128;
    let denominator: i128;
    if a == 0 {
        if b < 0 && c > 0 {
            numerator = c;
            denominator = -b;
        } else {
            return None;
        }
    } else {
        let root: i128 = isqrt(d as u128) as i128;
        let middle: i128 = if a > 0 {
            -b
        } else {
            b
        };
        let chosen: i128 = if middle - root > 0 {
            middle - root
        } else {
            middle + root
        };
        if chosen > 0 {
            numerator = chosen;
            denominator = if a > 0 {
                2 * a
            } else {
                2 * (-a)
            };
        } else {
            return None;
        }
    }
    assert(0 < denominator <= 640_000_000_000_000_000);
    assert(0 < numerator <= 20_000_000_000_000_000_000);
    assert(denominator == lead_time_spec(relative_pos, relative_vel, speed as int).unwrap().1);
    assert(numerator == lead_time_spec(relative_pos, relative_vel, speed as int).unwrap().0);
    proof {
        lemma_mul_bound(
            px as int,
            denominator as int,
            800_000_000,
            640_000_000_000_000_000,
        );
        lemma_mul_bound(
            py as int,
            denominator as int,
            800_000_000,
            640_000_000_000_000_000,
        );
        lemma_mul_bound(vx as int, numerator as int, 200_000_000, 20_000_000_000_000_000_000);
        lemma_mul_bound(vy as int, numerator as int, 200_000_000, 20_000_000_000_000_000_000);
        assert(0 <= (numerator * 1000) / (denominator as int) <= numerator * 1000) by (nonlinear_arith)
            requires
                numerator > 0,
                denominator > 0,
        ;
    }
    Some(
        Intercept {
            time: numerator * 1000 / denominator,
            aim: Aim { x: px * denominator + vx * numerator, y: py * denominator + vy * numerator },
        },
    )
}

/// Where a weapon stands in the world: the craft's position plus the
/// weapon's place relative to the centre of mass, turned by the craft's
/// heading.
pub open spec fn muzzle_spec(spacecraft: Spacecraft, weapon: Weapon) -> Vec2 {
    spacecraft.body.position.plus_spec(
        spacecraft.heading.rotate_spec(weapon.position.minus_spec(spacecraft.center_of_mass)),
    )
}

/// The line from a weapon to `target`.
pub open spec fn sight_spec(spacecraft: Spacecraft, weapon: Weapon, target: Body) -> Vec2 {
    target.position.minus_spec(muzzle_spec(spacecraft, weapon))
}

/// The meeting point of a projectile fired now from a weapon with
/// `target`, the target taken to move on in a straight line.
pub open spec fn solution_spec(spacecraft: Spacecraft, weapon: Weapon, target: Body) -> Option<
    Intercept,
> {
    intercept_spec(
        sight_spec(spacecraft, weapon, target),
        target.velocity.minus_spec(spacecraft.body.velocity),
        weapon.projectile_speed as int,
    )
}

/// The line from a weapon to `target`.
fn sight(spacecraft: &Spacecraft, weapon: &Weapon, target: &Body) -> (line: Vec2)
    requires
        spacecraft.wf(),
        weapon.wf(),
        target.wf(),
    ensures
        line == sight_spec(*spacecraft, *weapon, *target),
        line.within(RANGE as int),
{
    let offset: Vec2 = weapon.position.minus(spacecraft.center_of_mass);
    assert(offset.within(2 * LIMIT));
    let turned: Vec2 = spacecraft.heading.rotate(offset);
    assert(turned.within(2 * (2 * LIMIT)));
    let muzzle: Vec2 = spacecraft.body.position.plus(turned);
    target.position.minus(muzzle)
}

/// The meeting point of a projectile fired now from a weapon with `target`.
fn solution(spacecraft: &Spacecraft, weapon: &Weapon, target: &Body) -> (result: Option<Intercept>)
    requires
        spacecraft.wf(),
        weapon.wf(),
        target.wf(),
    ensures
        result == solution_spec(*spacecraft, *weapon, *target),
{
    let line: Vec2 = sight(spacecraft, weapon, target);
    let relative_vel: Vec2 = target.velocity.minus(spacecraft.body.velocity);
    intercept(line, relative_vel, weapon.projectile_speed)
}

/// The line from the weapon at place `index` of a craft to `target`; none
/// where that component is no weapon.
pub fn line_of_sight(spacecraft: &Spacecraft, index: usize, target: &Body) -> (line: Option<Vec2>)
    requires
        spacecraft.wf(),
        target.wf(),
    ensures
        line == match spacecraft.components@[index as int].component {
            Component::Weapon(weapon) if index < spacecraft.components.len() => Some(
                sight_spec(*spacecraft, weapon, *target),
            ),
            _ => None,
        },
{
    if index >= spacecraft.components.len() {
        return None;
    }
    match spacecraft.components[index].component {
        Component::Weapon(weapon) => Some(sight(spacecraft, &weapon, target)),
        Component::Engine(_) => None,
    }
}

/// The meeting point of a projectile fired now from the weapon at place
/// `index` of a craft with `target`; none where that component is no
/// weapon or its projectile cannot meet the target.
pub fn firing_solution(spacecraft: &Spacecraft, index: usize, target: &Body) -> (result: Option<
    Intercept,
>)
    requires
        spacecraft.wf(),
        target.wf(),
    ensures
        result == match spacecraft.components@[index as int].component {
            Component::Weapon(weapon) if index < spacecraft.components.len() => solution_spec(
                *spacecraft,
                weapon,
                *target,
            ),
            _ => None,
        },
{
    if index >= spacecraft.components.len() {
        return None;
    }
    match spacecraft.components[index].component {
        Component::Weapon(weapon) => solution(spacecraft, &weapon, target),
        Component::Engine(_) => None,
    }
}

/// How the weapons of a craft are to be handled.
#[derive(Clone, Copy, Debug, PartialEq, Eq, Structural)]
pub enum Fire {
    /// Shut every weapon down.
    Cease,
    /// Arm every weapon and turn it by its bearing.
    Direct,
    /// Lead `target`: arm and aim each weapon that can meet it, shut down
    /// each that cannot.
    Lead { target: Body },
}

/// The rotation, relative to its mount, at which a weapon points along the
/// world angle `bearing`.
pub open spec fn mount_rotation_spec(spacecraft: Spacecraft, weapon: Weapon, bearing: int) -> int {
    bearing - (spacecraft.body.rotation + weapon.orientation)
}

/// The commands for one component. Engines get none.
///
/// A weapon that leads its target is turned only where its aim is off by
/// more than the tolerance, and armed after that; one that cannot meet the
/// target is shut down and not turned.
pub open spec fn weapon_block(
    id: GameObjectId,
    spacecraft: Spacecraft,
    mount: Mount,
    how: Fire,
    bearing: int,
) -> Seq<Command> {
    match mount.component {
        Component::Engine(_) => Seq::empty(),
        Component::Weapon(weapon) => match how {
            Fire::Cease => switch_spec(id, mount.id, weapon.active, false),
            Fire::Direct => switch_spec(id, mount.id, weapon.active, true).push(
                Command {
                    spacecraft: id,
                    component: mount.id,
                    action: ComponentCmd::SetRotation(bearing as i64),
                },
            ),
            Fire::Lead { target } => match solution_spec(spacecraft, weapon, target) {
                None => switch_spec(id, mount.id, weapon.active, false),
                Some(_) => (if abs(weapon.rotation - mount_rotation_spec(spacecraft, weapon, bearing))
                    > ROTATION_TOLERANCE {
                    seq![
                        Command {
                            spacecraft: id,
                            component: mount.id,
                            action: ComponentCmd::SetRotation(
                                mount_rotation_spec(spacecraft, weapon, bearing) as i64,
                            ),
                        },
                    ]
                } else {
                    Seq::empty()
                }) + switch_spec(id, mount.id, weapon.active, true),
            },
        },
    }
}

/// The commands for each component, by its place in the craft; `bearings`
/// holds an angle for each place.
pub open spec fn weapon_blocks(
    id: GameObjectId,
    spacecraft: Spacecraft,
    how: Fire,
    bearings: Seq<i64>,
) -> spec_fn(int) -> Seq<Command> {
    |i: int| weapon_block(id, spacecraft, spacecraft.components[i], how, bearings[i] as int)
}

/// The commands that handle the weapons of a craft, in the order of its
/// components.
pub open spec fn weapon_commands(
    id: GameObjectId,
    spacecraft: Spacecraft,
    how: Fire,
    bearings: Seq<i64>,
) -> Seq<Command> {
    assemble(spacecraft.components.len() as nat, weapon_blocks(id, spacecraft, how, bearings))
}

/// Whether `bearings` holds an angle of accepted magnitude for each place
/// of the craft.
pub open spec fn bearings_fit(spacecraft: Spacecraft, bearings: Seq<i64>) -> bool {
    &&& bearings.len() == spacecraft.components.len()
    &&& forall|i: int| 0 <= i < bearings.len() ==> bounded(#[trigger] bearings[i] as int)
}

/// Whether `bearings` holds an angle of accepted magnitude for each place
/// of the craft.
pub fn check_bearings(spacecraft: &Spacecraft, bearings: &Vec<i64>) -> (fit: bool)
    ensures
        fit == bearings_fit(*spacecraft, bearings@),
{
    if bearings.len() != spacecraft.components.len() {
        return false;
    }
    let mut i: usize = 0;
    while i < bearings.len()
        invariant
            i <= bearings.len(),
            forall|k: int| 0 <= k < i ==> bounded(#[trigger] bearings[k] as int),
        decreases bearings.len() - i,
    {
        if !crate::model::is_bounded(bearings[i]) {
            return false;
        }
        i += 1;
    }
    true
}

/// The commands that handle the weapons of a craft.
fn arm_weapons(spacecraft: (&GameObjectId, &Spacecraft), how: Fire, bearings: &Vec<i64>) -> (result:
    Vec<Command>)
    requires
        spacecraft.1.wf(),
        how matches Fire::Lead { target } ==> target.wf(),
        how != Fire::Cease ==> bearings_fit(*spacecraft.1, bearings@),
    ensures
        result@ == weapon_commands(*spacecraft.0, *spacecraft.1, how, bearings@),
{
    let id: GameObjectId = *spacecraft.0;
    let craft: &Spacecraft = spacecraft.1;
    let ghost blocks = weapon_blocks(id, *craft, how, bearings@);
    let mut result: Vec<Command> = Vec::new();
    let mut i: usize = 0;
    proof {
        lemma_assemble_none(blocks);
    }
    while i < craft.components.len()
        invariant
            craft.wf(),
            how matches Fire::Lead { target } ==> target.wf(),
            how != Fire::Cease ==> bearings_fit(*craft, bearings@),
            blocks == weapon_blocks(id, *craft, how, bearings@),
            i <= craft.components.len(),
            result@ == assemble(i as nat, blocks),
        decreases craft.components.len() - i,
    {
        let mount: Mount = craft.components[i];
        let ghost before = result@;
        proof {
            lemma_assemble_step(i as nat, blocks);
        }
        match mount.component {
            Component::Engine(_) => {
                assert(result@ + blocks(i as int) =~= result@);
            },
            Component::Weapon(weapon) => {
                match how {
                    Fire::Cease => {
                        switch(&mut result, id, mount.id, weapon.active, false);
                    },
                    Fire::Direct => {
                        switch(&mut result, id, mount.id, weapon.active, true);
                        result.push(
                            Command {
                                spacecraft: id,
                                component: mount.id,
                                action: ComponentCmd::SetRotation(bearings[i]),
                            },
                        );
                        assert(result@ =~= before + blocks(i as int));
                    },
                    Fire::Lead { target } => {
                        match solution(craft, &weapon, &target) {
                            None => {
                                switch(&mut result, id, mount.id, weapon.active, false);
                            },
                            Some(_) => {
                                let rotation: i64 = bearings[i] - (craft.body.rotation
                                    + weapon.orientation);
                                let off: i64 = if weapon.rotation >= rotation {
                                    weapon.rotation - rotation
                                } else {
                                    rotation - weapon.rotation
                                };
                                if off > ROTATION_TOLERANCE {
                                    result.push(
                                        Command {
                                            spacecraft: id,
                                            component: mount.id,
                                            action: ComponentCmd::SetRotation(rotation),
                                        },
                                    );
                                }
                                switch(&mut result, id, mount.id, weapon.active, true);
                                assert(result@ =~= before + blocks(i as int));
                            },
                        }
                    },
                }
            },
        }
        i += 1;
    }
    result
}

/// Arms every weapon of a craft and turns it by its bearing: `bearings`
/// holds, for the weapon at each place, the angle from where its mount
/// points to its line of sight, in milliradians. A weapon that is off is
/// switched on first; its rotation is set each time.
pub fn shoot_at(spacecraft: (&GameObjectId, &Spacecraft), bearings: &Vec<i64>) -> (result: Vec<Command>)
    requires
        spacecraft.1.wf(),
        bearings_fit(*spacecraft.1, bearings@),
    ensures
        result@ == weapon_commands(*spacecraft.0, *spacecraft.1, Fire::Direct, bearings@),
{
    arm_weapons(spacecraft, Fire::Direct, bearings)
}

/// Aims every weapon of a craft at where its projectile meets `target`:
/// `bearings` holds, for the weapon at each place, the world angle of the
/// aim of its `firing_solution`, in milliradians, and is read only for
/// weapons that have one.
///
/// A weapon whose projectile cannot meet the target is shut down and not
/// turned. The others are turned where their aim is off by more than the
/// tolerance, then switched on where they are off.
pub fn predictive_shoot_at(
    spacecraft: (&GameObjectId, &Spacecraft),
    target: Body,
    bearings: &Vec<i64>,
) -> (result: Vec<Command>)
    requires
        spacecraft.1.wf(),
        target.wf(),
        bearings_fit(*spacecraft.1, bearings@),
    ensures
        result@ == weapon_commands(*spacecraft.0, *spacecraft.1, Fire::Lead { target }, bearings@),
{
    arm_weapons(spacecraft, Fire::Lead { target }, bearings)
}

/// Shuts down every weapon of a craft that is on.
pub fn deactivate_weapons(spacecraft: (&GameObjectId, &Spacecraft)) -> (result: Vec<Command>)
    requires
        spacecraft.1.wf(),
    ensures
        result@ == weapon_commands(*spacecraft.0, *spacecraft.1, Fire::Cease, Seq::empty()),
{
    let none: Vec<i64> = Vec::new();
    arm_weapons(spacecraft, Fire::Cease, &none)
}

/// A target that stands still relative to the weapon, anywhere but at the
/// muzzle, is met on the line of sight: the aim is the relative position,
/// stretched. The time of flight is the distance over the speed, the
/// distance taken from the rounded-down square root of the discriminant.
pub proof fn lemma_still_target(relative_pos: Vec2, speed: int)
    requires
        relative_pos.within(RANGE as int),
        0 < speed <= LIMIT,
        relative_pos != (Vec2 { x: 0, y: 0 }),
    ensures
        intercept_spec(relative_pos, Vec2 { x: 0, y: 0 }, speed) matches Some(hit) && hit.aim.x
            == relative_pos.x * (2 * (speed * speed)) && hit.aim.y == relative_pos.y * (2 * (speed
            * speed)) && hit.time == sqrt_floor(
            4 * (speed * speed) * relative_pos.length_squared_spec(),
        ) * SCALE / (2 * (speed * speed)),
        2 * (speed * speed) > 0,
{
    let still = Vec2 { x: 0, y: 0 };
    let a = lead_a(still, speed);
    let b = lead_b(relative_pos, still);
    let c = lead_c(relative_pos);
    let d = discriminant(relative_pos, still, speed);
    let x = relative_pos.x as int;
    let y = relative_pos.y as int;
    lemma_mul_bound(x, x, RANGE as int, RANGE as int);
    lemma_mul_bound(y, y, RANGE as int, RANGE as int);
    lemma_mul_bound(speed, speed, LIMIT as int, LIMIT as int);
    assert(c >= 1) by (nonlinear_arith)
        requires
            c == x * x + y * y,
            x != 0 || y != 0,
    ;
    assert(speed * speed >= 1) by (nonlinear_arith)
        requires
            speed >= 1,
    ;
    assert(a == -(speed * speed));
    assert(b == 0);
    assert(d == 4 * (speed * speed) * c && d >= 1) by (nonlinear_arith)
        requires
            d == b * b - 4 * a * c,
            b == 0,
            a == -(speed * speed),
            c >= 1,
            speed * speed >= 1,
    ;
    lemma_sqrt_floor_exists(d);
    let root = sqrt_floor(d);
    assert(root >= 1) by (nonlinear_arith)
        requires
            is_sqrt_floor(d, root),
            d >= 1,
            is_sqrt_floor(d, root) ==> root >= 0 && d < (root + 1) * (root + 1),
    ;
    assert(lead_time_spec(relative_pos, still, speed) == Some((root, 2 * (speed * speed))));
    assert(root <= 2 * RANGE * LIMIT + 2 * RANGE * LIMIT) by (nonlinear_arith)
        requires
            root >= 0,
            root * root <= d,
            d == 4 * (speed * speed) * c,
            speed * speed <= LIMIT * LIMIT,
            0 <= c <= 2 * (RANGE * RANGE),
            RANGE == 800_000_000,
            LIMIT == 100_000_000,
    ;
    assert(0 <= root * SCALE / (2 * (speed * speed)) <= root * SCALE) by (nonlinear_arith)
        requires
            root >= 1,
            speed * speed >= 1,
            SCALE == 1000,
    ;
    lemma_mul_bound(x, 2 * (speed * speed), RANGE as int, 2 * (LIMIT * LIMIT));
    lemma_mul_bound(y, 2 * (speed * speed), RANGE as int, 2 * (LIMIT * LIMIT));
    assert(x * (2 * (speed * speed)) + still.x * root == x * (2 * (speed * speed)));
    assert(y * (2 * (speed * speed)) + still.y * root == y * (2 * (speed * speed)));
}

/// A target that stands still relative to the weapon is met on the line of
/// sight, after its distance divided by the projectile's speed: the aim is
/// the relative position, stretched, and the time of flight is the
/// distance over the speed, in milliseconds.
pub proof fn lemma_stationary_target(relative_pos: Vec2, distance: int, speed: int)
    requires
        relative_pos.within(RANGE as int),
        0 < speed <= LIMIT,
        distance > 0,
        relative_pos.length_squared_spec() == distance * distance,
    ensures
        intercept_spec(relative_pos, Vec2 { x: 0, y: 0 }, speed) matches Some(hit) && hit.time
            == distance * SCALE / speed && hit.aim.x == relative_pos.x * (2 * (speed * speed))
            && hit.aim.y == relative_pos.y * (2 * (speed * speed)),
        2 * (speed * speed) > 0,
{
    let still = Vec2 { x: 0, y: 0 };
    let a = lead_a(still, speed);
    let b = lead_b(relative_pos, still);
    let c = lead_c(relative_pos);
    let d = discriminant(relative_pos, still, speed);
    let double = 2 * (speed * distance);
    assert(speed * speed > 0 && double > 0) by (nonlinear_arith)
        requires
            speed > 0,
            distance > 0,
            double == 2 * (speed * distance),
    ;
    assert(a == -(speed * speed));
    assert(b == 0);
    assert(d == double * double) by (nonlinear_arith)
        requires
            d == b * b - 4 * a * c,
            b == 0,
            a == -(speed * speed),
            c == distance * distance,
            double == 2 * (speed * distance),
    ;
    lemma_sqrt_floor_square(double);
    assert(lead_time_spec(relative_pos, still, speed) == Some((double, 2 * (speed * speed))));
    lemma_div_multiples_vanish_quotient(2 * speed, distance * SCALE, speed);
    assert((2 * speed) * (distance * SCALE) == double * SCALE) by (nonlinear_arith)
        requires
            double == 2 * (speed * distance),
    ;
    assert((2 * speed) * speed == 2 * (speed * speed)) by (nonlinear_arith);
    assert(double * SCALE / (2 * (speed * speed)) == distance * SCALE / speed);
    lemma_mul_bound(relative_pos.x as int, relative_pos.x as int, RANGE as int, RANGE as int);
    lemma_mul_bound(relative_pos.y as int, relative_pos.y as int, RANGE as int, RANGE as int);
    assert(distance <= 2 * RANGE) by (nonlinear_arith)
        requires
            distance > 0,
            distance * distance <= 2 * (RANGE * RANGE),
            RANGE == 800_000_000,
    ;
    assert(0 <= distance * SCALE / speed <= distance * SCALE) by (nonlinear_arith)
        requires
            distance > 0,
            speed > 0,
            SCALE == 1000,
    ;
    lemma_mul_bound(speed, speed, LIMIT as int, LIMIT as int);
    lemma_mul_bound(relative_pos.x as int, 2 * (speed * speed), RANGE as int, 2 * (LIMIT * LIMIT));
    lemma_mul_bound(relative_pos.y as int, 2 * (speed * speed), RANGE as int, 2 * (LIMIT * LIMIT));
    assert(relative_pos.x * (2 * (speed * speed)) + still.x * double == relative_pos.x * (2 * (speed
        * speed)));
    assert(relative_pos.y * (2 * (speed * speed)) + still.y * double == relative_pos.y * (2 * (speed
        * speed)));
}

/// A weapon whose projectile cannot meet the target is not turned: every
/// command for it shuts it down, and where it is on there is such a
/// command.
pub proof fn lemma_no_solution_no_rotation(
    id: GameObjectId,
    spacecraft: Spacecraft,
    target: Body,
    bearings: Seq<i64>,
    place: int,
)
    requires
        spacecraft.wf(),
        0 <= place < spacecraft.components.len(),
        spacecraft.components[place].component matches Component::Weapon(weapon) && solution_spec(
            spacecraft,
            weapon,
            target,
        ) is None,
    ensures
        forall|k: int|
            0 <= k < weapon_commands(id, spacecraft, Fire::Lead { target }, bearings).len() && (
            #[trigger] weapon_commands(id, spacecraft, Fire::Lead { target }, bearings)[k]).component
                == spacecraft.components[place].id ==> weapon_commands(
                id,
                spacecraft,
                Fire::Lead { target },
                bearings,
            )[k].action == ComponentCmd::SetActive(false),
        spacecraft.components[place].component->Weapon_0.active ==> weapon_commands(
            id,
            spacecraft,
            Fire::Lead { target },
            bearings,
        ).contains(
            Command {
                spacecraft: id,
                component: spacecraft.components[place].id,
                action: ComponentCmd::SetActive(false),
            },
        ),
{
    let how = Fire::Lead { target };
    let blocks = weapon_blocks(id, spacecraft, how, bearings);
    let count = spacecraft.components.len() as nat;
    let own = spacecraft.components[place].id;
    let holds = |c: Command| c.component == own ==> c.action == ComponentCmd::SetActive(false);
    assert forall|i: int, k: int| 0 <= i < count && 0 <= k < blocks(i).len() implies holds(
        #[trigger] blocks(i)[k],
    ) by {
        if i != place {
            assert(blocks(i)[k].component == spacecraft.components[i].id);
            if i < place {
                assert(spacecraft.components[i].id < spacecraft.components[place].id);
            } else {
                assert(spacecraft.components[place].id < spacecraft.components[i].id);
            }
        }
    }
    lemma_assemble_all(count, blocks, holds);
    assert forall|k: int|
        0 <= k < weapon_commands(id, spacecraft, how, bearings).len() && (#[trigger] weapon_commands(
            id,
            spacecraft,
            how,
            bearings,
        )[k]).component == own implies weapon_commands(id, spacecraft, how, bearings)[k].action
        == ComponentCmd::SetActive(false) by {
        assert(holds(weapon_commands(id, spacecraft, how, bearings)[k]));
    }
    if spacecraft.components[place].component->Weapon_0.active {
        lemma_assemble_has(count, blocks, place, 0);
    }
}

/// Aiming settles: once the host has carried out the commands that lead a
/// target, leading the same target from the same snapshot asks for nothing
/// more.
pub proof fn lemma_aim_settles(
    id: GameObjectId,
    before: Spacecraft,
    after: Spacecraft,
    target: Body,
    bearings: Seq<i64>,
)
    requires
        before.wf(),
        bearings_fit(before, bearings),
        carried_out(
            id,
            before,
            weapon_commands(id, before, Fire::Lead { target }, bearings),
            after,
        ),
    ensures
        weapon_commands(id, after, Fire::Lead { target }, bearings) == Seq::<Command>::empty(),
{
    let how = Fire::Lead { target };
    let blocks = weapon_blocks(id, before, how, bearings);
    let count = before.components.len() as nat;
    let again = weapon_blocks(id, after, how, bearings);
    assert forall|i: int| 0 <= i < count implies (#[trigger] again(i)).len() == 0 by {
        let mount = before.components[i];
        lemma_after_assemble(id, before.components@, blocks, count, i);
        assert(after.components[i] == mount_after(id, mount, blocks(i)));
        lemma_block_settles(id, before, after, mount, target, bearings[i] as int);
    }
    lemma_assemble_nothing(count, again);
}

/// One weapon settles: after its own commands it is given none.
proof fn lemma_block_settles(
    id: GameObjectId,
    before: Spacecraft,
    after: Spacecraft,
    mount: Mount,
    target: Body,
    bearing: int,
)
    requires
        mount.component.wf(),
        before.body.wf(),
        bounded(bearing),
        after.body == before.body,
        after.heading == before.heading,
        after.center_of_mass == before.center_of_mass,
    ensures
        weapon_block(
            id,
            after,
            mount_after(
                id,
                mount,
                weapon_block(id, before, mount, Fire::Lead { target }, bearing),
            ),
            Fire::Lead { target },
            bearing,
        ).len() == 0,
{
    let how = Fire::Lead { target };
    let block = weapon_block(id, before, mount, how, bearing);
    reveal_with_fuel(mount_after, 3);
    match mount.component {
        Component::Engine(_) => {
            assert(block =~= Seq::empty());
        },
        Component::Weapon(weapon) => {
            match solution_spec(before, weapon, target) {
                None => {
                    if weapon.active {
                        assert(block.drop_first() =~= Seq::empty());
                    }
                },
                Some(_) => {
                    let rotation = mount_rotation_spec(before, weapon, bearing);
                    let turn = abs(weapon.rotation - rotation) > ROTATION_TOLERANCE;
                    if turn && !weapon.active {
                        assert(block.drop_first().drop_first() =~= Seq::empty());
                    } else if turn || !weapon.active {
                        assert(block.drop_first() =~= Seq::empty());
                    }
                },
            }
        },
    }
}

/// No command names what is not there: every command for the weapons of a
/// craft is addressed to that craft and to one of its components.
pub proof fn lemma_weapon_commands_addressed(
    id: GameObjectId,
    spacecraft: Spacecraft,
    how: Fire,
    bearings: Seq<i64>,
    k: int,
)
    requires
        0 <= k < weapon_commands(id, spacecraft, how, bearings).len(),
    ensures
        weapon_commands(id, spacecraft, how, bearings)[k].spacecraft == id,
        exists|i: int|
            0 <= i < spacecraft.components.len() && (#[trigger] spacecraft.components[i]).id
                == weapon_commands(id, spacecraft, how, bearings)[k].component,
{
    let blocks = weapon_blocks(id, spacecraft, how, bearings);
    let holds = |c: Command|
        c.spacecraft == id && exists|i: int|
            0 <= i < spacecraft.components.len() && (#[trigger] spacecraft.components[i]).id
                == c.component;
    assert forall|i: int, j: int|
        0 <= i < spacecraft.components.len() && 0 <= j < blocks(i).len() implies holds(
        #[trigger] blocks(i)[j],
    ) by {
        assert(spacecraft.components[i].id == blocks(i)[j].component);
    }
    lemma_assemble_all(spacecraft.components.len() as nat, blocks, holds);
    assert(holds(weapon_commands(id, spacecraft, how, bearings)[k]));
}

} // verus!
