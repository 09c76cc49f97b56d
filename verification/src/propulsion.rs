//! Engine control: where a craft pushes hardest, how it turns, and how it
//! reaches a velocity or a place.

use vstd::prelude::*;
use crate::commands::{
    assemble, drive, drive_spec, lemma_after_assemble, lemma_assemble_all, lemma_assemble_none,
    lemma_assemble_nothing, lemma_assemble_step,
};
use crate::compass::{
    fine_heading, fine_heading_spec, heading, heading_spec, quadrant_cosine_spec, FINE,
};
use crate::model::{
    acted, carried_out, lemma_thrust_grows, mount_after, mount_thrust, total_thrust, Body, Command,
    Component, ComponentCmd, Engine, GameObjectId, Mount, Spacecraft, MAX_THRUST,
};
use crate::numeric::{abs, div_trunc, lemma_mul_bound, quotient, LIMIT, SCALE};
use crate::vec2::{Vec2, SPAN};

verus! {

/// What one engine adds to the push along `candidate`, a unit vector in
/// millionths: its alignment with the candidate, where positive, times its
/// thrust.
pub open spec fn engine_push(engine: Engine, candidate: Vec2) -> int {
    let alignment = engine.direction.dot_spec(candidate);
    if alignment > 0 {
        alignment * engine.thrust
    } else {
        0
    }
}

/// What one component adds to the push along `candidate`.
pub open spec fn mount_push(mount: Mount, candidate: Vec2) -> int {
    match mount.component {
        Component::Engine(engine) => engine_push(engine, candidate),
        Component::Weapon(_) => 0,
    }
}

/// The push of all engines together along `candidate`, a unit vector of
/// the craft's frame in millionths. A billion of it is one thousandth of
/// thrust.
pub open spec fn push_along(mounts: Seq<Mount>, candidate: Vec2) -> int
    decreases mounts.len(),
{
    if mounts.len() == 0 {
        0
    } else {
        push_along(mounts.drop_last(), candidate) + mount_push(mounts.last(), candidate)
    }
}

/// The push along a whole-degree heading.
pub open spec fn push_at(mounts: Seq<Mount>, degrees: int) -> int {
    push_along(mounts, fine_heading_spec(degrees))
}

/// The heading kept when `candidate` is held against `best`: the candidate
/// only where it pushes strictly harder.
pub open spec fn better(mounts: Seq<Mount>, best: int, candidate: int) -> int {
    if push_at(mounts, best) < push_at(mounts, candidate) {
        candidate
    } else {
        best
    }
}

/// The best heading after the first `steps` steps of the coarse scan, which
/// starts from 0 degrees and goes up by ten.
pub open spec fn coarse_scan(mounts: Seq<Mount>, steps: nat) -> int
    decreases steps,
{
    if steps == 0 {
        0
    } else {
        better(mounts, coarse_scan(mounts, (steps - 1) as nat), 10 * (steps as int))
    }
}

/// The heading that step `step` of the fine scan around `base` tries: from
/// ten degrees below `base` upward, degree by degree.
pub open spec fn fine_candidate(base: int, step: int) -> int {
    (base + 350 + step) % 360
}

/// The best heading after the first `steps` steps of the fine scan around
/// `base`.
pub open spec fn fine_scan(mounts: Seq<Mount>, base: int, steps: nat) -> int
    decreases steps,
{
    if steps == 0 {
        base
    } else {
        better(mounts, fine_scan(mounts, base, (steps - 1) as nat), fine_candidate(base, steps - 1))
    }
}

/// Number of steps of the coarse scan after its start.
pub const COARSE_STEPS: u32 = 35;

/// Number of steps of the fine scan.
pub const FINE_STEPS: u32 = 20;

/// The heading of hardest push, in whole degrees of the craft's frame: the
/// coarse scan over the full turn, refined by the fine scan around its
/// result.
pub open spec fn optimal_degree(mounts: Seq<Mount>) -> int {
    fine_scan(mounts, coarse_scan(mounts, COARSE_STEPS as nat), FINE_STEPS as nat)
}

/// No heading tried by either scan pushes harder than the optimal one.
pub proof fn lemma_optimal_is_best(mounts: Seq<Mount>, tens: int, step: int)
    requires
        0 <= tens <= COARSE_STEPS,
        0 <= step < FINE_STEPS,
    ensures
        push_at(mounts, 10 * tens) <= push_at(mounts, optimal_degree(mounts)),
        push_at(mounts, fine_candidate(coarse_scan(mounts, COARSE_STEPS as nat), step)) <= push_at(
            mounts,
            optimal_degree(mounts),
        ),
{
    let base = coarse_scan(mounts, COARSE_STEPS as nat);
    lemma_coarse_dominates(mounts, COARSE_STEPS as nat, tens);
    lemma_fine_dominates(mounts, base, FINE_STEPS as nat, step);
    lemma_fine_keeps(mounts, base, FINE_STEPS as nat);
}

/// After `steps` steps the coarse scan holds a heading that pushes at least
/// as hard as each one tried.
pub proof fn lemma_coarse_dominates(mounts: Seq<Mount>, steps: nat, tens: int)
    requires
        0 <= tens <= steps,
    ensures
        push_at(mounts, 10 * tens) <= push_at(mounts, coarse_scan(mounts, steps)),
    decreases steps,
{
    if steps > 0 {
        if tens < steps {
            lemma_coarse_dominates(mounts, (steps - 1) as nat, tens);
        }
    }
}

/// After `steps` steps the fine scan holds a heading that pushes at least as
/// hard as each one tried.
pub proof fn lemma_fine_dominates(mounts: Seq<Mount>, base: int, steps: nat, step: int)
    requires
        0 <= step < steps,
    ensures
        push_at(mounts, fine_candidate(base, step)) <= push_at(mounts, fine_scan(mounts, base, steps)),
    decreases steps,
{
    if step < steps - 1 {
        lemma_fine_dominates(mounts, base, (steps - 1) as nat, step);
    }
}

/// The fine scan never gives up a heading for a weaker one.
pub proof fn lemma_fine_keeps(mounts: Seq<Mount>, base: int, steps: nat)
    ensures
        push_at(mounts, base) <= push_at(mounts, fine_scan(mounts, base, steps)),
    decreases steps,
{
    if steps > 0 {
        lemma_fine_keeps(mounts, base, (steps - 1) as nat);
    }
}

/// Bounds on the push of one well-formed component.
pub proof fn lemma_mount_push_bound(mount: Mount, candidate: Vec2)
    requires
        candidate.within(FINE as int),
        mount.component.wf(),
    ensures
        0 <= mount_push(mount, candidate) <= 2 * SCALE * FINE * mount_thrust(mount),
{
    match mount.component {
        Component::Engine(engine) => {
            let alignment = engine.direction.dot_spec(candidate);
            lemma_mul_bound(engine.direction.x as int, candidate.x as int, SCALE as int, FINE as int);
            lemma_mul_bound(engine.direction.y as int, candidate.y as int, SCALE as int, FINE as int);
            if alignment > 0 {
                assert(0 <= alignment * engine.thrust <= 2 * SCALE * FINE * engine.thrust)
                    by (nonlinear_arith)
                    requires
                        0 < alignment <= 2 * (SCALE * FINE),
                        0 <= engine.thrust,
                ;
            }
        },
        Component::Weapon(_) => {},
    }
}

/// The push of all engines of a craft together along `candidate`.
pub fn push(spacecraft: &Spacecraft, candidate: Vec2) -> (total: i128)
    requires
        spacecraft.wf(),
        candidate.within(FINE as int),
    ensures
        total == push_along(spacecraft.components@, candidate),
        0 <= total <= 2 * SCALE * FINE * MAX_THRUST,
{
    let mut total: i128 = 0;
    let mut i: usize = 0;
    assert(spacecraft.components@.take(0) =~= Seq::<Mount>::empty());
    while i < spacecraft.components.len()
        invariant
            spacecraft.wf(),
            candidate.within(FINE as int),
            i <= spacecraft.components.len(),
            total == push_along(spacecraft.components@.take(i as int), candidate),
            0 <= total <= 2 * SCALE * FINE * total_thrust(spacecraft.components@.take(i as int)),
        decreases spacecraft.components.len() - i,
    {
        let mount: Mount = spacecraft.components[i];
        proof {
            let next = spacecraft.components@.take(i + 1);
            assert(next.drop_last() =~= spacecraft.components@.take(i as int));
            assert(next.last() == mount);
            lemma_mount_push_bound(mount, candidate);
            lemma_thrust_grows(spacecraft.components@, i + 1);
            assert(2 * SCALE * FINE * total_thrust(next) == 2 * SCALE * FINE * total_thrust(
                spacecraft.components@.take(i as int),
            ) + 2 * SCALE * FINE * mount_thrust(mount)) by (nonlinear_arith)
                requires
                    total_thrust(next) == total_thrust(spacecraft.components@.take(i as int))
                        + mount_thrust(mount),
            ;
            assert(2 * SCALE * FINE * total_thrust(next) <= 2 * SCALE * FINE * MAX_THRUST)
                by (nonlinear_arith)
                requires
                    total_thrust(next) <= MAX_THRUST,
            ;
        }
        match mount.component {
            Component::Engine(engine) => {
                proof {
                    lemma_mul_bound(
                        engine.direction.x as int,
                        candidate.x as int,
                        SCALE as int,
                        FINE as int,
                    );
                    lemma_mul_bound(
                        engine.direction.y as int,
                        candidate.y as int,
                        SCALE as int,
                        FINE as int,
                    );
                }
                let alignment: i128 = engine.direction.dot(candidate);
                if alignment > 0 {
                    total = total + alignment * (engine.thrust as i128);
                }
            },
            Component::Weapon(_) => {},
        }
        i += 1;
    }
    proof {
        assert(spacecraft.components@.take(i as int) =~= spacecraft.components@);
        assert(2 * SCALE * FINE * total_thrust(spacecraft.components@) <= 2 * SCALE * FINE
            * MAX_THRUST) by (nonlinear_arith)
            requires
                total_thrust(spacecraft.components@) <= MAX_THRUST,
        ;
    }
    total
}

/// The heading of hardest push, in whole degrees of the craft's frame.
pub fn optimal_thrust_degree(spacecraft: &Spacecraft) -> (degrees: u32)
    requires
        spacecraft.wf(),
    ensures
        degrees == optimal_degree(spacecraft.components@),
        degrees < 360,
{
    let ghost mounts = spacecraft.components@;
    let mut best: u32 = 0;
    let mut best_push: i128 = push(spacecraft, fine_heading(0));
    let mut step: u32 = 0;
    while step < COARSE_STEPS
        invariant
            spacecraft.wf(),
            mounts == spacecraft.components@,
            step <= COARSE_STEPS,
            best == coarse_scan(mounts, step as nat),
            best < 360,
            best_push == push_at(mounts, best as int),
        decreases COARSE_STEPS - step,
    {
        step += 1;
        let candidate: u32 = 10 * step;
        let candidate_push: i128 = push(spacecraft, fine_heading(candidate));
        if best_push < candidate_push {
            best = candidate;
            best_push = candidate_push;
        }
    }
    let base: u32 = best;
    let mut step: u32 = 0;
    while step < FINE_STEPS
        invariant
            spacecraft.wf(),
            mounts == spacecraft.components@,
            step <= FINE_STEPS,
            base < 360,
            best == fine_scan(mounts, base as int, step as nat),
            best < 360,
            best_push == push_at(mounts, best as int),
        decreases FINE_STEPS - step,
    {
        let candidate: u32 = (base + 350 + step) % 360;
        let candidate_push: i128 = push(spacecraft, fine_heading(candidate));
        if best_push < candidate_push {
            best = candidate;
            best_push = candidate_push;
        }
        step += 1;
    }
    best
}

/// The thrust the engines reach together along their best heading, and
/// no more than they have together.
pub open spec fn max_thrust_spec(mounts: Seq<Mount>) -> int {
    let reached = push_at(mounts, optimal_degree(mounts)) / (SCALE * FINE);
    if reached > total_thrust(mounts) {
        total_thrust(mounts)
    } else {
        reached
    }
}

/// The thrust of all engines of a craft together.
fn thrust_of(spacecraft: &Spacecraft) -> (thrust: i64)
    requires
        spacecraft.wf(),
    ensures
        thrust == total_thrust(spacecraft.components@),
        0 <= thrust <= MAX_THRUST,
{
    let mut thrust: i64 = 0;
    let mut i: usize = 0;
    assert(spacecraft.components@.take(0) =~= Seq::<Mount>::empty());
    while i < spacecraft.components.len()
        invariant
            spacecraft.wf(),
            i <= spacecraft.components.len(),
            thrust == total_thrust(spacecraft.components@.take(i as int)),
            0 <= thrust <= MAX_THRUST,
        decreases spacecraft.components.len() - i,
    {
        proof {
            let next = spacecraft.components@.take(i + 1);
            assert(next.drop_last() =~= spacecraft.components@.take(i as int));
            assert(next.last() == spacecraft.components@[i as int]);
            assert(spacecraft.components[i as int].component.wf());
            lemma_thrust_grows(spacecraft.components@, i + 1);
        }
        match spacecraft.components[i].component {
            Component::Engine(engine) => {
                thrust = thrust + engine.thrust;
            },
            Component::Weapon(_) => {},
        }
        i += 1;
    }
    assert(spacecraft.components@.take(i as int) =~= spacecraft.components@);
    thrust
}

/// The direction in which the engines together push hardest, as a unit
/// vector of the craft's frame, and the thrust they reach along it.
///
/// The direction is the best of a scan over the full turn in steps of ten
/// degrees, refined degree by degree from ten below to nine above; of equal
/// headings the one tried first is kept. No heading of either scan pushes
/// harder, and the thrust is no more than the engines have together.
pub fn optimal_thrust_direction(spacecraft: &Spacecraft) -> (result: (Vec2, i64))
    requires
        spacecraft.wf(),
    ensures
        result.0 == heading_spec(optimal_degree(spacecraft.components@)),
        result.1 == max_thrust_spec(spacecraft.components@),
        result.0.within(SCALE as int),
        result.0.is_unit_spec(),
        0 <= result.1 <= total_thrust(spacecraft.components@),
        forall|tens: int|
            0 <= tens <= COARSE_STEPS ==> #[trigger] push_at(spacecraft.components@, 10 * tens)
                <= push_at(spacecraft.components@, optimal_degree(spacecraft.components@)),
        forall|step: int|
            0 <= step < FINE_STEPS ==> push_at(
                spacecraft.components@,
                #[trigger] fine_candidate(
                    coarse_scan(spacecraft.components@, COARSE_STEPS as nat),
                    step,
                ),
            ) <= push_at(spacecraft.components@, optimal_degree(spacecraft.components@)),
{
    let degrees: u32 = optimal_thrust_degree(spacecraft);
    let total: i128 = push(spacecraft, fine_heading(degrees));
    let reached: i128 = total / 1_000_000_000;
    let most: i64 = thrust_of(spacecraft);
    proof {
        let mounts = spacecraft.components@;
        assert forall|tens: int| 0 <= tens <= COARSE_STEPS implies #[trigger] push_at(
            mounts,
            10 * tens,
        ) <= push_at(mounts, optimal_degree(mounts)) by {
            lemma_optimal_is_best(mounts, tens, 0);
        }
        assert forall|step: int| 0 <= step < FINE_STEPS implies push_at(
            mounts,
            #[trigger] fine_candidate(coarse_scan(mounts, COARSE_STEPS as nat), step),
        ) <= push_at(mounts, optimal_degree(mounts)) by {
            lemma_optimal_is_best(mounts, 0, step);
        }
    }
    if reached > most as i128 {
        (heading(degrees), most)
    } else {
        (heading(degrees), reached as i64)
    }
}

/// Power may be off by this much, in thousandths, before it is set again.
pub const POWER_TOLERANCE: i64 = 100;

/// A velocity is reached within this much, in thousandths.
pub const VELOCITY_TOLERANCE: i64 = 100;

/// Tangent of the largest angle, a tenth of a radian, at which two
/// directions still count as aligned. In billionths.
pub const ALIGNMENT_TANGENT: i128 = 100_334_672;

/// Seconds allowed for turning round before braking.
pub const ROTATION_TIME: i128 = 10;

/// Largest component of a velocity that a craft can be asked to reach.
pub const REACH: i64 = 400_000_000_000;

/// Whether the angle between two directions exceeds a tenth of a radian.
/// A zero vector has no direction and is off from none.
pub open spec fn misaligned_spec(a: Vec2, b: Vec2) -> bool {
    let along = a.dot_spec(b);
    let across = a.perp_dot_spec(b);
    &&& a != (Vec2 { x: 0, y: 0 })
    &&& b != (Vec2 { x: 0, y: 0 })
    &&& (along <= 0 || abs(across) * 1_000_000_000 > ALIGNMENT_TANGENT * along)
}

/// Whether the angle between two directions exceeds a tenth of a radian.
pub fn misaligned(a: Vec2, b: Vec2) -> (off: bool)
    requires
        a.within(SPAN as int),
        b.within(SPAN as int),
    ensures
        off == misaligned_spec(a, b),
{
    if (a.x == 0 && a.y == 0) || (b.x == 0 && b.y == 0) {
        return false;
    }
    proof {
        lemma_mul_bound(a.x as int, b.x as int, SPAN as int, SPAN as int);
        lemma_mul_bound(a.y as int, b.y as int, SPAN as int, SPAN as int);
        lemma_mul_bound(a.x as int, b.y as int, SPAN as int, SPAN as int);
        lemma_mul_bound(a.y as int, b.x as int, SPAN as int, SPAN as int);
    }
    let along: i128 = a.dot(b);
    let across: i128 = a.perp_dot(b);
    let spread: i128 = if across < 0 {
        -across
    } else {
        across
    };
    along <= 0 || spread * 1_000_000_000 > ALIGNMENT_TANGENT * along
}

/// How the engines of a craft are to be driven.
#[derive(Clone, Copy, Debug, PartialEq, Eq, Structural)]
pub enum Drive {
    /// Turn: run the engines whose torque has the sign of `demand`, at full
    /// power, and shut the others down.
    Turn { demand: i128 },
    /// Push along a world direction, each engine throttled to its
    /// alignment with it; power is set again only where it is off by more
    /// than the tolerance.
    Fly { direction: Vec2 },
    /// Shut every engine down.
    Stop,
    /// Push along a world direction at full power: run the engines that
    /// are aligned with it and shut the others down.
    Thrust { direction: Vec2 },
}

/// The turning effect of an engine about the centre of mass: positive where
/// it turns the craft counter-clockwise.
pub open spec fn torque_spec(engine: Engine, center_of_mass: Vec2) -> int {
    engine.position.minus_spec(center_of_mass).perp_dot_spec(engine.direction)
}

/// How far an engine of a craft that heads along `heading` is aligned with
/// a world direction: the scalar product of its own world direction and
/// that direction, in millionths.
pub open spec fn alignment_spec(heading: Vec2, engine: Engine, direction: Vec2) -> int {
    heading.rotate_spec(engine.direction).dot_spec(direction)
}

/// The power at which an engine pushes along a world direction: its
/// alignment with it, in thousandths, and no more than full power either
/// way.
pub open spec fn throttle_spec(heading: Vec2, engine: Engine, direction: Vec2) -> int {
    let power = div_trunc(alignment_spec(heading, engine, direction), SCALE as int);
    if power > SCALE {
        SCALE as int
    } else if power < -SCALE {
        -SCALE
    } else {
        power
    }
}

/// Whether an engine is to run.
pub open spec fn runs_spec(spacecraft: Spacecraft, engine: Engine, how: Drive) -> bool {
    match how {
        Drive::Turn { demand } => (torque_spec(engine, spacecraft.center_of_mass) >= 0) == (demand
            >= 0),
        Drive::Fly { direction } => throttle_spec(spacecraft.heading, engine, direction) > 0,
        Drive::Stop => false,
        Drive::Thrust { direction } => throttle_spec(spacecraft.heading, engine, direction) > 0,
    }
}

/// The power that an engine is to run at.
pub open spec fn power_spec(spacecraft: Spacecraft, engine: Engine, how: Drive) -> int {
    match how {
        Drive::Fly { direction } => throttle_spec(spacecraft.heading, engine, direction),
        _ => SCALE as int,
    }
}

/// Whether the power of an engine that is to run has to be set: for a
/// turn, where it is not full; else where it is off by more than the
/// tolerance.
pub open spec fn sets_power_spec(spacecraft: Spacecraft, engine: Engine, how: Drive) -> bool {
    match how {
        Drive::Turn { demand } => engine.power != SCALE,
        _ => abs(engine.power - power_spec(spacecraft, engine, how)) > POWER_TOLERANCE,
    }
}

/// The commands for one component. Weapons get none. An engine is switched
/// where its state has to change, and its power is set where it is to run
/// and the power has to be set. Of the two signs that a turn compares, zero
/// counts as positive.
pub open spec fn engine_block(
    id: GameObjectId,
    spacecraft: Spacecraft,
    mount: Mount,
    how: Drive,
) -> Seq<Command> {
    match mount.component {
        Component::Weapon(_) => Seq::empty(),
        Component::Engine(engine) => drive_spec(
            id,
            mount.id,
            engine,
            runs_spec(spacecraft, engine, how),
            sets_power_spec(spacecraft, engine, how),
            power_spec(spacecraft, engine, how) as i64,
        ),
    }
}

/// The commands for each component, by its place in the craft.
pub open spec fn engine_blocks(id: GameObjectId, spacecraft: Spacecraft, how: Drive) -> spec_fn(
    int,
) -> Seq<Command> {
    |i: int| engine_block(id, spacecraft, spacecraft.components[i], how)
}

/// The commands that drive the engines of a craft, in the order of its
/// components.
pub open spec fn engine_commands(id: GameObjectId, spacecraft: Spacecraft, how: Drive) -> Seq<
    Command,
> {
    assemble(spacecraft.components.len() as nat, engine_blocks(id, spacecraft, how))
}

/// Whether every power that a command sets is more than none and at most
/// full.
pub open spec fn powers_in_range(commands: Seq<Command>) -> bool {
    forall|k: int|
        0 <= k < commands.len() ==> ((#[trigger] commands[k]).action matches ComponentCmd::SetPower(
            power,
        ) ==> 0 < power <= SCALE)
}

/// The power at which an engine pushes along a world direction.
fn throttle(heading: Vec2, engine: &Engine, direction: Vec2) -> (power: i64)
    requires
        heading.within(SCALE as int),
        engine.wf(),
        direction.within(SCALE as int),
    ensures
        power == throttle_spec(heading, *engine, direction),
        -SCALE <= power <= SCALE,
{
    let world: Vec2 = heading.rotate(engine.direction);
    assert(world.within(2 * SCALE));
    proof {
        lemma_mul_bound(world.x as int, direction.x as int, 2 * SCALE, SCALE as int);
        lemma_mul_bound(world.y as int, direction.y as int, 2 * SCALE, SCALE as int);
    }
    let along: i128 = world.dot(direction);
    let power: i128 = quotient(along, SCALE as i128);
    proof {
        crate::vec2::lemma_scaled_quotient(along as int, 2 * SCALE);
    }
    if power > 1000 {
        SCALE
    } else if power < -1000 {
        -SCALE
    } else {
        power as i64
    }
}

/// The commands that drive the engines of a craft.
pub fn drive_engines(spacecraft: (&GameObjectId, &Spacecraft), how: Drive) -> (result: Vec<Command>)
    requires
        spacecraft.1.wf(),
        how matches Drive::Fly { direction } ==> direction.within(SCALE as int),
        how matches Drive::Thrust { direction } ==> direction.within(SCALE as int),
    ensures
        result@ == engine_commands(*spacecraft.0, *spacecraft.1, how),
        powers_in_range(result@),
{
    proof {
        assert forall|k: int|
            0 <= k < engine_commands(*spacecraft.0, *spacecraft.1, how).len() implies ((
            #[trigger] engine_commands(
                *spacecraft.0,
                *spacecraft.1,
                how,
            )[k]).action matches ComponentCmd::SetPower(power) ==> 0 < power <= SCALE) by {
            lemma_power_in_range(*spacecraft.0, *spacecraft.1, how, k);
        }
    }
    let id: GameObjectId = *spacecraft.0;
    let craft: &Spacecraft = spacecraft.1;
    let ghost blocks = engine_blocks(id, *craft, how);
    let mut result: Vec<Command> = Vec::new();
    let mut i: usize = 0;
    proof {
        lemma_assemble_none(blocks);
    }
    while i < craft.components.len()
        invariant
            craft.wf(),
            how matches Drive::Fly { direction } ==> direction.within(SCALE as int),
            how matches Drive::Thrust { direction } ==> direction.within(SCALE as int),
            blocks == engine_blocks(id, *craft, how),
            i <= craft.components.len(),
            result@ == assemble(i as nat, blocks),
        decreases craft.components.len() - i,
    {
        let mount: Mount = craft.components[i];
        proof {
            lemma_assemble_step(i as nat, blocks);
        }
        match mount.component {
            Component::Weapon(_) => {
                assert(result@ + blocks(i as int) =~= result@);
            },
            Component::Engine(engine) => {
                let off_full: i64 = if engine.power >= SCALE {
                    engine.power - SCALE
                } else {
                    SCALE - engine.power
                };
                match how {
                    Drive::Turn { demand } => {
                        let lever: Vec2 = engine.position.minus(craft.center_of_mass);
                        let torque: i128 = lever.perp_dot(engine.direction);
                        let runs: bool = (torque >= 0) == (demand >= 0);
                        drive(&mut result, id, mount.id, &engine, runs, engine.power != SCALE, SCALE);
                    },
                    Drive::Fly { direction } => {
                        let power: i64 = throttle(craft.heading, &engine, direction);
                        let off: i64 = if engine.power >= power {
                            engine.power - power
                        } else {
                            power - engine.power
                        };
                        drive(&mut result, id, mount.id, &engine, power > 0, off > POWER_TOLERANCE, power);
                    },
                    Drive::Stop => {
                        drive(&mut result, id, mount.id, &engine, false, off_full > POWER_TOLERANCE, SCALE);
                    },
                    Drive::Thrust { direction } => {
                        let power: i64 = throttle(craft.heading, &engine, direction);
                        drive(&mut result, id, mount.id, &engine, power > 0, off_full > POWER_TOLERANCE, SCALE);
                    },
                }
            },
        }
        i += 1;
    }
    result
}

/// The turn still asked of a craft that is `offset` milliradians off its
/// course, in millionths of a radian per second: `offset` times `speed`, a
/// factor in thousandths, less the rate at which it turns already.
pub open spec fn turn_demand_spec(body: Body, offset: int, speed: int) -> int {
    offset * speed - body.angular_velocity * SCALE
}

/// Turns a craft toward a course from which its heading is `offset`
/// milliradians off, counter-clockwise positive. Each engine whose torque
/// has the sign of the turn still asked for runs at full power; the others
/// are shut down.
pub fn rotate_to_direction(spacecraft: (&GameObjectId, &Spacecraft), offset: i64, speed: i64) -> (result:
    Vec<Command>)
    requires
        spacecraft.1.wf(),
    ensures
        result@ == engine_commands(
            *spacecraft.0,
            *spacecraft.1,
            Drive::Turn {
                demand: turn_demand_spec(spacecraft.1.body, offset as int, speed as int) as i128,
            },
        ),
        powers_in_range(result@),
{
    proof {
        lemma_mul_bound(
            offset as int,
            speed as int,
            0x8000_0000_0000_0000,
            0x8000_0000_0000_0000,
        );
        lemma_mul_bound(
            spacecraft.1.body.angular_velocity as int,
            SCALE as int,
            LIMIT as int,
            SCALE as int,
        );
    }
    let asked: i128 = (offset as i128) * (speed as i128);
    let turning: i128 = (spacecraft.1.body.angular_velocity as i128) * (SCALE as i128);
    drive_engines(spacecraft, Drive::Turn { demand: asked - turning })
}

/// The direction from a craft to a body, as a unit vector.
pub open spec fn direction_to_spec(spacecraft: Spacecraft, target: Body) -> Vec2 {
    target.position.minus_spec(spacecraft.body.position).normalized_spec()
}

/// The direction from a craft to a body, as a unit vector; the zero vector
/// where the craft is at the body.
pub fn direction_to(spacecraft: &Spacecraft, target: &Body) -> (direction: Vec2)
    requires
        spacecraft.wf(),
        target.wf(),
    ensures
        direction == direction_to_spec(*spacecraft, *target),
        direction == target.position.minus_spec(spacecraft.body.position).normalized_spec(),
        direction.within(SCALE as int),
{
    target.position.minus(spacecraft.body.position).normalized()
}

/// The direction in which a craft has to gain speed to come to `target`:
/// from where it is to where the target is, less its own velocity, as a
/// unit vector.
pub open spec fn pursuit_spec(spacecraft: Spacecraft, target: Body) -> Vec2 {
    target.position.minus_spec(spacecraft.body.position).minus_spec(
        spacecraft.body.velocity,
    ).normalized_spec()
}

/// The direction in which a craft has to gain speed to come to `target`.
pub fn pursuit_direction(spacecraft: &Spacecraft, target: &Body) -> (direction: Vec2)
    requires
        spacecraft.wf(),
        target.wf(),
    ensures
        direction == pursuit_spec(*spacecraft, *target),
        direction.within(SCALE as int),
{
    target.position.minus(spacecraft.body.position).minus(spacecraft.body.velocity).normalized()
}

/// Flies toward `target` with every engine throttled to its alignment with
/// the direction of pursuit. An engine runs where that alignment is
/// positive; its power is set where it is off by more than the tolerance.
pub fn fly_to(spacecraft: (&GameObjectId, &Spacecraft), target: Body) -> (result: Vec<Command>)
    requires
        spacecraft.1.wf(),
        target.wf(),
    ensures
        result@ == engine_commands(
            *spacecraft.0,
            *spacecraft.1,
            Drive::Fly { direction: pursuit_spec(*spacecraft.1, target) },
        ),
        powers_in_range(result@),
{
    let direction: Vec2 = pursuit_direction(spacecraft.1, &target);
    drive_engines(spacecraft, Drive::Fly { direction })
}

/// The heading at which the best push of a craft goes along `wanted`, a
/// world direction: `wanted` taken into the frame of best push, which is
/// its product with the mirror image of the direction of best push.
pub open spec fn heading_for_spec(spacecraft: Spacecraft, wanted: Vec2) -> Vec2 {
    heading_spec(optimal_degree(spacecraft.components@)).mirrored_spec().rotate_spec(wanted)
}

/// The heading at which the best push of a craft goes along `wanted`.
fn heading_for(spacecraft: &Spacecraft, wanted: Vec2) -> (direction: Vec2)
    requires
        spacecraft.wf(),
        wanted.within(SPAN as int),
    ensures
        direction == heading_for_spec(*spacecraft, wanted),
        forall|bound: int| wanted.within(bound) ==> #[trigger] direction.within(2 * bound),
{
    let best: (Vec2, i64) = optimal_thrust_direction(spacecraft);
    let mirror: Vec2 = best.0.mirrored();
    assert(mirror.within(SCALE as int));
    mirror.rotate(wanted)
}

/// The correction from the velocity of a craft to `target_velocity`.
pub open spec fn correction_spec(spacecraft: Spacecraft, target_velocity: Vec2) -> Vec2 {
    target_velocity.minus_spec(spacecraft.body.velocity)
}

/// The heading a craft has to take so that its best push goes along the
/// correction from its velocity to `target_velocity`, as a unit vector.
pub open spec fn steering_spec(spacecraft: Spacecraft, target_velocity: Vec2) -> Vec2 {
    heading_for_spec(spacecraft, correction_spec(spacecraft, target_velocity)).normalized_spec()
}

/// The heading a craft has to take to correct its velocity to
/// `target_velocity`.
pub fn steering_direction(spacecraft: &Spacecraft, target_velocity: Vec2) -> (direction: Vec2)
    requires
        spacecraft.wf(),
        target_velocity.within(REACH as int),
    ensures
        direction == steering_spec(*spacecraft, target_velocity),
        direction.within(SCALE as int),
{
    let correction: Vec2 = target_velocity.minus(spacecraft.body.velocity);
    assert(correction.within(REACH + LIMIT));
    let turned: Vec2 = heading_for(spacecraft, correction);
    assert(turned.within(2 * (REACH + LIMIT)));
    turned.normalized()
}

/// How the engines are driven to reach `target_velocity`, for a craft whose
/// heading is `offset` milliradians off the one it has to take: stopped
/// where the velocity is reached within the tolerance, else turned where the
/// heading is off by more than a tenth of a radian, else those aligned with
/// the correction run at full power.
pub open spec fn achieve_drive(spacecraft: Spacecraft, target_velocity: Vec2, offset: int) -> Drive {
    if correction_spec(spacecraft, target_velocity).length_spec() < VELOCITY_TOLERANCE {
        Drive::Stop
    } else if misaligned_spec(spacecraft.heading, steering_spec(spacecraft, target_velocity)) {
        Drive::Turn { demand: turn_demand_spec(spacecraft.body, offset, SCALE as int) as i128 }
    } else {
        Drive::Thrust { direction: correction_spec(spacecraft, target_velocity).normalized_spec() }
    }
}

/// Brings a craft to `target_velocity`. `offset` is the angle from its
/// heading to `steering_direction`, in milliradians; it is read only where
/// the craft has to turn.
pub fn achieve_velocity(
    spacecraft: (&GameObjectId, &Spacecraft),
    target_velocity: Vec2,
    offset: i64,
) -> (result: Vec<Command>)
    requires
        spacecraft.1.wf(),
        target_velocity.within(REACH as int),
    ensures
        result@ == engine_commands(
            *spacecraft.0,
            *spacecraft.1,
            achieve_drive(*spacecraft.1, target_velocity, offset as int),
        ),
        powers_in_range(result@),
{
    let craft: &Spacecraft = spacecraft.1;
    let correction: Vec2 = target_velocity.minus(craft.body.velocity);
    if correction.length() < VELOCITY_TOLERANCE {
        return drive_engines(spacecraft, Drive::Stop);
    }
    let direction: Vec2 = steering_direction(craft, target_velocity);
    if misaligned(craft.heading, direction) {
        rotate_to_direction(spacecraft, offset, SCALE)
    } else {
        drive_engines(spacecraft, Drive::Thrust { direction: correction.normalized() })
    }
}

/// The heading a craft has to take so that its best push goes along the
/// direction of pursuit of `target`.
pub open spec fn impulse_steering_spec(spacecraft: Spacecraft, target: Body) -> Vec2 {
    heading_for_spec(spacecraft, pursuit_spec(spacecraft, target))
}

/// The heading a craft has to take so that its best push goes along the
/// direction of pursuit of `target`.
pub fn impulse_steering_direction(spacecraft: &Spacecraft, target: &Body) -> (direction: Vec2)
    requires
        spacecraft.wf(),
        target.wf(),
    ensures
        direction == impulse_steering_spec(*spacecraft, *target),
        direction.within(2 * SCALE),
{
    let pursuit: Vec2 = pursuit_direction(spacecraft, target);
    heading_for(spacecraft, pursuit)
}

/// How the engines are driven in the simpler flight toward `target`:
/// turned, at `rotation_speed`, where the direction of pursuit is more than
/// a tenth of a radian off the world direction of best push, else throttled
/// each to its alignment with the direction of pursuit.
pub open spec fn impulse_drive(
    spacecraft: Spacecraft,
    target: Body,
    rotation_speed: int,
    offset: int,
) -> Drive {
    if misaligned_spec(
        pursuit_spec(spacecraft, target),
        spacecraft.heading.rotate_spec(heading_spec(optimal_degree(spacecraft.components@))),
    ) {
        Drive::Turn { demand: turn_demand_spec(spacecraft.body, offset, rotation_speed) as i128 }
    } else {
        Drive::Fly { direction: pursuit_spec(spacecraft, target) }
    }
}

/// Flies toward `target` by turning first and pushing after. `offset` is
/// the angle from the craft's heading to `impulse_steering_direction`, in
/// milliradians; it is read only where the craft has to turn.
/// `rotation_speed` is in thousandths.
pub fn impulse_fly_to(
    spacecraft: (&GameObjectId, &Spacecraft),
    target: Body,
    rotation_speed: i64,
    offset: i64,
) -> (result: Vec<Command>)
    requires
        spacecraft.1.wf(),
        target.wf(),
    ensures
        result@ == engine_commands(
            *spacecraft.0,
            *spacecraft.1,
            impulse_drive(*spacecraft.1, target, rotation_speed as int, offset as int),
        ),
        powers_in_range(result@),
{
    let craft: &Spacecraft = spacecraft.1;
    let direction: Vec2 = pursuit_direction(craft, &target);
    let best: (Vec2, i64) = optimal_thrust_direction(craft);
    let push_direction: Vec2 = craft.heading.rotate(best.0);
    assert(push_direction.within(2 * SCALE));
    if misaligned(direction, push_direction) {
        rotate_to_direction(spacecraft, offset, rotation_speed)
    } else {
        drive_engines(spacecraft, Drive::Fly { direction })
    }
}

/// Safety factor on the stopping distance, in halves.
pub const SAFETY_HALVES: i128 = 3;

/// The speed at which a craft closes on `target`: its velocity relative to
/// the target along the line to it, and zero where it recedes.
pub open spec fn closing_speed_spec(spacecraft: Spacecraft, target: Body) -> int {
    let along = div_trunc(
        spacecraft.body.velocity.minus_spec(target.velocity).dot_spec(
            direction_to_spec(spacecraft, target),
        ),
        SCALE as int,
    );
    if along > 0 {
        along
    } else {
        0
    }
}

/// The distance a craft needs to stop relative to `target`: the braking
/// distance at its closing speed under its best thrust, plus what it covers
/// at its relative speed while turning round, times one and a half. Zero
/// for a craft without thrust.
pub open spec fn stopping_distance_spec(spacecraft: Spacecraft, target: Body) -> int {
    let thrust = max_thrust_spec(spacecraft.components@);
    let closing = closing_speed_spec(spacecraft, target);
    let relative = spacecraft.body.velocity.minus_spec(target.velocity);
    if thrust > 0 {
        ((closing * closing * spacecraft.mass) / (2 * thrust * SCALE) + relative.length_spec()
            * ROTATION_TIME) * SAFETY_HALVES / 2
    } else {
        0
    }
}

/// Whether a craft has to brake now: it closes on `target` and is within
/// its stopping distance.
pub open spec fn braking_spec(spacecraft: Spacecraft, target: Body) -> bool {
    &&& target.position.minus_spec(spacecraft.body.position).length_spec() <= stopping_distance_spec(
        spacecraft,
        target,
    )
    &&& closing_speed_spec(spacecraft, target) > 0
}

/// The velocity a craft should have on its way to `target`: the target's
/// own where it has to brake, else the target's plus its best thrust along
/// the line to the target.
pub open spec fn approach_velocity_spec(spacecraft: Spacecraft, target: Body) -> Vec2 {
    if braking_spec(spacecraft, target) {
        target.velocity
    } else {
        target.velocity.plus_spec(
            direction_to_spec(spacecraft, target).scaled_spec(
                max_thrust_spec(spacecraft.components@),
            ),
        )
    }
}

/// The velocity a craft should have on its way to `target`.
pub fn approach_velocity(spacecraft: &Spacecraft, target: &Body) -> (velocity: Vec2)
    requires
        spacecraft.wf(),
        target.wf(),
    ensures
        velocity == approach_velocity_spec(*spacecraft, *target),
        velocity.within(REACH as int),
{
    let difference: Vec2 = target.position.minus(spacecraft.body.position);
    let distance: i64 = difference.length();
    let line: Vec2 = direction_to(spacecraft, target);
    let relative: Vec2 = spacecraft.body.velocity.minus(target.velocity);
    assert(relative.within(2 * LIMIT));
    proof {
        lemma_mul_bound(relative.x as int, line.x as int, 2 * LIMIT, SCALE as int);
        lemma_mul_bound(relative.y as int, line.y as int, 2 * LIMIT, SCALE as int);
    }
    let along: i128 = quotient(relative.dot(line), SCALE as i128);
    proof {
        crate::vec2::lemma_scaled_quotient(relative.dot_spec(line), 2 * LIMIT);
    }
    let closing: i128 = if along > 0 {
        along
    } else {
        0
    };
    let best: (Vec2, i64) = optimal_thrust_direction(spacecraft);
    let thrust: i64 = best.1;
    let stopping: i128 = if thrust > 0 {
        proof {
            lemma_mul_bound(closing as int, closing as int, 4 * LIMIT, 4 * LIMIT);
            lemma_mul_bound(
                closing * closing,
                spacecraft.mass as int,
                (4 * LIMIT) * (4 * LIMIT),
                LIMIT as int,
            );
            assert(closing * closing >= 0) by (nonlinear_arith);
            assert(closing * closing * spacecraft.mass >= 0) by (nonlinear_arith)
                requires
                    closing * closing >= 0,
                    spacecraft.mass >= 0,
            ;
            assert(0 < 2 * thrust * SCALE <= 2 * MAX_THRUST * SCALE) by (nonlinear_arith)
                requires
                    0 < thrust <= MAX_THRUST,
            ;
        }
        let energy: i128 = closing * closing * (spacecraft.mass as i128);
        let braking: i128 = energy / (2 * (thrust as i128) * (SCALE as i128));
        proof {
            assert(0 <= (energy as int) / (2 * thrust * SCALE) <= energy) by (nonlinear_arith)
                requires
                    energy >= 0,
                    2 * thrust * SCALE > 0,
            ;
        }
        let coasting: i128 = (relative.length() as i128) * ROTATION_TIME;
        (braking + coasting) * SAFETY_HALVES / 2
    } else {
        0
    };
    if (distance as i128) <= stopping && closing > 0 {
        target.velocity
    } else {
        let boost: Vec2 = line.scaled(thrust);
        target.velocity.plus(boost)
    }
}

/// Flies to `target` and stops there: brakes to the target's velocity
/// within the stopping distance, and makes for it at full thrust outside.
/// `offset` is the angle from the craft's heading to `steering_direction`
/// for `approach_velocity`, in milliradians; it is read only where the
/// craft has to turn.
pub fn improved_fly_to(spacecraft: (&GameObjectId, &Spacecraft), target: Body, offset: i64) -> (result:
    Vec<Command>)
    requires
        spacecraft.1.wf(),
        target.wf(),
    ensures
        result@ == engine_commands(
            *spacecraft.0,
            *spacecraft.1,
            achieve_drive(
                *spacecraft.1,
                approach_velocity_spec(*spacecraft.1, target),
                offset as int,
            ),
        ),
        powers_in_range(result@),
{
    let velocity: Vec2 = approach_velocity(spacecraft.1, &target);
    achieve_velocity(spacecraft, velocity, offset)
}

/// What an engine is after its own commands: it runs where it is to run,
/// at the power asked where that had to be set, and is the same engine
/// otherwise.
proof fn lemma_engine_driven(id: GameObjectId, spacecraft: Spacecraft, mount: Mount, how: Drive)
    requires
        mount.component is Engine,
    ensures
        mount_after(id, mount, engine_block(id, spacecraft, mount, how)) == (Mount {
            id: mount.id,
            component: Component::Engine(
                Engine {
                    active: runs_spec(spacecraft, mount.component->Engine_0, how),
                    power: if runs_spec(spacecraft, mount.component->Engine_0, how)
                        && sets_power_spec(spacecraft, mount.component->Engine_0, how) {
                        power_spec(spacecraft, mount.component->Engine_0, how) as i64
                    } else {
                        mount.component->Engine_0.power
                    },
                    ..mount.component->Engine_0
                },
            ),
        }),
{
    let block = engine_block(id, spacecraft, mount, how);
    reveal_with_fuel(mount_after, 3);
    if block.len() == 1 {
        assert(block.drop_first() =~= Seq::empty());
    } else if block.len() == 2 {
        assert(block.drop_first().drop_first() =~= Seq::empty());
    }
}

/// One engine settles: after its own commands it is given none.
proof fn lemma_engine_settles(
    id: GameObjectId,
    before: Spacecraft,
    after: Spacecraft,
    mount: Mount,
    how: Drive,
)
    requires
        after.heading == before.heading,
        after.center_of_mass == before.center_of_mass,
    ensures
        engine_block(
            id,
            after,
            mount_after(id, mount, engine_block(id, before, mount, how)),
            how,
        ).len() == 0,
{
    match mount.component {
        Component::Weapon(_) => {
            assert(engine_block(id, before, mount, how) =~= Seq::empty());
        },
        Component::Engine(engine) => {
            lemma_engine_driven(id, before, mount, how);
        },
    }
}

/// Driving settles: once the host has carried out the commands that drive
/// the engines in one way, driving them the same way from the same snapshot
/// asks for nothing more.
pub proof fn lemma_drive_settles(id: GameObjectId, before: Spacecraft, after: Spacecraft, how: Drive)
    requires
        before.wf(),
        carried_out(id, before, engine_commands(id, before, how), after),
    ensures
        engine_commands(id, after, how) == Seq::<Command>::empty(),
{
    let blocks = engine_blocks(id, before, how);
    let count = before.components.len() as nat;
    let again = engine_blocks(id, after, how);
    assert forall|i: int| 0 <= i < count implies (#[trigger] again(i)).len() == 0 by {
        let mount = before.components[i];
        lemma_after_assemble(id, before.components@, blocks, count, i);
        assert(after.components[i] == mount_after(id, mount, blocks(i)));
        lemma_engine_settles(id, before, after, mount, how);
    }
    lemma_assemble_nothing(count, again);
}

/// No power is set beyond full throttle: every power that a command sets
/// is more than none and at most full.
pub proof fn lemma_power_in_range(id: GameObjectId, spacecraft: Spacecraft, how: Drive, k: int)
    requires
        0 <= k < engine_commands(id, spacecraft, how).len(),
    ensures
        engine_commands(id, spacecraft, how)[k].action matches ComponentCmd::SetPower(power) ==> 0
            < power <= SCALE,
{
    let blocks = engine_blocks(id, spacecraft, how);
    let holds = |c: Command| c.action matches ComponentCmd::SetPower(power) ==> 0 < power <= SCALE;
    lemma_assemble_all(spacecraft.components.len() as nat, blocks, holds);
    assert(holds(engine_commands(id, spacecraft, how)[k]));
}

/// Once a craft has the velocity asked of it within the tolerance, its
/// engines are stopped: every command shuts an engine down, and none sets
/// a power.
pub proof fn lemma_velocity_reached(
    id: GameObjectId,
    spacecraft: Spacecraft,
    target_velocity: Vec2,
    offset: int,
)
    requires
        correction_spec(spacecraft, target_velocity).length_spec() < VELOCITY_TOLERANCE,
    ensures
        achieve_drive(spacecraft, target_velocity, offset) == Drive::Stop,
        forall|k: int|
            0 <= k < engine_commands(id, spacecraft, Drive::Stop).len() ==> (
            #[trigger] engine_commands(id, spacecraft, Drive::Stop)[k]).action
                == ComponentCmd::SetActive(false),
{
    let blocks = engine_blocks(id, spacecraft, Drive::Stop);
    let holds = |c: Command| c.action == ComponentCmd::SetActive(false);
    lemma_assemble_all(spacecraft.components.len() as nat, blocks, holds);
    assert forall|k: int| 0 <= k < engine_commands(id, spacecraft, Drive::Stop).len() implies (
    #[trigger] engine_commands(id, spacecraft, Drive::Stop)[k]).action == ComponentCmd::SetActive(
        false,
    ) by {
        assert(holds(engine_commands(id, spacecraft, Drive::Stop)[k]));
    }
}

/// Whether a component needs no power set to fly along a world direction:
/// an engine whose power is within the tolerance of the power worked out
/// for it, or a weapon.
pub open spec fn within_tolerance(mount: Mount, heading: Vec2, direction: Vec2) -> bool {
    match mount.component {
        Component::Engine(engine) => abs(engine.power - throttle_spec(heading, engine, direction))
            <= POWER_TOLERANCE,
        Component::Weapon(_) => true,
    }
}

/// Where every engine already has its power within the tolerance of the
/// power worked out for it, flying sets no power.
pub proof fn lemma_no_power_within_tolerance(
    id: GameObjectId,
    spacecraft: Spacecraft,
    direction: Vec2,
    k: int,
)
    requires
        forall|i: int|
            0 <= i < spacecraft.components.len() ==> within_tolerance(
                #[trigger] spacecraft.components[i],
                spacecraft.heading,
                direction,
            ),
        0 <= k < engine_commands(id, spacecraft, Drive::Fly { direction }).len(),
    ensures
        !(engine_commands(id, spacecraft, Drive::Fly { direction })[k].action is SetPower),
{
    let how = Drive::Fly { direction };
    let blocks = engine_blocks(id, spacecraft, how);
    let holds = |c: Command| !(c.action is SetPower);
    assert forall|i: int, j: int|
        0 <= i < spacecraft.components.len() && 0 <= j < blocks(i).len() implies holds(
        #[trigger] blocks(i)[j],
    ) by {
        assert(within_tolerance(spacecraft.components[i], spacecraft.heading, direction));
    }
    lemma_assemble_all(spacecraft.components.len() as nat, blocks, holds);
    assert(holds(engine_commands(id, spacecraft, how)[k]));
}

/// What one component adds to the force along a world direction: the
/// thrust of an engine that runs, times its alignment with the direction.
pub open spec fn mount_closing(mount: Mount, heading: Vec2, direction: Vec2) -> int {
    match mount.component {
        Component::Engine(engine) => if engine.active {
            engine.thrust * alignment_spec(heading, engine, direction)
        } else {
            0
        },
        Component::Weapon(_) => 0,
    }
}

/// The force of the running engines of a craft along a world direction, at
/// full power.
pub open spec fn closing_push(mounts: Seq<Mount>, heading: Vec2, direction: Vec2) -> int
    decreases mounts.len(),
{
    if mounts.len() == 0 {
        0
    } else {
        closing_push(mounts.drop_last(), heading, direction) + mount_closing(
            mounts.last(),
            heading,
            direction,
        )
    }
}

/// Where no component pushes backward, the engines together do not, and
/// where one pushes forward, they do.
proof fn lemma_closing_sum(mounts: Seq<Mount>, heading: Vec2, direction: Vec2, place: int)
    requires
        forall|i: int| 0 <= i < mounts.len() ==> mount_closing(#[trigger] mounts[i], heading, direction) >= 0,
    ensures
        closing_push(mounts, heading, direction) >= 0,
        0 <= place < mounts.len() && mount_closing(mounts[place], heading, direction) > 0
            ==> closing_push(mounts, heading, direction) > 0,
    decreases mounts.len(),
{
    if mounts.len() > 0 {
        let rest = mounts.drop_last();
        assert forall|i: int| 0 <= i < rest.len() implies mount_closing(
            #[trigger] rest[i],
            heading,
            direction,
        ) >= 0 by {
            assert(rest[i] == mounts[i]);
        }
        lemma_closing_sum(rest, heading, direction, place);
        assert(mounts.last() == mounts[mounts.len() - 1]);
        if 0 <= place < rest.len() {
            assert(rest[place] == mounts[place]);
        }
    }
}

/// Whether a component runs exactly where it is aligned with a world
/// direction: an engine that is on where its alignment is at least a
/// thousandth and off elsewhere, or a weapon.
pub open spec fn runs_aligned(mount: Mount, heading: Vec2, direction: Vec2) -> bool {
    match mount.component {
        Component::Engine(engine) => engine.active == (alignment_spec(heading, engine, direction)
            >= SCALE),
        Component::Weapon(_) => true,
    }
}

/// Whether a component is an engine with thrust that is aligned with a
/// world direction.
pub open spec fn pushes_forward(mount: Mount, heading: Vec2, direction: Vec2) -> bool {
    match mount.component {
        Component::Engine(engine) => engine.thrust > 0 && alignment_spec(heading, engine, direction)
            >= SCALE,
        Component::Weapon(_) => false,
    }
}

/// Full thrust closes on the velocity asked for: once the host has carried
/// out the commands, the engines that run are those aligned with the
/// correction. So the force of the running engines along the correction is
/// not negative, and it is positive where an engine with thrust is aligned
/// with it.
pub proof fn lemma_thrust_closes(
    id: GameObjectId,
    before: Spacecraft,
    after: Spacecraft,
    direction: Vec2,
    place: int,
)
    requires
        before.wf(),
        carried_out(id, before, engine_commands(id, before, Drive::Thrust { direction }), after),
    ensures
        forall|i: int|
            0 <= i < after.components.len() ==> runs_aligned(
                #[trigger] after.components[i],
                after.heading,
                direction,
            ),
        closing_push(after.components@, after.heading, direction) >= 0,
        0 <= place < before.components.len() && pushes_forward(
            before.components[place],
            before.heading,
            direction,
        ) ==> closing_push(after.components@, after.heading, direction) > 0,
{
    let how = Drive::Thrust { direction };
    let blocks = engine_blocks(id, before, how);
    let count = before.components.len() as nat;
    assert forall|i: int| 0 <= i < count implies runs_aligned(
        #[trigger] after.components[i],
        after.heading,
        direction,
    ) && mount_closing(after.components[i], after.heading, direction) >= 0 && (pushes_forward(
        before.components[i],
        before.heading,
        direction,
    ) ==> mount_closing(after.components[i], after.heading, direction) > 0) by {
        let mount = before.components[i];
        lemma_after_assemble(id, before.components@, blocks, count, i);
        assert(after.components[i] == mount_after(id, mount, blocks(i)));
        assert(mount.component.wf());
        match mount.component {
            Component::Weapon(_) => {
                assert(blocks(i) =~= Seq::empty());
            },
            Component::Engine(engine) => {
                lemma_engine_driven(id, before, mount, how);
                let alignment = alignment_spec(before.heading, engine, direction);
                assert(throttle_spec(before.heading, engine, direction) > 0 <==> alignment >= SCALE);
                if alignment >= SCALE {
                    assert(engine.thrust * alignment >= 0) by (nonlinear_arith)
                        requires
                            engine.thrust >= 0,
                            alignment >= 0,
                    ;
                    if engine.thrust > 0 {
                        assert(engine.thrust * alignment > 0) by (nonlinear_arith)
                            requires
                                engine.thrust > 0,
                                alignment > 0,
                        ;
                    }
                }
            },
        }
    }
    assert forall|i: int| 0 <= i < after.components@.len() implies mount_closing(
        #[trigger] after.components@[i],
        after.heading,
        direction,
    ) >= 0 by {
        assert(mount_closing(after.components[i], after.heading, direction) >= 0);
    }
    lemma_closing_sum(after.components@, after.heading, direction, place);
    if 0 <= place < before.components.len() && pushes_forward(
        before.components[place],
        before.heading,
        direction,
    ) {
        assert(mount_closing(after.components[place], after.heading, direction) > 0);
        assert(after.components@[place] == after.components[place]);
    }
}

/// Commands change neither where an engine points nor how hard it pushes.
pub proof fn lemma_push_kept(id: GameObjectId, mount: Mount, commands: Seq<Command>, candidate: Vec2)
    ensures
        mount_push(mount_after(id, mount, commands), candidate) == mount_push(mount, candidate),
    decreases commands.len(),
{
    if commands.len() > 0 {
        let next = if commands[0].spacecraft == id && commands[0].component == mount.id {
            Mount { id: mount.id, component: acted(mount.component, commands[0].action) }
        } else {
            mount
        };
        lemma_push_kept(id, next, commands.drop_first(), candidate);
    }
}

/// Components that push alike one by one push alike together.
pub proof fn lemma_push_alike(first: Seq<Mount>, second: Seq<Mount>, candidate: Vec2)
    requires
        first.len() == second.len(),
        forall|i: int|
            0 <= i < first.len() ==> mount_push(#[trigger] first[i], candidate) == mount_push(
                second[i],
                candidate,
            ),
    ensures
        push_along(first, candidate) == push_along(second, candidate),
    decreases first.len(),
{
    if first.len() > 0 {
        assert forall|i: int| 0 <= i < first.drop_last().len() implies mount_push(
            #[trigger] first.drop_last()[i],
            candidate,
        ) == mount_push(second.drop_last()[i], candidate) by {
            assert(first.drop_last()[i] == first[i]);
            assert(second.drop_last()[i] == second[i]);
        }
        lemma_push_alike(first.drop_last(), second.drop_last(), candidate);
        assert(first.last() == first[first.len() - 1]);
    }
}

/// Crafts that push alike along every heading have the same heading of
/// hardest push.
pub proof fn lemma_scan_alike(first: Seq<Mount>, second: Seq<Mount>, base: int, coarse: nat, fine: nat)
    requires
        forall|degrees: int| push_at(first, degrees) == push_at(second, degrees),
    ensures
        coarse_scan(first, coarse) == coarse_scan(second, coarse),
        fine_scan(first, base, fine) == fine_scan(second, base, fine),
    decreases coarse + fine,
{
    if coarse > 0 {
        lemma_scan_alike(first, second, base, (coarse - 1) as nat, fine);
    }
    if fine > 0 {
        lemma_scan_alike(first, second, base, coarse, (fine - 1) as nat);
    }
}

/// Commands change no engine's thrust.
pub proof fn lemma_mount_thrust_kept(id: GameObjectId, mount: Mount, commands: Seq<Command>)
    ensures
        mount_thrust(mount_after(id, mount, commands)) == mount_thrust(mount),
    decreases commands.len(),
{
    if commands.len() > 0 {
        let next = if commands[0].spacecraft == id && commands[0].component == mount.id {
            Mount { id: mount.id, component: acted(mount.component, commands[0].action) }
        } else {
            mount
        };
        lemma_mount_thrust_kept(id, next, commands.drop_first());
    }
}

/// Components of the same thrust one by one have the same thrust together.
pub proof fn lemma_thrust_alike(first: Seq<Mount>, second: Seq<Mount>)
    requires
        first.len() == second.len(),
        forall|i: int| 0 <= i < first.len() ==> mount_thrust(#[trigger] first[i]) == mount_thrust(second[i]),
    ensures
        total_thrust(first) == total_thrust(second),
    decreases first.len(),
{
    if first.len() > 0 {
        assert forall|i: int| 0 <= i < first.drop_last().len() implies mount_thrust(
            #[trigger] first.drop_last()[i],
        ) == mount_thrust(second.drop_last()[i]) by {
            assert(first.drop_last()[i] == first[i]);
            assert(second.drop_last()[i] == second[i]);
        }
        lemma_thrust_alike(first.drop_last(), second.drop_last());
        assert(first.last() == first[first.len() - 1]);
    }
}

/// Carrying out commands leaves the heading of hardest push and the thrust
/// along it as they were.
pub proof fn lemma_thrust_kept(
    id: GameObjectId,
    before: Spacecraft,
    commands: Seq<Command>,
    after: Spacecraft,
)
    requires
        carried_out(id, before, commands, after),
    ensures
        optimal_degree(after.components@) == optimal_degree(before.components@),
        max_thrust_spec(after.components@) == max_thrust_spec(before.components@),
{
    assert forall|degrees: int| push_at(after.components@, degrees) == push_at(
        before.components@,
        degrees,
    ) by {
        let candidate = fine_heading_spec(degrees);
        assert forall|i: int| 0 <= i < after.components@.len() implies mount_push(
            #[trigger] after.components@[i],
            candidate,
        ) == mount_push(before.components@[i], candidate) by {
            lemma_push_kept(id, before.components@[i], commands, candidate);
        }
        lemma_push_alike(after.components@, before.components@, candidate);
    }
    let base = coarse_scan(before.components@, COARSE_STEPS as nat);
    lemma_scan_alike(after.components@, before.components@, base, COARSE_STEPS as nat, FINE_STEPS as nat);
    assert forall|i: int| 0 <= i < after.components@.len() implies mount_thrust(
        #[trigger] after.components@[i],
    ) == mount_thrust(before.components@[i]) by {
        lemma_mount_thrust_kept(id, before.components@[i], commands);
    }
    lemma_thrust_alike(after.components@, before.components@);
}

/// Reaching a velocity settles: once the host has carried out the commands
/// of one call, a second call on the same snapshot asks for nothing more.
pub proof fn lemma_achieve_velocity_settles(
    id: GameObjectId,
    before: Spacecraft,
    after: Spacecraft,
    target_velocity: Vec2,
    offset: int,
)
    requires
        before.wf(),
        carried_out(
            id,
            before,
            engine_commands(id, before, achieve_drive(before, target_velocity, offset)),
            after,
        ),
    ensures
        achieve_drive(after, target_velocity, offset) == achieve_drive(
            before,
            target_velocity,
            offset,
        ),
        engine_commands(id, after, achieve_drive(after, target_velocity, offset)) == Seq::<
            Command,
        >::empty(),
{
    let how = achieve_drive(before, target_velocity, offset);
    lemma_thrust_kept(id, before, engine_commands(id, before, how), after);
    lemma_drive_settles(id, before, after, how);
}

/// The simpler flight settles: once the host has carried out the commands
/// of one call, a second call on the same snapshot asks for nothing more,
/// and sets no power again.
pub proof fn lemma_impulse_fly_to_settles(
    id: GameObjectId,
    before: Spacecraft,
    after: Spacecraft,
    target: Body,
    rotation_speed: int,
    offset: int,
)
    requires
        before.wf(),
        carried_out(
            id,
            before,
            engine_commands(id, before, impulse_drive(before, target, rotation_speed, offset)),
            after,
        ),
    ensures
        impulse_drive(after, target, rotation_speed, offset) == impulse_drive(
            before,
            target,
            rotation_speed,
            offset,
        ),
        engine_commands(id, after, impulse_drive(after, target, rotation_speed, offset)) == Seq::<
            Command,
        >::empty(),
{
    let how = impulse_drive(before, target, rotation_speed, offset);
    lemma_thrust_kept(id, before, engine_commands(id, before, how), after);
    lemma_drive_settles(id, before, after, how);
}

/// No command names what is not there: every command for the engines of a
/// craft is addressed to that craft and to one of its components.
pub proof fn lemma_engine_commands_addressed(id: GameObjectId, spacecraft: Spacecraft, how: Drive, k: int)
    requires
        0 <= k < engine_commands(id, spacecraft, how).len(),
    ensures
        engine_commands(id, spacecraft, how)[k].spacecraft == id,
        exists|i: int|
            0 <= i < spacecraft.components.len() && (#[trigger] spacecraft.components[i]).id
                == engine_commands(id, spacecraft, how)[k].component,
{
    let blocks = engine_blocks(id, spacecraft, how);
    let holds = |c: Command|
        c.spacecraft == id && exists|i: int|
            0 <= i < spacecraft.components.len() && (#[trigger] spacecraft.components[i]).id
                == c.component;
    assert forall|i: int, j: int|
        0 <= i < spacecraft.components.len() && 0 <= j < blocks(i).len() implies holds(
        #[trigger] blocks(i)[j],
    ) by {
        assert(spacecraft.components[i].id == blocks(i)[j].component);
    }
    lemma_assemble_all(spacecraft.components.len() as nat, blocks, holds);
    assert(holds(engine_commands(id, spacecraft, how)[k]));
}

/// How far a vector reaches along the two axes together.
pub open spec fn spread(candidate: Vec2) -> int {
    abs(candidate.x as int) + abs(candidate.y as int)
}

/// Whether the components push like four engines of one thrust that point
/// along the two axes, both ways: along every direction with that thrust
/// times the reach of the direction along the axes.
pub open spec fn pushes_like_cross(mounts: Seq<Mount>, thrust: int) -> bool {
    forall|candidate: Vec2| #[trigger]
        push_along(mounts, candidate) == thrust * (SCALE * spread(candidate))
}

/// Four engines of one thrust that point along the two axes, both ways,
/// push like a cross, wherever they are mounted and whether or not they
/// run.
pub proof fn lemma_four_engines_push_like_cross(mounts: Seq<Mount>, thrust: int)
    requires
        thrust >= 0,
        mounts.len() == 4,
        mounts[0].component matches Component::Engine(engine) && engine.thrust == thrust
            && engine.direction.x == 1000 && engine.direction.y == 0,
        mounts[1].component matches Component::Engine(engine) && engine.thrust == thrust
            && engine.direction.x == 0 && engine.direction.y == 1000,
        mounts[2].component matches Component::Engine(engine) && engine.thrust == thrust
            && engine.direction.x == -1000 && engine.direction.y == 0,
        mounts[3].component matches Component::Engine(engine) && engine.thrust == thrust
            && engine.direction.x == 0 && engine.direction.y == -1000,
    ensures
        pushes_like_cross(mounts, thrust),
        total_thrust(mounts) == 4 * thrust,
{
    let three = mounts.drop_last();
    let two = three.drop_last();
    let one = two.drop_last();
    assert(one.drop_last() =~= Seq::<Mount>::empty());
    assert(one.last() == mounts[0] && two.last() == mounts[1] && three.last() == mounts[2]
        && mounts.last() == mounts[3]);
    reveal_with_fuel(push_along, 5);
    reveal_with_fuel(total_thrust, 5);
    assert forall|candidate: Vec2| #[trigger]
        push_along(mounts, candidate) == thrust * (SCALE * spread(candidate)) by {
        let x = candidate.x as int;
        let y = candidate.y as int;
        assert(mount_push(mounts[0], candidate) + mount_push(mounts[2], candidate) == thrust * (
        SCALE * abs(x))) by (nonlinear_arith)
            requires
                mount_push(mounts[0], candidate) == if 1000 * x + 0 * y > 0 {
                    (1000 * x + 0 * y) * thrust
                } else {
                    0
                },
                mount_push(mounts[2], candidate) == if (-1000) * x + 0 * y > 0 {
                    ((-1000) * x + 0 * y) * thrust
                } else {
                    0
                },
                abs(x) == if x < 0 { -x } else { x },
                SCALE == 1000,
        ;
        assert(mount_push(mounts[1], candidate) + mount_push(mounts[3], candidate) == thrust * (
        SCALE * abs(y))) by (nonlinear_arith)
            requires
                mount_push(mounts[1], candidate) == if 0 * x + 1000 * y > 0 {
                    (0 * x + 1000 * y) * thrust
                } else {
                    0
                },
                mount_push(mounts[3], candidate) == if 0 * x + (-1000) * y > 0 {
                    (0 * x + (-1000) * y) * thrust
                } else {
                    0
                },
                abs(y) == if y < 0 { -y } else { y },
                SCALE == 1000,
        ;
        assert(thrust * (SCALE * abs(x)) + thrust * (SCALE * abs(y)) == thrust * (SCALE * spread(
            candidate,
        ))) by (nonlinear_arith)
            requires
                spread(candidate) == abs(x) + abs(y),
        ;
    }
}

/// Of two headings, components that push like a cross push harder along
/// the one that reaches further along the axes.
proof fn lemma_cross_compare(mounts: Seq<Mount>, thrust: int, best: int, candidate: int)
    requires
        pushes_like_cross(mounts, thrust),
        thrust > 0,
    ensures
        push_at(mounts, best) < push_at(mounts, candidate) <==> spread(fine_heading_spec(best))
            < spread(fine_heading_spec(candidate)),
{
    let a = spread(fine_heading_spec(best));
    let b = spread(fine_heading_spec(candidate));
    assert(push_at(mounts, best) == thrust * (SCALE * a));
    assert(push_at(mounts, candidate) == thrust * (SCALE * b));
    assert(thrust * (SCALE * a) < thrust * (SCALE * b) <==> a < b) by (nonlinear_arith)
        requires
            thrust > 0,
            SCALE == 1000,
    ;
}

/// The coarse scan of components that push like a cross stops at forty
/// degrees, the first of the steps nearest to a bisector.
proof fn lemma_cross_coarse(mounts: Seq<Mount>, thrust: int)
    requires
        pushes_like_cross(mounts, thrust),
        thrust > 0,
    ensures
        coarse_scan(mounts, COARSE_STEPS as nat) == 40,
{
    reveal(quadrant_cosine_spec);
    assert(spread(fine_heading_spec(0)) == 1000000);
    assert(spread(fine_heading_spec(10)) == 1158456);
    assert(spread(fine_heading_spec(20)) == 1281713);
    assert(spread(fine_heading_spec(30)) == 1366025);
    assert(spread(fine_heading_spec(40)) == 1408832);
    assert(spread(fine_heading_spec(50)) == 1408832);
    assert(spread(fine_heading_spec(60)) == 1366025);
    assert(spread(fine_heading_spec(70)) == 1281713);
    assert(spread(fine_heading_spec(80)) == 1158456);
    assert(spread(fine_heading_spec(90)) == 1000000);
    assert(spread(fine_heading_spec(100)) == 1158456);
    assert(spread(fine_heading_spec(110)) == 1281713);
    assert(spread(fine_heading_spec(120)) == 1366025);
    assert(spread(fine_heading_spec(130)) == 1408832);
    assert(spread(fine_heading_spec(140)) == 1408832);
    assert(spread(fine_heading_spec(150)) == 1366025);
    assert(spread(fine_heading_spec(160)) == 1281713);
    assert(spread(fine_heading_spec(170)) == 1158456);
    assert(spread(fine_heading_spec(180)) == 1000000);
    assert(spread(fine_heading_spec(190)) == 1158456);
    assert(spread(fine_heading_spec(200)) == 1281713);
    assert(spread(fine_heading_spec(210)) == 1366025);
    assert(spread(fine_heading_spec(220)) == 1408832);
    assert(spread(fine_heading_spec(230)) == 1408832);
    assert(spread(fine_heading_spec(240)) == 1366025);
    assert(spread(fine_heading_spec(250)) == 1281713);
    assert(spread(fine_heading_spec(260)) == 1158456);
    assert(spread(fine_heading_spec(270)) == 1000000);
    assert(spread(fine_heading_spec(280)) == 1158456);
    assert(spread(fine_heading_spec(290)) == 1281713);
    assert(spread(fine_heading_spec(300)) == 1366025);
    assert(spread(fine_heading_spec(310)) == 1408832);
    assert(spread(fine_heading_spec(320)) == 1408832);
    assert(spread(fine_heading_spec(330)) == 1366025);
    assert(spread(fine_heading_spec(340)) == 1281713);
    assert(spread(fine_heading_spec(350)) == 1158456);
    assert(coarse_scan(mounts, 0) == 0);
    lemma_cross_compare(mounts, thrust, 0, 10);
    assert(coarse_scan(mounts, 1) == 10);
    lemma_cross_compare(mounts, thrust, 10, 20);
    assert(coarse_scan(mounts, 2) == 20);
    lemma_cross_compare(mounts, thrust, 20, 30);
    assert(coarse_scan(mounts, 3) == 30);
    lemma_cross_compare(mounts, thrust, 30, 40);
    assert(coarse_scan(mounts, 4) == 40);
    lemma_cross_compare(mounts, thrust, 40, 50);
    assert(coarse_scan(mounts, 5) == 40);
    lemma_cross_compare(mounts, thrust, 40, 60);
    assert(coarse_scan(mounts, 6) == 40);
    lemma_cross_compare(mounts, thrust, 40, 70);
    assert(coarse_scan(mounts, 7) == 40);
    lemma_cross_compare(mounts, thrust, 40, 80);
    assert(coarse_scan(mounts, 8) == 40);
    lemma_cross_compare(mounts, thrust, 40, 90);
    assert(coarse_scan(mounts, 9) == 40);
    lemma_cross_compare(mounts, thrust, 40, 100);
    assert(coarse_scan(mounts, 10) == 40);
    lemma_cross_compare(mounts, thrust, 40, 110);
    assert(coarse_scan(mounts, 11) == 40);
    lemma_cross_compare(mounts, thrust, 40, 120);
    assert(coarse_scan(mounts, 12) == 40);
    lemma_cross_compare(mounts, thrust, 40, 130);
    assert(coarse_scan(mounts, 13) == 40);
    lemma_cross_compare(mounts, thrust, 40, 140);
    assert(coarse_scan(mounts, 14) == 40);
    lemma_cross_compare(mounts, thrust, 40, 150);
    assert(coarse_scan(mounts, 15) == 40);
    lemma_cross_compare(mounts, thrust, 40, 160);
    assert(coarse_scan(mounts, 16) == 40);
    lemma_cross_compare(mounts, thrust, 40, 170);
    assert(coarse_scan(mounts, 17) == 40);
    lemma_cross_compare(mounts, thrust, 40, 180);
    assert(coarse_scan(mounts, 18) == 40);
    lemma_cross_compare(mounts, thrust, 40, 190);
    assert(coarse_scan(mounts, 19) == 40);
    lemma_cross_compare(mounts, thrust, 40, 200);
    assert(coarse_scan(mounts, 20) == 40);
    lemma_cross_compare(mounts, thrust, 40, 210);
    assert(coarse_scan(mounts, 21) == 40);
    lemma_cross_compare(mounts, thrust, 40, 220);
    assert(coarse_scan(mounts, 22) == 40);
    lemma_cross_compare(mounts, thrust, 40, 230);
    assert(coarse_scan(mounts, 23) == 40);
    lemma_cross_compare(mounts, thrust, 40, 240);
    assert(coarse_scan(mounts, 24) == 40);
    lemma_cross_compare(mounts, thrust, 40, 250);
    assert(coarse_scan(mounts, 25) == 40);
    lemma_cross_compare(mounts, thrust, 40, 260);
    assert(coarse_scan(mounts, 26) == 40);
    lemma_cross_compare(mounts, thrust, 40, 270);
    assert(coarse_scan(mounts, 27) == 40);
    lemma_cross_compare(mounts, thrust, 40, 280);
    assert(coarse_scan(mounts, 28) == 40);
    lemma_cross_compare(mounts, thrust, 40, 290);
    assert(coarse_scan(mounts, 29) == 40);
    lemma_cross_compare(mounts, thrust, 40, 300);
    assert(coarse_scan(mounts, 30) == 40);
    lemma_cross_compare(mounts, thrust, 40, 310);
    assert(coarse_scan(mounts, 31) == 40);
    lemma_cross_compare(mounts, thrust, 40, 320);
    assert(coarse_scan(mounts, 32) == 40);
    lemma_cross_compare(mounts, thrust, 40, 330);
    assert(coarse_scan(mounts, 33) == 40);
    lemma_cross_compare(mounts, thrust, 40, 340);
    assert(coarse_scan(mounts, 34) == 40);
    lemma_cross_compare(mounts, thrust, 40, 350);
    assert(coarse_scan(mounts, 35) == 40);
}

/// The fine scan of components that push like a cross, from forty
/// degrees, stops at forty-five.
proof fn lemma_cross_fine(mounts: Seq<Mount>, thrust: int)
    requires
        pushes_like_cross(mounts, thrust),
        thrust > 0,
    ensures
        fine_scan(mounts, 40, FINE_STEPS as nat) == 45,
{
    reveal(quadrant_cosine_spec);
    assert(spread(fine_heading_spec(30)) == 1366025);
    assert(spread(fine_heading_spec(31)) == 1372205);
    assert(spread(fine_heading_spec(32)) == 1377967);
    assert(spread(fine_heading_spec(33)) == 1383310);
    assert(spread(fine_heading_spec(34)) == 1388231);
    assert(spread(fine_heading_spec(35)) == 1392728);
    assert(spread(fine_heading_spec(36)) == 1396802);
    assert(spread(fine_heading_spec(37)) == 1400451);
    assert(spread(fine_heading_spec(38)) == 1403672);
    assert(spread(fine_heading_spec(39)) == 1406466);
    assert(spread(fine_heading_spec(40)) == 1408832);
    assert(spread(fine_heading_spec(41)) == 1410769);
    assert(spread(fine_heading_spec(42)) == 1412276);
    assert(spread(fine_heading_spec(43)) == 1413352);
    assert(spread(fine_heading_spec(44)) == 1413998);
    assert(spread(fine_heading_spec(45)) == 1414214);
    assert(spread(fine_heading_spec(46)) == 1413998);
    assert(spread(fine_heading_spec(47)) == 1413352);
    assert(spread(fine_heading_spec(48)) == 1412276);
    assert(spread(fine_heading_spec(49)) == 1410769);
    assert(fine_scan(mounts, 40, 0) == 40);
    lemma_cross_compare(mounts, thrust, 40, 30);
    assert(fine_candidate(40, 0) == 30);
    assert(fine_scan(mounts, 40, 1) == 40);
    lemma_cross_compare(mounts, thrust, 40, 31);
    assert(fine_candidate(40, 1) == 31);
    assert(fine_scan(mounts, 40, 2) == 40);
    lemma_cross_compare(mounts, thrust, 40, 32);
    assert(fine_candidate(40, 2) == 32);
    assert(fine_scan(mounts, 40, 3) == 40);
    lemma_cross_compare(mounts, thrust, 40, 33);
    assert(fine_candidate(40, 3) == 33);
    assert(fine_scan(mounts, 40, 4) == 40);
    lemma_cross_compare(mounts, thrust, 40, 34);
    assert(fine_candidate(40, 4) == 34);
    assert(fine_scan(mounts, 40, 5) == 40);
    lemma_cross_compare(mounts, thrust, 40, 35);
    assert(fine_candidate(40, 5) == 35);
    assert(fine_scan(mounts, 40, 6) == 40);
    lemma_cross_compare(mounts, thrust, 40, 36);
    assert(fine_candidate(40, 6) == 36);
    assert(fine_scan(mounts, 40, 7) == 40);
    lemma_cross_compare(mounts, thrust, 40, 37);
    assert(fine_candidate(40, 7) == 37);
    assert(fine_scan(mounts, 40, 8) == 40);
    lemma_cross_compare(mounts, thrust, 40, 38);
    assert(fine_candidate(40, 8) == 38);
    assert(fine_scan(mounts, 40, 9) == 40);
    lemma_cross_compare(mounts, thrust, 40, 39);
    assert(fine_candidate(40, 9) == 39);
    assert(fine_scan(mounts, 40, 10) == 40);
    lemma_cross_compare(mounts, thrust, 40, 40);
    assert(fine_candidate(40, 10) == 40);
    assert(fine_scan(mounts, 40, 11) == 40);
    lemma_cross_compare(mounts, thrust, 40, 41);
    assert(fine_candidate(40, 11) == 41);
    assert(fine_scan(mounts, 40, 12) == 41);
    lemma_cross_compare(mounts, thrust, 41, 42);
    assert(fine_candidate(40, 12) == 42);
    assert(fine_scan(mounts, 40, 13) == 42);
    lemma_cross_compare(mounts, thrust, 42, 43);
    assert(fine_candidate(40, 13) == 43);
    assert(fine_scan(mounts, 40, 14) == 43);
    lemma_cross_compare(mounts, thrust, 43, 44);
    assert(fine_candidate(40, 14) == 44);
    assert(fine_scan(mounts, 40, 15) == 44);
    lemma_cross_compare(mounts, thrust, 44, 45);
    assert(fine_candidate(40, 15) == 45);
    assert(fine_scan(mounts, 40, 16) == 45);
    lemma_cross_compare(mounts, thrust, 45, 46);
    assert(fine_candidate(40, 16) == 46);
    assert(fine_scan(mounts, 40, 17) == 45);
    lemma_cross_compare(mounts, thrust, 45, 47);
    assert(fine_candidate(40, 17) == 47);
    assert(fine_scan(mounts, 40, 18) == 45);
    lemma_cross_compare(mounts, thrust, 45, 48);
    assert(fine_candidate(40, 18) == 48);
    assert(fine_scan(mounts, 40, 19) == 45);
    lemma_cross_compare(mounts, thrust, 45, 49);
    assert(fine_candidate(40, 19) == 49);
    assert(fine_scan(mounts, 40, 20) == 45);
}

/// Four engines of one thrust at right angles push hardest along the
/// bisector of two of them, with the thrust of the two together along it:
/// the square root of two times the thrust of one.
pub proof fn lemma_cross_pushes_along_bisector(mounts: Seq<Mount>, thrust: int)
    requires
        pushes_like_cross(mounts, thrust),
        thrust > 0,
        total_thrust(mounts) >= 2 * thrust,
    ensures
        optimal_degree(mounts) == 45,
        heading_spec(optimal_degree(mounts)) == (Vec2 { x: 707, y: 707 }),
        max_thrust_spec(mounts) == thrust * 1_414_214 / 1_000_000,
{
    lemma_cross_coarse(mounts, thrust);
    lemma_cross_fine(mounts, thrust);
    reveal(quadrant_cosine_spec);
    assert(spread(fine_heading_spec(45)) == 1414214);
    assert(push_at(mounts, 45) == thrust * (SCALE * 1414214));
    assert(thrust * (SCALE * 1414214) / (SCALE * FINE) == thrust * 1_414_214 / 1_000_000
        && thrust * 1_414_214 / 1_000_000 <= 2 * thrust) by (nonlinear_arith)
        requires
            thrust > 0,
            SCALE == 1000,
            FINE == 1_000_000,
    ;
}

} // verus!
