//! How command lists are put together, component by component.

use vstd::prelude::*;
use crate::model::{
    ascending, lemma_after_concat, lemma_after_others, mount_after, Command, ComponentCmd, ComponentId,
    Engine, GameObjectId, Mount,
};

verus! {

/// The blocks of the first `count` components, one after the other.
pub open spec fn assemble<A>(count: nat, block: spec_fn(int) -> Seq<A>) -> Seq<A> {
    Seq::new(count, block).flatten()
}

/// Nothing is assembled from no component.
pub proof fn lemma_assemble_none<A>(block: spec_fn(int) -> Seq<A>)
    ensures
        assemble(0, block) == Seq::<A>::empty(),
{
    assert(Seq::new(0, block) =~= Seq::<Seq<A>>::empty());
}

/// One more component appends its block.
pub proof fn lemma_assemble_step<A>(count: nat, block: spec_fn(int) -> Seq<A>)
    ensures
        assemble(count + 1, block) == assemble(count, block) + block(count as int),
{
    let blocks = Seq::new(count, block);
    assert(Seq::new(count + 1, block) =~= blocks.push(block(count as int)));
    blocks.lemma_flatten_push(block(count as int));
}

/// What holds of every element of every block holds of every element
/// assembled.
pub proof fn lemma_assemble_all<A>(
    count: nat,
    block: spec_fn(int) -> Seq<A>,
    holds: spec_fn(A) -> bool,
)
    requires
        forall|i: int, k: int| 0 <= i < count && 0 <= k < block(i).len() ==> holds(#[trigger] block(i)[k]),
    ensures
        forall|k: int| 0 <= k < assemble(count, block).len() ==> holds(#[trigger] assemble(count, block)[k]),
    decreases count,
{
    if count == 0 {
        lemma_assemble_none(block);
    } else {
        lemma_assemble_all((count - 1) as nat, block, holds);
        lemma_assemble_step((count - 1) as nat, block);
        let before = assemble((count - 1) as nat, block);
        let last = block(count - 1);
        assert forall|k: int| 0 <= k < assemble(count, block).len() implies holds(
            #[trigger] assemble(count, block)[k],
        ) by {
            if k >= before.len() {
                assert(assemble(count, block)[k] == last[k - before.len()]);
            } else {
                assert(assemble(count, block)[k] == before[k]);
            }
        }
    }
}

/// Where every block is empty, nothing is assembled.
pub proof fn lemma_assemble_nothing<A>(count: nat, block: spec_fn(int) -> Seq<A>)
    requires
        forall|i: int| 0 <= i < count ==> (#[trigger] block(i)).len() == 0,
    ensures
        assemble(count, block) == Seq::<A>::empty(),
    decreases count,
{
    if count == 0 {
        lemma_assemble_none(block);
    } else {
        lemma_assemble_nothing((count - 1) as nat, block);
        lemma_assemble_step((count - 1) as nat, block);
        assert(block(count - 1) =~= Seq::<A>::empty());
    }
}

/// Every element of every block is among the elements assembled.
pub proof fn lemma_assemble_has<A>(count: nat, block: spec_fn(int) -> Seq<A>, i: int, k: int)
    requires
        0 <= i < count,
        0 <= k < block(i).len(),
    ensures
        assemble(count, block).contains(block(i)[k]),
    decreases count,
{
    lemma_assemble_step((count - 1) as nat, block);
    let before = assemble((count - 1) as nat, block);
    if i < count - 1 {
        lemma_assemble_has((count - 1) as nat, block, i, k);
        let at = choose|at: int| 0 <= at < before.len() && before[at] == block(i)[k];
        assert(assemble(count, block)[at] == block(i)[k]);
    } else {
        assert(assemble(count, block)[before.len() + k] == block(i)[k]);
    }
}

/// Whether every command of each block is addressed to the component at
/// the block's place in `mounts`, of the craft `id`.
pub open spec fn addressed(id: GameObjectId, mounts: Seq<Mount>, block: spec_fn(int) -> Seq<Command>) -> bool {
    forall|i: int, k: int|
        0 <= i < mounts.len() && 0 <= k < block(i).len() ==> (#[trigger] block(i)[k]).spacecraft == id
            && block(i)[k].component == mounts[i].id
}

/// Of the commands assembled for a craft, a component takes those of its
/// own block and no others.
pub proof fn lemma_after_assemble(
    id: GameObjectId,
    mounts: Seq<Mount>,
    block: spec_fn(int) -> Seq<Command>,
    count: nat,
    place: int,
)
    requires
        ascending(mounts),
        addressed(id, mounts, block),
        count <= mounts.len(),
        0 <= place < mounts.len(),
    ensures
        mount_after(id, mounts[place], assemble(count, block)) == if place < count {
            mount_after(id, mounts[place], block(place))
        } else {
            mounts[place]
        },
    decreases count,
{
    if count == 0 {
        lemma_assemble_none(block);
    } else {
        let last = count - 1;
        lemma_after_assemble(id, mounts, block, last as nat, place);
        lemma_assemble_step(last as nat, block);
        lemma_after_concat(id, mounts[place], assemble(last as nat, block), block(last));
        if place == last {
        } else {
            let reached = mount_after(id, mounts[place], assemble(last as nat, block));
            if place < last {
                lemma_after_concat(id, mounts[place], block(place), Seq::empty());
            }
            assert(reached.id == mounts[place].id);
            assert forall|k: int| 0 <= k < block(last).len() implies !((
            #[trigger] block(last)[k]).spacecraft == id && block(last)[k].component == reached.id) by {
                assert(block(last)[k].component == mounts[last].id);
            }
            lemma_after_others(id, reached, block(last));
        }
    }
}

/// The command that switches a component, where its state has to change.
pub open spec fn switch_spec(
    spacecraft: GameObjectId,
    component: ComponentId,
    active: bool,
    activate: bool,
) -> Seq<Command> {
    if active != activate {
        seq![Command { spacecraft, component, action: ComponentCmd::SetActive(activate) }]
    } else {
        Seq::empty()
    }
}

/// The commands that bring an engine to a state: the switch, where its
/// state has to change, then, for an engine that is to run and where
/// `throttle` says so, its power.
pub open spec fn drive_spec(
    spacecraft: GameObjectId,
    component: ComponentId,
    engine: Engine,
    activate: bool,
    throttle: bool,
    power: i64,
) -> Seq<Command> {
    switch_spec(spacecraft, component, engine.active, activate) + if activate && throttle {
        seq![Command { spacecraft, component, action: ComponentCmd::SetPower(power) }]
    } else {
        Seq::empty()
    }
}

/// Appends the command that switches a component, where its state has to
/// change.
pub fn switch(
    result: &mut Vec<Command>,
    spacecraft: GameObjectId,
    component: ComponentId,
    active: bool,
    activate: bool,
)
    ensures
        final(result)@ == old(result)@ + switch_spec(spacecraft, component, active, activate),
{
    if active != activate {
        result.push(Command { spacecraft, component, action: ComponentCmd::SetActive(activate) });
        assert(result@ =~= old(result)@ + switch_spec(spacecraft, component, active, activate));
    } else {
        assert(result@ =~= old(result)@ + switch_spec(spacecraft, component, active, activate));
    }
}

/// Appends the commands that bring an engine to a state.
pub fn drive(
    result: &mut Vec<Command>,
    spacecraft: GameObjectId,
    component: ComponentId,
    engine: &Engine,
    activate: bool,
    throttle: bool,
    power: i64,
)
    ensures
        final(result)@ == old(result)@ + drive_spec(
            spacecraft,
            component,
            *engine,
            activate,
            throttle,
            power,
        ),
{
    switch(result, spacecraft, component, engine.active, activate);
    if activate && throttle {
        result.push(Command { spacecraft, component, action: ComponentCmd::SetPower(power) });
    }
    assert(result@ =~= old(result)@ + drive_spec(
        spacecraft,
        component,
        *engine,
        activate,
        throttle,
        power,
    ));
}

} // verus!
