//! What holds of a junction's phase cycle.

use crate::grouping::id_views;
use crate::grouping_laws::in_phase;
use crate::lanes::{table_valid, Lane};
use crate::signals::{
    entering, hold_of, lane_ids, lemma_entering, lights_changed, next_index, next_phase,
    shows_green, JunctionController, LightColor, SignalPhase,
};
use vstd::arithmetic::div_mod::{lemma_add_mod_noop, lemma_mod_self_0, lemma_small_mod};
use vstd::prelude::*;

verus! {

/// Some lane of `group` shows green.
pub open spec fn group_lit(lights: Map<u32, LightColor>, group: Seq<u32>) -> bool {
    exists|k: int| 0 <= k < group.len() && shows_green(lights, #[trigger] group[k])
}

/// While the signals show the controller's phase, the lanes of the junction
/// that show green are those of the group served, or none during a
/// clearance and at rest: no two groups show green at once.
pub proof fn lemma_one_group_green(c: JunctionController, lights: Map<u32, LightColor>)
    requires
        c.wf(),
        c.shown_by(lights),
    ensures
        forall|id: u32| #[trigger]
            c.lane_ids@.contains(id) ==> (shows_green(lights, id) <==> c.phase
                == SignalPhase::Green && c.current_group().contains(id)),
        forall|g: int, h: int|
            0 <= g < c.groups@.len() && 0 <= h < c.groups@.len() && #[trigger] group_lit(
                lights,
                c.groups@[g]@,
            ) && #[trigger] group_lit(lights, c.groups@[h]@) ==> g == h,
        forall|g: int|
            0 <= g < c.groups@.len() ==> (#[trigger] group_lit(lights, c.groups@[g]@) <==> c.phase
                == SignalPhase::Green && g == c.group_index),
{
    let shown = id_views(c.groups@);
    assert forall|g: int| 0 <= g < c.groups@.len() implies (#[trigger] group_lit(
        lights,
        c.groups@[g]@,
    ) <==> c.phase == SignalPhase::Green && g == c.group_index) by {
        let group = c.groups@[g]@;
        assert(shown[g] == group);
        if group_lit(lights, group) {
            let k = choose|k: int| 0 <= k < group.len() && shows_green(lights, #[trigger] group[k]);
            let id = group[k];
            assert(in_phase(shown, g, id));
            assert(c.lane_ids@.contains(id));
            assert(c.current_group().contains(id));
            assert(shown[c.group_index as int] == c.current_group());
            assert(in_phase(shown, c.group_index as int, id));
        }
        if c.phase == SignalPhase::Green && g == c.group_index {
            let id = group[0];
            assert(in_phase(shown, g, id));
            assert(c.lane_ids@.contains(id));
            assert(shows_green(lights, group[0]));
        }
    }
}

/// No lane enters two junctions: the lanes of two junctions of a valid table
/// have no identifier in common.
pub proof fn lemma_junctions_share_no_lane(lanes: Seq<Lane>, one: u32, other: u32, id: u32)
    requires
        table_valid(lanes),
        one != other,
    ensures
        !(lane_ids(entering(lanes, one)).contains(id) && lane_ids(entering(lanes, other)).contains(
            id,
        )),
{
    let here = entering(lanes, one);
    let there = entering(lanes, other);
    if lane_ids(here).contains(id) && lane_ids(there).contains(id) {
        lemma_entering(lanes, one);
        lemma_entering(lanes, other);
        let a = choose|a: int| 0 <= a < lane_ids(here).len() && lane_ids(here)[a] == id;
        let b = choose|b: int| 0 <= b < lane_ids(there).len() && lane_ids(there)[b] == id;
        assert(lanes.contains(here[a]));
        assert(lanes.contains(there[b]));
        let i = choose|i: int| 0 <= i < lanes.len() && lanes[i] == here[a];
        let j = choose|j: int| 0 <= j < lanes.len() && lanes[j] == there[b];
        if i < j {
            assert(lanes[i].id != lanes[j].id);
        } else if j < i {
            assert(lanes[j].id != lanes[i].id);
        }
    }
}

/// A phase change at one junction leaves the signals of a junction with
/// other lanes as they show its controller's phase.
pub proof fn lemma_other_junction_undisturbed(
    c: JunctionController,
    before: Map<u32, LightColor>,
    after: Map<u32, LightColor>,
    changed: Seq<u32>,
    phase: SignalPhase,
    group: Seq<u32>,
)
    requires
        c.shown_by(before),
        lights_changed(before, after, changed, phase, group),
        forall|id: u32| !(#[trigger] c.lane_ids@.contains(id) && changed.contains(id)),
    ensures
        c.shown_by(after),
{
    assert forall|id: u32| #[trigger] c.lane_ids@.contains(id) implies after.contains_key(id)
        && after[id] == crate::signals::color_in(c.phase, c.current_group(), id) by {
        assert(!changed.contains(id));
    }
}

/// A junction's place in its cycle: the phase, and the group that is
/// served or was served last.
pub struct CycleState {
    pub phase: SignalPhase,
    pub index: int,
}

/// The place in the cycle after one phase change, among `count` groups.
pub open spec fn step(state: CycleState, count: int) -> CycleState {
    CycleState {
        phase: next_phase(state.phase),
        index: next_index(state.phase, state.index, count),
    }
}

/// The place in the cycle after `changes` phase changes.
pub open spec fn after(state: CycleState, count: int, changes: nat) -> CycleState
    decreases changes,
{
    if changes == 0 {
        state
    } else {
        step(after(state, count, (changes - 1) as nat), count)
    }
}

/// Seconds from entering `state` until the `changes`-th phase change after
/// it, each phase lasting its time.
pub open spec fn elapsed(
    state: CycleState,
    count: int,
    changes: nat,
    green: u64,
    clearance: u64,
) -> int
    decreases changes,
{
    if changes == 0 {
        0
    } else {
        elapsed(state, count, (changes - 1) as nat, green, clearance) + hold_of(
            after(state, count, (changes - 1) as nat).phase,
            green,
            clearance,
        )
    }
}

/// The first change serves the first group, at once.
pub proof fn lemma_first_change(count: int, green: u64, clearance: u64)
    ensures
        after(CycleState { phase: SignalPhase::Idle, index: 0 }, count, 1) == (CycleState {
            phase: SignalPhase::Green,
            index: 0,
        }),
        elapsed(CycleState { phase: SignalPhase::Idle, index: 0 }, count, 1, green, clearance)
            == 0,
{
    let start = CycleState { phase: SignalPhase::Idle, index: 0 };
    assert(after(start, count, 0) == start);
    assert(elapsed(start, count, 0, green, clearance) == 0);
}

/// From green, the cycle goes to the clearance with the group unchanged,
/// then to green for the next group: the group advances once per green time
/// plus clearance time.
pub proof fn lemma_one_cycle(state: CycleState, count: int, green: u64, clearance: u64)
    requires
        state.phase == SignalPhase::Green,
        0 <= state.index < count,
    ensures
        after(state, count, 1) == (CycleState { phase: SignalPhase::AllRed, index: state.index }),
        after(state, count, 2) == (CycleState {
            phase: SignalPhase::Green,
            index: (state.index + 1) % count,
        }),
        elapsed(state, count, 1, green, clearance) == green,
        elapsed(state, count, 2, green, clearance) == green + clearance,
{
    assert(after(state, count, 0) == state);
    assert(after(state, count, 1) == step(state, count));
    assert(after(state, count, 2) == step(after(state, count, 1), count));
    assert(elapsed(state, count, 0, green, clearance) == 0);
    assert(elapsed(state, count, 1, green, clearance) == green);
}

/// After `cycles` rounds of green and clearance the group has advanced
/// `cycles` times, and `cycles` times the green and clearance time have
/// passed.
pub proof fn lemma_cycles(state: CycleState, count: int, cycles: nat, green: u64, clearance: u64)
    requires
        state.phase == SignalPhase::Green,
        0 <= state.index < count,
    ensures
        after(state, count, 2 * cycles) == (CycleState {
            phase: SignalPhase::Green,
            index: (state.index + cycles) % count,
        }),
        elapsed(state, count, 2 * cycles, green, clearance) == cycles * (green + clearance),
    decreases cycles,
{
    if cycles == 0 {
        lemma_small_mod(state.index as nat, count as nat);
        assert(after(state, count, 0) == state);
        assert(0 * (green + clearance) == 0);
    } else {
        let before = (cycles - 1) as nat;
        lemma_cycles(state, count, before, green, clearance);
        let mid = after(state, count, 2 * before);
        let index = (state.index + before) % count;
        assert(0 <= index < count) by {
            vstd::arithmetic::div_mod::lemma_mod_bound(state.index + before, count);
        }
        assert((2 * cycles - 1) as nat == 2 * before + 1);
        assert(after(state, count, (2 * before + 1) as nat) == step(mid, count));
        assert(after(state, count, 2 * cycles) == step(
            after(state, count, (2 * before + 1) as nat),
            count,
        ));
        assert((index + 1) % count == (state.index + cycles) % count) by {
            lemma_add_mod_noop(state.index + before, 1, count);
            lemma_add_mod_noop(index, 1, count);
            lemma_small_mod(index as nat, count as nat);
        }
        assert(elapsed(state, count, (2 * before + 1) as nat, green, clearance) == elapsed(
            state,
            count,
            2 * before,
            green,
            clearance,
        ) + green);
        assert(elapsed(state, count, 2 * cycles, green, clearance) == elapsed(
            state,
            count,
            (2 * before + 1) as nat,
            green,
            clearance,
        ) + clearance);
        assert(cycles * (green + clearance) == before * (green + clearance) + (green + clearance))
            by (nonlinear_arith)
            requires
                cycles == before + 1,
        ;
    }
}

/// Every group is served within a full round: from green for any group,
/// each group `target` shows green after fewer cycles than there are groups,
/// and its green time is over before as many cycles have passed as there
/// are groups.
pub proof fn lemma_every_group_served(
    state: CycleState,
    count: int,
    target: int,
    green: u64,
    clearance: u64,
) -> (cycles: nat)
    requires
        state.phase == SignalPhase::Green,
        0 <= state.index < count,
        0 <= target < count,
    ensures
        cycles < count,
        after(state, count, 2 * cycles) == (CycleState { phase: SignalPhase::Green, index: target }),
        elapsed(state, count, 2 * cycles, green, clearance) == cycles * (green + clearance),
        elapsed(state, count, 2 * cycles, green, clearance) + green <= count * (green + clearance),
{
    let cycles: nat = if target >= state.index {
        (target - state.index) as nat
    } else {
        (target - state.index + count) as nat
    };
    lemma_cycles(state, count, cycles, green, clearance);
    if target >= state.index {
        lemma_small_mod(target as nat, count as nat);
    } else {
        lemma_add_mod_noop(target, count, count);
        lemma_mod_self_0(count);
        lemma_small_mod(target as nat, count as nat);
    }
    assert(cycles * (green + clearance) + green <= count * (green + clearance))
        by (nonlinear_arith)
        requires
            cycles + 1 <= count,
            green >= 0,
            clearance >= 0,
    ;
    cycles
}

} // verus!
