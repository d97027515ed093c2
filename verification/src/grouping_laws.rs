//! What holds of the groups that a junction's lanes are put into.

use crate::grouping::{
    angle_sum, approaches_of, average_le, first_fit, fits, group_ids, ordered, partition, phases,
    place, slot, Approach,
};
use crate::lanes::Lane;
use vstd::prelude::*;

verus! {

/// Every member but the first joined the group when its angle lay within
/// the spread of the average of the members before it.
pub open spec fn admitted(group: Seq<Approach>) -> bool {
    forall|k: int| 1 <= k < group.len() ==> fits(#[trigger] group.take(k), group[k].angle)
}

/// Every group is admitted.
pub open spec fn all_admitted(groups: Seq<Seq<Approach>>) -> bool {
    forall|g: int| 0 <= g < groups.len() ==> admitted(#[trigger] groups[g])
}

/// `(g, k)` is the position of a member of a group.
pub open spec fn within(groups: Seq<Seq<Approach>>, g: int, k: int) -> bool {
    0 <= g < groups.len() && 0 <= k < groups[g].len()
}

/// `approach` is a member of some group.
pub open spec fn placed(groups: Seq<Seq<Approach>>, approach: Approach) -> bool {
    exists|g: int, k: int| within(groups, g, k) && (#[trigger] groups[g][k]) == approach
}

/// No lane occurs twice.
pub open spec fn distinct_ids(approaches: Seq<Approach>) -> bool {
    forall|i: int, j: int|
        0 <= i < j < approaches.len() ==> (#[trigger] approaches[i]).lane_id != (
        #[trigger] approaches[j]).lane_id
}

/// The groups split the approaches: no group is empty, every member is one
/// of the approaches, every approach is a member, and no lane is a member
/// twice.
pub open spec fn splits(groups: Seq<Seq<Approach>>, approaches: Seq<Approach>) -> bool {
    &&& forall|g: int| 0 <= g < groups.len() ==> (#[trigger] groups[g]).len() > 0
    &&& forall|g: int, k: int|
        within(groups, g, k) ==> approaches.contains(#[trigger] groups[g][k])
    &&& forall|i: int| 0 <= i < approaches.len() ==> placed(groups, #[trigger] approaches[i])
    &&& forall|g: int, k: int, h: int, m: int|
        within(groups, g, k) && within(groups, h, m) && (g != h || k != m) ==> (
        #[trigger] groups[g][k]).lane_id != (#[trigger] groups[h][m]).lane_id
}

/// Averages do not decrease along the sequence.
pub open spec fn ascending(groups: Seq<Seq<Approach>>) -> bool {
    forall|i: int, j: int|
        0 <= i < j < groups.len() ==> average_le(#[trigger] groups[i], #[trigger] groups[j])
}

/// No group is empty.
pub open spec fn none_empty(groups: Seq<Seq<Approach>>) -> bool {
    forall|g: int| 0 <= g < groups.len() ==> (#[trigger] groups[g]).len() > 0
}

/// For each place in `ordered(groups)`, the index in `groups` of the group
/// that stands there.
pub open spec fn order_of(groups: Seq<Seq<Approach>>) -> Seq<int>
    decreases groups.len(),
{
    if groups.len() == 0 {
        Seq::empty()
    } else {
        let rest = groups.drop_last();
        order_of(rest).insert(slot(ordered(rest), groups.last()), groups.len() - 1)
    }
}

/// `p` lists each of `0 .. n` once.
pub open spec fn is_permutation(p: Seq<int>, n: int) -> bool {
    &&& p.len() == n
    &&& forall|i: int| 0 <= i < n ==> 0 <= #[trigger] p[i] < n
    &&& forall|i: int, j: int| 0 <= i < j < n ==> #[trigger] p[i] != #[trigger] p[j]
    &&& forall|v: int| 0 <= v < n ==> #[trigger] p.contains(v)
}

/// The first fit lies among the groups or just behind them; no group before
/// it fits, and the group at it, if there is one, fits.
pub proof fn lemma_first_fit_is_first(groups: Seq<Seq<Approach>>, angle: u32)
    ensures
        0 <= first_fit(groups, angle) <= groups.len(),
        first_fit(groups, angle) < groups.len() ==> fits(
            groups[first_fit(groups, angle)],
            angle,
        ),
        forall|j: int| 0 <= j < first_fit(groups, angle) ==> !fits(#[trigger] groups[j], angle),
    decreases groups.len(),
{
    if groups.len() > 0 && !fits(groups.first(), angle) {
        let rest = groups.drop_first();
        lemma_first_fit_is_first(rest, angle);
        let at = first_fit(rest, angle);
        if at < rest.len() {
            assert(rest[at] == groups[at + 1]);
        }
        assert forall|j: int| 0 <= j < at + 1 implies !fits(#[trigger] groups[j], angle) by {
            if j > 0 {
                assert(rest[j - 1] == groups[j]);
            }
        }
    }
}

/// Placing an approach keeps every group admitted.
pub proof fn lemma_place_admitted(groups: Seq<Seq<Approach>>, approach: Approach)
    requires
        all_admitted(groups),
    ensures
        all_admitted(place(groups, approach)),
{
    lemma_first_fit_is_first(groups, approach.angle);
    let at = first_fit(groups, approach.angle);
    let after = place(groups, approach);
    assert forall|g: int| 0 <= g < after.len() implies admitted(#[trigger] after[g]) by {
        if at < groups.len() {
            if g == at {
                let old_group = groups[at];
                let new_group = after[g];
                assert(new_group == old_group.push(approach));
                assert(admitted(old_group));
                assert forall|k: int| 1 <= k < new_group.len() implies fits(
                    #[trigger] new_group.take(k),
                    new_group[k].angle,
                ) by {
                    if k < old_group.len() {
                        assert(new_group.take(k) =~= old_group.take(k));
                        assert(fits(old_group.take(k), old_group[k].angle));
                    } else {
                        assert(new_group.take(k) =~= old_group);
                    }
                }
            } else {
                assert(after[g] == groups[g]);
            }
        } else {
            if g < groups.len() {
                assert(after[g] == groups[g]);
            }
        }
    }
}

/// Every group of a partition is admitted: a lane shares a group only with
/// lanes whose running average lay within the spread of its angle when it
/// joined.
pub proof fn lemma_partition_admitted(approaches: Seq<Approach>)
    ensures
        all_admitted(partition(approaches)),
    decreases approaches.len(),
{
    if approaches.len() > 0 {
        lemma_partition_admitted(approaches.drop_last());
        lemma_place_admitted(partition(approaches.drop_last()), approaches.last());
    }
}

/// Placing one more approach keeps the groups a split of the approaches.
pub proof fn lemma_place_splits(
    groups: Seq<Seq<Approach>>,
    approaches: Seq<Approach>,
    approach: Approach,
)
    requires
        splits(groups, approaches),
        distinct_ids(approaches.push(approach)),
    ensures
        splits(place(groups, approach), approaches.push(approach)),
{
    lemma_first_fit_is_first(groups, approach.angle);
    let at = first_fit(groups, approach.angle);
    let after = place(groups, approach);
    let more = approaches.push(approach);
    let joins = at < groups.len();
    // Where the new member stands.
    let new_g = at;
    let new_k = if joins {
        groups[at].len() as int
    } else {
        0
    };
    assert(within(after, new_g, new_k) && after[new_g][new_k] == approach);
    // Every other member stands where it stood.
    assert forall|g: int, k: int| within(after, g, k) && (g != new_g || k != new_k) implies within(
        groups,
        g,
        k,
    ) && groups[g][k] == #[trigger] after[g][k] by {}
    assert forall|g: int, k: int| within(groups, g, k) implies within(after, g, k) && groups[g][k]
        == #[trigger] after[g][k] by {}
    assert forall|g: int| 0 <= g < after.len() implies (#[trigger] after[g]).len() > 0 by {
        if g < groups.len() {
            assert(groups[g].len() > 0);
        }
    }
    assert forall|g: int, k: int| within(after, g, k) implies more.contains(
        #[trigger] after[g][k],
    ) by {
        if g == new_g && k == new_k {
            assert(more[more.len() - 1] == approach);
        } else {
            assert(approaches.contains(groups[g][k]));
            let i = choose|i: int| 0 <= i < approaches.len() && approaches[i] == groups[g][k];
            assert(more[i] == groups[g][k]);
        }
    }
    assert forall|i: int| 0 <= i < more.len() implies placed(after, #[trigger] more[i]) by {
        if i < approaches.len() {
            assert(more[i] == approaches[i]);
            assert(placed(groups, approaches[i]));
            let (g, k) = choose|g: int, k: int|
                within(groups, g, k) && (#[trigger] groups[g][k]) == approaches[i];
            assert(within(after, g, k) && after[g][k] == more[i]);
        } else {
            assert(within(after, new_g, new_k) && after[new_g][new_k] == more[i]);
        }
    }
    assert forall|g: int, k: int, h: int, m: int|
        within(after, g, k) && within(after, h, m) && (g != h || k != m) implies (
    #[trigger] after[g][k]).lane_id != (#[trigger] after[h][m]).lane_id by {
        let first_new = g == new_g && k == new_k;
        let second_new = h == new_g && m == new_k;
        if !first_new && !second_new {
            assert(groups[g][k].lane_id != groups[h][m].lane_id);
        } else if first_new {
            assert(approaches.contains(groups[h][m]));
            let i = choose|i: int| 0 <= i < approaches.len() && approaches[i] == groups[h][m];
            assert(more[i].lane_id != more[more.len() - 1].lane_id);
        } else {
            assert(approaches.contains(groups[g][k]));
            let i = choose|i: int| 0 <= i < approaches.len() && approaches[i] == groups[g][k];
            assert(more[i].lane_id != more[more.len() - 1].lane_id);
        }
    }
}

/// The partition of approaches with distinct lanes splits them.
pub proof fn lemma_partition_splits(approaches: Seq<Approach>)
    requires
        distinct_ids(approaches),
    ensures
        splits(partition(approaches), approaches),
    decreases approaches.len(),
{
    if approaches.len() > 0 {
        let rest = approaches.drop_last();
        assert forall|i: int, j: int| 0 <= i < j < rest.len() implies (#[trigger] rest[i]).lane_id
            != (#[trigger] rest[j]).lane_id by {
            assert(approaches[i].lane_id != approaches[j].lane_id);
        }
        lemma_partition_splits(rest);
        assert(rest.push(approaches.last()) =~= approaches);
        lemma_place_splits(partition(rest), rest, approaches.last());
    } else {
        assert(partition(approaches).len() == 0);
    }
}

/// A group's slot lies among the sorted groups or just behind them.
pub proof fn lemma_slot_in_range(sorted: Seq<Seq<Approach>>, group: Seq<Approach>)
    ensures
        0 <= slot(sorted, group) <= sorted.len(),
    decreases sorted.len(),
{
    if sorted.len() > 0 && !average_le(sorted.last(), group) {
        lemma_slot_in_range(sorted.drop_last(), group);
    }
}

/// Ordering rearranges: `ordered(groups)` holds at each place the group of
/// `groups` that `order_of(groups)` names, and names each group once.
pub proof fn lemma_ordered_rearranges(groups: Seq<Seq<Approach>>)
    ensures
        ordered(groups).len() == groups.len(),
        is_permutation(order_of(groups), groups.len() as int),
        forall|i: int|
            0 <= i < groups.len() ==> #[trigger] ordered(groups)[i] == groups[order_of(groups)[i]],
    decreases groups.len(),
{
    if groups.len() > 0 {
        let rest = groups.drop_last();
        let n = groups.len() as int;
        lemma_ordered_rearranges(rest);
        let at = slot(ordered(rest), groups.last());
        lemma_slot_in_range(ordered(rest), groups.last());
        let before = order_of(rest);
        let after = order_of(groups);
        assert(after == before.insert(at, n - 1));
        assert forall|i: int| 0 <= i < n implies 0 <= #[trigger] after[i] < n by {
            if i < at {
                assert(after[i] == before[i]);
            } else if i > at {
                assert(after[i] == before[i - 1]);
            }
        }
        assert forall|i: int, j: int| 0 <= i < j < n implies #[trigger] after[i]
            != #[trigger] after[j] by {
            let a = if i < at {
                i
            } else {
                i - 1
            };
            let b = if j < at {
                j
            } else {
                j - 1
            };
            if i != at && j != at {
                assert(after[i] == before[a]);
                assert(after[j] == before[b]);
                assert(before[a] != before[b]);
            } else if i == at {
                assert(after[j] == before[b]);
                assert(0 <= before[b] < n - 1);
            } else {
                assert(after[i] == before[a]);
                assert(0 <= before[a] < n - 1);
            }
        }
        assert forall|v: int| 0 <= v < n implies #[trigger] after.contains(v) by {
            if v == n - 1 {
                assert(after[at] == v);
            } else {
                assert(before.contains(v));
                let i = choose|i: int| 0 <= i < before.len() && before[i] == v;
                if i < at {
                    assert(after[i] == v);
                } else {
                    assert(after[i + 1] == v);
                }
            }
        }
        assert forall|i: int| 0 <= i < n implies #[trigger] ordered(groups)[i]
            == groups[after[i]] by {
            if i < at {
                assert(ordered(groups)[i] == ordered(rest)[i]);
                assert(after[i] == before[i]);
                assert(rest[before[i]] == groups[before[i]]);
            } else if i > at {
                assert(ordered(groups)[i] == ordered(rest)[i - 1]);
                assert(after[i] == before[i - 1]);
                assert(rest[before[i - 1]] == groups[before[i - 1]]);
            }
        }
    }
}

/// Ordering the groups keeps them a split of the approaches.
pub proof fn lemma_ordered_splits(groups: Seq<Seq<Approach>>, approaches: Seq<Approach>)
    requires
        splits(groups, approaches),
    ensures
        splits(ordered(groups), approaches),
{
    lemma_ordered_rearranges(groups);
    let sorted = ordered(groups);
    let order = order_of(groups);
    assert forall|g: int| 0 <= g < sorted.len() implies (#[trigger] sorted[g]).len() > 0 by {
        assert(sorted[g] == groups[order[g]]);
    }
    assert forall|g: int, k: int| within(sorted, g, k) implies approaches.contains(
        #[trigger] sorted[g][k],
    ) by {
        assert(sorted[g] == groups[order[g]]);
        assert(within(groups, order[g], k));
    }
    assert forall|i: int| 0 <= i < approaches.len() implies placed(
        sorted,
        #[trigger] approaches[i],
    ) by {
        assert(placed(groups, approaches[i]));
        let (g, k) = choose|g: int, k: int|
            within(groups, g, k) && (#[trigger] groups[g][k]) == approaches[i];
        assert(order.contains(g));
        let h = choose|h: int| 0 <= h < order.len() && order[h] == g;
        assert(sorted[h] == groups[order[h]]);
        assert(within(sorted, h, k) && sorted[h][k] == approaches[i]);
    }
    assert forall|g: int, k: int, h: int, m: int|
        within(sorted, g, k) && within(sorted, h, m) && (g != h || k != m) implies (
    #[trigger] sorted[g][k]).lane_id != (#[trigger] sorted[h][m]).lane_id by {
        assert(sorted[g] == groups[order[g]]);
        assert(sorted[h] == groups[order[h]]);
        if g != h {
            if g < h {
                assert(order[g] != order[h]);
            } else {
                assert(order[h] != order[g]);
            }
        }
        assert(within(groups, order[g], k));
        assert(within(groups, order[h], m));
        assert(groups[order[g]][k].lane_id != groups[order[h]][m].lane_id);
    }
}

/// Ordering the groups keeps every group admitted.
pub proof fn lemma_ordered_admitted(groups: Seq<Seq<Approach>>)
    requires
        all_admitted(groups),
    ensures
        all_admitted(ordered(groups)),
{
    lemma_ordered_rearranges(groups);
    let sorted = ordered(groups);
    assert forall|g: int| 0 <= g < sorted.len() implies admitted(#[trigger] sorted[g]) by {
        assert(sorted[g] == groups[order_of(groups)[g]]);
    }
}

/// Comparing averages is transitive where the middle group has members.
pub proof fn lemma_average_le_transitive(a: Seq<Approach>, b: Seq<Approach>, c: Seq<Approach>)
    requires
        average_le(a, b),
        average_le(b, c),
        b.len() > 0,
    ensures
        average_le(a, c),
{
    let sa = angle_sum(a);
    let sb = angle_sum(b);
    let sc = angle_sum(c);
    let na = a.len() as int;
    let nb = b.len() as int;
    let nc = c.len() as int;
    assert(sa * nc <= sc * na) by (nonlinear_arith)
        requires
            sa * nb <= sb * na,
            sb * nc <= sc * nb,
            nb > 0,
            na >= 0,
            nc >= 0,
    {
        assert((sa * nb) * nc <= (sb * na) * nc);
        assert((sb * nc) * na <= (sc * nb) * na);
        assert((sa * nc) * nb <= (sc * na) * nb);
    }
}

/// In an ascending sequence, a group's slot parts the groups whose average
/// is not above its own from those whose average is.
pub proof fn lemma_slot_parts(sorted: Seq<Seq<Approach>>, group: Seq<Approach>)
    requires
        ascending(sorted),
        none_empty(sorted),
    ensures
        0 <= slot(sorted, group) <= sorted.len(),
        forall|j: int| 0 <= j < slot(sorted, group) ==> average_le(#[trigger] sorted[j], group),
        forall|j: int|
            slot(sorted, group) <= j < sorted.len() ==> !average_le(#[trigger] sorted[j], group),
    decreases sorted.len(),
{
    if sorted.len() > 0 {
        let last = sorted.last();
        if average_le(last, group) {
            assert forall|j: int| 0 <= j < sorted.len() implies average_le(
                #[trigger] sorted[j],
                group,
            ) by {
                if j < sorted.len() - 1 {
                    assert(average_le(sorted[j], sorted[sorted.len() - 1]));
                    assert(sorted[sorted.len() - 1].len() > 0);
                    lemma_average_le_transitive(sorted[j], last, group);
                }
            }
        } else {
            let rest = sorted.drop_last();
            assert forall|i: int, j: int| 0 <= i < j < rest.len() implies average_le(
                #[trigger] rest[i],
                #[trigger] rest[j],
            ) by {
                assert(average_le(sorted[i], sorted[j]));
            }
            assert forall|g: int| 0 <= g < rest.len() implies (#[trigger] rest[g]).len() > 0 by {
                assert(sorted[g].len() > 0);
            }
            lemma_slot_parts(rest, group);
            assert forall|j: int| 0 <= j < slot(sorted, group) implies average_le(
                #[trigger] sorted[j],
                group,
            ) by {
                assert(rest[j] == sorted[j]);
            }
            assert forall|j: int| slot(sorted, group) <= j < sorted.len() implies !average_le(
                #[trigger] sorted[j],
                group,
            ) by {
                if j < rest.len() {
                    assert(rest[j] == sorted[j]);
                }
            }
        }
    }
}

/// Ordered groups stand in ascending order of average angle.
pub proof fn lemma_ordered_ascending(groups: Seq<Seq<Approach>>)
    requires
        none_empty(groups),
    ensures
        ascending(ordered(groups)),
        none_empty(ordered(groups)),
    decreases groups.len(),
{
    lemma_ordered_rearranges(groups);
    let sorted = ordered(groups);
    assert forall|g: int| 0 <= g < sorted.len() implies (#[trigger] sorted[g]).len() > 0 by {
        assert(sorted[g] == groups[order_of(groups)[g]]);
    }
    if groups.len() > 0 {
        let rest = groups.drop_last();
        let group = groups.last();
        assert forall|g: int| 0 <= g < rest.len() implies (#[trigger] rest[g]).len() > 0 by {
            assert(groups[g].len() > 0);
        }
        lemma_ordered_ascending(rest);
        let inner = ordered(rest);
        lemma_slot_parts(inner, group);
        let at = slot(inner, group);
        assert(sorted == inner.insert(at, group));
        assert(group.len() > 0);
        assert forall|i: int, j: int| 0 <= i < j < sorted.len() implies average_le(
            #[trigger] sorted[i],
            #[trigger] sorted[j],
        ) by {
            if j < at {
                assert(sorted[i] == inner[i] && sorted[j] == inner[j]);
            } else if j == at {
                assert(sorted[i] == inner[i]);
            } else if i < at {
                assert(sorted[i] == inner[i] && sorted[j] == inner[j - 1]);
                assert(average_le(inner[i], inner[j - 1]));
            } else if i == at {
                assert(sorted[j] == inner[j - 1]);
                assert(!average_le(inner[j - 1], group));
            } else {
                assert(sorted[i] == inner[i - 1] && sorted[j] == inner[j - 1]);
                assert(average_le(inner[i - 1], inner[j - 1]));
            }
        }
    }
}

/// The groups behind a junction's phases.
pub open spec fn phase_groups(lanes: Seq<Lane>) -> Seq<Seq<Approach>> {
    ordered(partition(approaches_of(lanes)))
}

/// No lane identifier occurs twice.
pub open spec fn distinct_lanes(lanes: Seq<Lane>) -> bool {
    forall|i: int, j: int|
        0 <= i < j < lanes.len() ==> (#[trigger] lanes[i]).id != (#[trigger] lanes[j]).id
}

/// `id` is a member of the phase `phase`.
pub open spec fn in_phase(groups: Seq<Seq<u32>>, phase: int, id: u32) -> bool {
    0 <= phase < groups.len() && groups[phase].contains(id)
}

/// The phases of a junction: ascending in average angle, each group formed
/// within the spread of its running average, no phase empty, and, where no
/// lane occurs twice, every lane in exactly one phase.
pub proof fn lemma_phases(lanes: Seq<Lane>)
    ensures
        phases(lanes) == group_ids(phase_groups(lanes)),
        phases(lanes).len() == phase_groups(lanes).len(),
        phases(lanes).len() <= lanes.len(),
        all_admitted(phase_groups(lanes)),
        ascending(phase_groups(lanes)),
        forall|g: int| 0 <= g < phases(lanes).len() ==> (#[trigger] phases(lanes)[g]).len() > 0,
        forall|g: int, k: int|
            0 <= g < phases(lanes).len() && 0 <= k < phases(lanes)[g].len() ==> exists|i: int|
                0 <= i < lanes.len() && lanes[i].id == #[trigger] phases(lanes)[g][k],
        distinct_lanes(lanes) ==> forall|i: int|
            0 <= i < lanes.len() ==> exists|g: int|
                in_phase(phases(lanes), g, (#[trigger] lanes[i]).id),
        distinct_lanes(lanes) ==> forall|g: int, h: int, id: u32|
            in_phase(phases(lanes), g, id) && in_phase(phases(lanes), h, id) ==> g == h,
{
    let approaches = approaches_of(lanes);
    let formed = partition(approaches);
    let sorted = phase_groups(lanes);
    let ids = phases(lanes);
    lemma_partition_admitted(approaches);
    lemma_ordered_admitted(formed);
    lemma_partition_none_empty(approaches);
    lemma_ordered_ascending(formed);
    lemma_ordered_rearranges(formed);
    assert forall|g: int| 0 <= g < ids.len() implies (#[trigger] ids[g]).len() > 0 by {
        assert(sorted[g].len() > 0);
    }
    assert forall|g: int, k: int| 0 <= g < ids.len() && 0 <= k < ids[g].len() implies exists|
        i: int,
    |
        0 <= i < lanes.len() && lanes[i].id == #[trigger] ids[g][k] by {
        let from = order_of(formed)[g];
        assert(sorted[g] == formed[from]);
        lemma_partition_members(approaches, from, k);
        let i = choose|i: int| 0 <= i < approaches.len() && approaches[i] == formed[from][k];
        assert(lanes[i].id == ids[g][k]);
    }
    if distinct_lanes(lanes) {
        assert forall|i: int, j: int| 0 <= i < j < approaches.len() implies (
        #[trigger] approaches[i]).lane_id != (#[trigger] approaches[j]).lane_id by {
            assert(lanes[i].id != lanes[j].id);
        }
        lemma_partition_splits(approaches);
        lemma_ordered_splits(formed, approaches);
        assert forall|i: int| 0 <= i < lanes.len() implies exists|g: int|
            in_phase(ids, g, (#[trigger] lanes[i]).id) by {
            assert(placed(sorted, approaches[i]));
            let (g, k) = choose|g: int, k: int|
                within(sorted, g, k) && (#[trigger] sorted[g][k]) == approaches[i];
            assert(ids[g][k] == lanes[i].id);
            assert(in_phase(ids, g, lanes[i].id));
        }
        assert forall|g: int, h: int, id: u32|
            in_phase(ids, g, id) && in_phase(ids, h, id) implies g == h by {
            let k = choose|k: int| 0 <= k < ids[g].len() && ids[g][k] == id;
            let m = choose|m: int| 0 <= m < ids[h].len() && ids[h][m] == id;
            assert(within(sorted, g, k) && within(sorted, h, m));
            assert(sorted[g][k].lane_id == id && sorted[h][m].lane_id == id);
        }
    }
    lemma_partition_size(approaches);
}

/// No group of a partition is empty.
pub proof fn lemma_partition_none_empty(approaches: Seq<Approach>)
    ensures
        none_empty(partition(approaches)),
    decreases approaches.len(),
{
    if approaches.len() > 0 {
        let rest = partition(approaches.drop_last());
        lemma_partition_none_empty(approaches.drop_last());
        lemma_first_fit_is_first(rest, approaches.last().angle);
        let after = partition(approaches);
        assert forall|g: int| 0 <= g < after.len() implies (#[trigger] after[g]).len() > 0 by {
            if g < rest.len() {
                assert(rest[g].len() > 0);
            }
        }
    }
}

/// A partition has no more groups than there are approaches.
pub proof fn lemma_partition_size(approaches: Seq<Approach>)
    ensures
        partition(approaches).len() <= approaches.len(),
    decreases approaches.len(),
{
    if approaches.len() > 0 {
        lemma_partition_size(approaches.drop_last());
        lemma_first_fit_is_first(partition(approaches.drop_last()), approaches.last().angle);
    }
}

/// Every member of a group of a partition is one of the approaches.
pub proof fn lemma_partition_members(approaches: Seq<Approach>, g: int, k: int)
    requires
        within(partition(approaches), g, k),
    ensures
        approaches.contains(partition(approaches)[g][k]),
    decreases approaches.len(),
{
    if approaches.len() > 0 {
        let rest = approaches.drop_last();
        let before = partition(rest);
        let last = approaches.last();
        lemma_first_fit_is_first(before, last.angle);
        let at = first_fit(before, last.angle);
        let after = partition(approaches);
        if within(before, g, k) {
            assert(after[g][k] == before[g][k]);
            lemma_partition_members(rest, g, k);
            let i = choose|i: int| 0 <= i < rest.len() && rest[i] == before[g][k];
            assert(approaches[i] == after[g][k]);
        } else {
            assert(after[g][k] == last);
            assert(approaches[approaches.len() - 1] == last);
        }
    }
}

} // verus!
