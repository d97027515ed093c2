//! Grouping of the lanes that enter a junction into signal phases.
//!
//! Lanes are taken in table order. Each joins the first group whose average
//! angle lies within 20° of its own, and otherwise founds a group. The
//! groups are then put in ascending order of average angle; groups of equal
//! average keep the order in which they were founded.
//!
//! Averages are exact: a group is held as its members, and an average is
//! compared as the sum of the members' angles against their number.

use crate::angles::{compute_lane_angle, lane_angle, FULL_TURN};
use crate::lanes::Lane;
use vstd::prelude::*;

verus! {

/// How far a lane's angle may lie from a group's average, in millidegrees.
pub const GROUP_SPREAD: u32 = 20_000;

/// A lane that enters a junction, with its approach angle in millidegrees.
#[derive(Debug, Clone, Copy, PartialEq, Eq, Structural)]
pub struct Approach {
    pub lane_id: u32,
    pub angle: u32,
}

/// Sum of the members' angles.
pub open spec fn angle_sum(members: Seq<Approach>) -> int
    decreases members.len(),
{
    if members.len() == 0 {
        0
    } else {
        angle_sum(members.drop_last()) + members.last().angle
    }
}

/// `angle` lies within the spread of the average angle of `members`.
pub open spec fn fits(members: Seq<Approach>, angle: u32) -> bool {
    let n = members.len() as int;
    let sum = angle_sum(members);
    n > 0 && sum - GROUP_SPREAD * n <= angle * n <= sum + GROUP_SPREAD * n
}

/// Index of the first group that `angle` fits, or the number of groups
/// where it fits none.
pub open spec fn first_fit(groups: Seq<Seq<Approach>>, angle: u32) -> int
    decreases groups.len(),
{
    if groups.len() == 0 {
        0
    } else if fits(groups.first(), angle) {
        0
    } else {
        1 + first_fit(groups.drop_first(), angle)
    }
}

/// The groups after `approach` has joined the first group it fits, or has
/// founded a group of its own.
pub open spec fn place(groups: Seq<Seq<Approach>>, approach: Approach) -> Seq<Seq<Approach>> {
    let at = first_fit(groups, approach.angle);
    if at < groups.len() {
        groups.update(at, groups[at].push(approach))
    } else {
        groups.push(seq![approach])
    }
}

/// The groups formed by placing the approaches one after another.
pub open spec fn partition(approaches: Seq<Approach>) -> Seq<Seq<Approach>>
    decreases approaches.len(),
{
    if approaches.len() == 0 {
        Seq::empty()
    } else {
        place(partition(approaches.drop_last()), approaches.last())
    }
}

/// The average angle of `a` is at most that of `b`; both have members.
pub open spec fn average_le(a: Seq<Approach>, b: Seq<Approach>) -> bool {
    angle_sum(a) * b.len() <= angle_sum(b) * a.len()
}

/// Where `group` goes in `sorted`: behind the last group whose average is
/// not above its own.
pub open spec fn slot(sorted: Seq<Seq<Approach>>, group: Seq<Approach>) -> int
    decreases sorted.len(),
{
    if sorted.len() == 0 {
        0
    } else if average_le(sorted.last(), group) {
        sorted.len() as int
    } else {
        slot(sorted.drop_last(), group)
    }
}

/// The groups in ascending order of average angle, groups of equal average
/// in their given order.
pub open spec fn ordered(groups: Seq<Seq<Approach>>) -> Seq<Seq<Approach>>
    decreases groups.len(),
{
    if groups.len() == 0 {
        Seq::empty()
    } else {
        let rest = ordered(groups.drop_last());
        rest.insert(slot(rest, groups.last()), groups.last())
    }
}

/// Each lane with its approach angle.
pub open spec fn approaches_of(lanes: Seq<Lane>) -> Seq<Approach> {
    lanes.map_values(|lane: Lane| Approach { lane_id: lane.id, angle: lane_angle(lane) as u32 })
}

/// The lane identifiers of each group.
pub open spec fn group_ids(groups: Seq<Seq<Approach>>) -> Seq<Seq<u32>> {
    groups.map_values(|group: Seq<Approach>| group.map_values(|a: Approach| a.lane_id))
}

/// The signal phases of a junction whose incoming lanes are `lanes`: the
/// lane identifiers of each group, groups in ascending order of average
/// angle.
pub open spec fn phases(lanes: Seq<Lane>) -> Seq<Seq<u32>> {
    group_ids(ordered(partition(approaches_of(lanes))))
}

/// What a vector of groups holds.
pub open spec fn group_views(groups: Seq<Vec<Approach>>) -> Seq<Seq<Approach>> {
    groups.map_values(|group: Vec<Approach>| group@)
}

/// What a vector of identifier lists holds.
pub open spec fn id_views(groups: Seq<Vec<u32>>) -> Seq<Seq<u32>> {
    groups.map_values(|group: Vec<u32>| group@)
}

/// Every angle is below a full turn.
pub open spec fn angles_in_range(members: Seq<Approach>) -> bool {
    forall|i: int| 0 <= i < members.len() ==> (#[trigger] members[i]).angle < FULL_TURN
}

/// The first group that fits is the one before which none fits.
proof fn lemma_first_fit(groups: Seq<Seq<Approach>>, angle: u32, at: int)
    requires
        0 <= at <= groups.len(),
        forall|j: int| 0 <= j < at ==> !fits(#[trigger] groups[j], angle),
        at < groups.len() ==> fits(groups[at], angle),
    ensures
        first_fit(groups, angle) == at,
    decreases groups.len(),
{
    if groups.len() > 0 && at > 0 {
        let rest = groups.drop_first();
        assert(!fits(groups[0], angle));
        assert forall|j: int| 0 <= j < at - 1 implies !fits(#[trigger] rest[j], angle) by {
            assert(rest[j] == groups[j + 1]);
        }
        if at - 1 < rest.len() {
            assert(rest[at - 1] == groups[at]);
        }
        lemma_first_fit(rest, angle, at - 1);
    }
}

/// The sum of the members' angles.
fn total_angle(members: &Vec<Approach>) -> (total: u64)
    requires
        members@.len() <= u32::MAX,
        angles_in_range(members@),
    ensures
        total == angle_sum(members@),
        total <= members@.len() * FULL_TURN,
{
    let mut total: u64 = 0;
    let mut i: usize = 0;
    while i < members.len()
        invariant
            i <= members@.len() <= u32::MAX,
            angles_in_range(members@),
            total == angle_sum(members@.take(i as int)),
            total <= i * FULL_TURN,
        decreases members.len() - i,
    {
        proof {
            assert(members@[i as int].angle < FULL_TURN);
            assert(members@.take(i + 1).drop_last() =~= members@.take(i as int));
            assert((i + 1) * FULL_TURN == i * FULL_TURN + FULL_TURN) by (nonlinear_arith);
            assert(i * FULL_TURN <= 0xffff_ffff * 360_000) by (nonlinear_arith)
                requires
                    i <= 0xffff_ffff,
                    FULL_TURN == 360_000,
            ;
        }
        total = total + members[i].angle as u64;
        i += 1;
    }
    assert(members@.take(i as int) =~= members@);
    total
}

/// Whether `angle` lies within the spread of the group's average.
fn fits_group(members: &Vec<Approach>, angle: u32) -> (within: bool)
    requires
        members@.len() <= u32::MAX,
        angles_in_range(members@),
        angle < FULL_TURN,
    ensures
        within == fits(members@, angle),
{
    let n: u64 = members.len() as u64;
    if n == 0 {
        return false;
    }
    let sum: u64 = total_angle(members);
    proof {
        assert(angle * n <= 360_000 * 0xffff_ffff) by (nonlinear_arith)
            requires
                angle < 360_000,
                n <= 0xffff_ffff,
        ;
        assert(GROUP_SPREAD * n <= 20_000 * 0xffff_ffff) by (nonlinear_arith)
            requires
                GROUP_SPREAD == 20_000,
                n <= 0xffff_ffff,
        ;
    }
    let scaled: u64 = angle as u64 * n;
    let spread: u64 = GROUP_SPREAD as u64 * n;
    if scaled >= sum {
        scaled - sum <= spread
    } else {
        sum - scaled <= spread
    }
}

/// `members` with `approach` appended.
fn joined(members: &Vec<Approach>, approach: Approach) -> (longer: Vec<Approach>)
    ensures
        longer@ == members@.push(approach),
{
    let mut longer: Vec<Approach> = Vec::new();
    let mut i: usize = 0;
    while i < members.len()
        invariant
            i <= members.len(),
            longer@ == members@.take(i as int),
        decreases members.len() - i,
    {
        longer.push(members[i]);
        assert(members@.take(i + 1) =~= members@.take(i as int).push(members@[i as int]));
        i += 1;
    }
    assert(members@.take(i as int) =~= members@);
    longer.push(approach);
    longer
}

/// Places the approaches one after another, each into the first group whose
/// average lies within the spread of its angle.
pub fn partition_approaches(approaches: &Vec<Approach>) -> (groups: Vec<Vec<Approach>>)
    requires
        approaches@.len() <= u32::MAX,
        angles_in_range(approaches@),
    ensures
        group_views(groups@) == partition(approaches@),
        groups@.len() <= approaches@.len(),
        forall|g: int|
            0 <= g < groups@.len() ==> 0 < (#[trigger] groups@[g])@.len() <= approaches@.len()
                && angles_in_range(groups@[g]@),
{
    let mut groups: Vec<Vec<Approach>> = Vec::new();
    let mut i: usize = 0;
    assert(group_views(groups@) =~= partition(approaches@.take(0)));
    while i < approaches.len()
        invariant
            i <= approaches@.len() <= u32::MAX,
            angles_in_range(approaches@),
            group_views(groups@) == partition(approaches@.take(i as int)),
            groups@.len() <= i,
            forall|g: int|
                0 <= g < groups@.len() ==> 0 < (#[trigger] groups@[g])@.len() <= i
                    && angles_in_range(groups@[g]@),
        decreases approaches.len() - i,
    {
        let approach: Approach = approaches[i];
        let ghost before = group_views(groups@);
        proof {
            assert(approaches@[i as int].angle < FULL_TURN);
            assert(approaches@.take(i + 1).drop_last() =~= approaches@.take(i as int));
            assert(approaches@.take(i + 1).last() == approach);
        }
        let mut at: usize = 0;
        while at < groups.len() && !fits_group(&groups[at], approach.angle)
            invariant
                at <= groups@.len(),
                approach.angle < FULL_TURN,
                before == group_views(groups@),
                forall|j: int| 0 <= j < at ==> !fits(#[trigger] before[j], approach.angle),
                forall|g: int|
                    0 <= g < groups@.len() ==> (#[trigger] groups@[g])@.len() <= u32::MAX
                        && angles_in_range(groups@[g]@),
            decreases groups.len() - at,
        {
            proof {
                assert(before[at as int] == groups@[at as int]@);
            }
            at += 1;
        }
        proof {
            if at < groups@.len() {
                assert(before[at as int] == groups@[at as int]@);
            }
            lemma_first_fit(before, approach.angle, at as int);
        }
        if at < groups.len() {
            let longer: Vec<Approach> = joined(&groups[at], approach);
            groups.set(at, longer);
            proof {
                assert(group_views(groups@) =~= before.update(
                    at as int,
                    before[at as int].push(approach),
                ));
            }
        } else {
            let mut fresh: Vec<Approach> = Vec::new();
            fresh.push(approach);
            groups.push(fresh);
            proof {
                assert(fresh@ =~= seq![approach]);
                assert(group_views(groups@) =~= before.push(seq![approach]));
            }
        }
        i += 1;
    }
    assert(approaches@.take(i as int) =~= approaches@);
    groups
}

/// Whether the average angle of `a` is at most that of `b`.
fn average_at_most(a: &Vec<Approach>, b: &Vec<Approach>) -> (le: bool)
    requires
        a@.len() <= u32::MAX,
        b@.len() <= u32::MAX,
        angles_in_range(a@),
        angles_in_range(b@),
    ensures
        le == average_le(a@, b@),
{
    let sum_a: u64 = total_angle(a);
    let sum_b: u64 = total_angle(b);
    let n_a: u64 = a.len() as u64;
    let n_b: u64 = b.len() as u64;
    proof {
        assert(sum_a * n_b <= 0xffff_ffff_ffff_ffff * 0xffff_ffff) by (nonlinear_arith)
            requires
                sum_a <= 0xffff_ffff_ffff_ffff,
                n_b <= 0xffff_ffff,
        ;
        assert(sum_b * n_a <= 0xffff_ffff_ffff_ffff * 0xffff_ffff) by (nonlinear_arith)
            requires
                sum_b <= 0xffff_ffff_ffff_ffff,
                n_a <= 0xffff_ffff,
        ;
    }
    let left: u128 = sum_a as u128 * n_b as u128;
    let right: u128 = sum_b as u128 * n_a as u128;
    left <= right
}

/// The groups that the indices of `order` pick from `groups`.
pub open spec fn picked(groups: Seq<Seq<Approach>>, order: Seq<usize>) -> Seq<Seq<Approach>> {
    order.map_values(|k: usize| groups[k as int])
}

/// A group that goes behind all of `sorted[at..]` goes where it goes in
/// `sorted[..at]`.
proof fn lemma_slot_skips(sorted: Seq<Seq<Approach>>, group: Seq<Approach>, at: int)
    requires
        0 <= at <= sorted.len(),
        forall|j: int| at <= j < sorted.len() ==> !average_le(#[trigger] sorted[j], group),
    ensures
        slot(sorted, group) == slot(sorted.take(at), group),
    decreases sorted.len() - at,
{
    if at < sorted.len() {
        let rest = sorted.drop_last();
        assert(!average_le(sorted[sorted.len() - 1], group));
        assert forall|j: int| at <= j < rest.len() implies !average_le(
            #[trigger] rest[j],
            group,
        ) by {
            assert(rest[j] == sorted[j]);
        }
        lemma_slot_skips(rest, group, at);
        assert(rest.take(at) =~= sorted.take(at));
    } else {
        assert(sorted.take(at) =~= sorted);
    }
}

/// The order in which the groups are served: indices into `groups`, by
/// ascending average angle, groups of equal average in their given order.
fn serving_order(groups: &Vec<Vec<Approach>>) -> (order: Vec<usize>)
    requires
        forall|g: int|
            0 <= g < groups@.len() ==> (#[trigger] groups@[g])@.len() <= u32::MAX
                && angles_in_range(groups@[g]@),
    ensures
        order@.len() == groups@.len(),
        forall|p: int| 0 <= p < order@.len() ==> (#[trigger] order@[p]) < groups@.len(),
        picked(group_views(groups@), order@) == ordered(group_views(groups@)),
{
    let ghost views = group_views(groups@);
    let mut order: Vec<usize> = Vec::new();
    let mut i: usize = 0;
    assert(picked(views, order@) =~= ordered(views.take(0)));
    while i < groups.len()
        invariant
            i <= groups@.len(),
            views == group_views(groups@),
            order@.len() == i,
            forall|p: int| 0 <= p < order@.len() ==> (#[trigger] order@[p]) < i,
            picked(views, order@) == ordered(views.take(i as int)),
            forall|g: int|
                0 <= g < groups@.len() ==> (#[trigger] groups@[g])@.len() <= u32::MAX
                    && angles_in_range(groups@[g]@),
        decreases groups.len() - i,
    {
        let ghost sorted = picked(views, order@);
        let ghost group = views[i as int];
        let mut at: usize = order.len();
        while at > 0 && !average_at_most(&groups[order[at - 1]], &groups[i])
            invariant
                at <= order@.len(),
                i < groups@.len(),
                views == group_views(groups@),
                sorted == picked(views, order@),
                group == views[i as int],
                forall|p: int| 0 <= p < order@.len() ==> (#[trigger] order@[p]) < i,
                forall|j: int| at <= j < sorted.len() ==> !average_le(#[trigger] sorted[j], group),
                forall|g: int|
                    0 <= g < groups@.len() ==> (#[trigger] groups@[g])@.len() <= u32::MAX
                        && angles_in_range(groups@[g]@),
            decreases at,
        {
            proof {
                assert(sorted[at - 1] == groups@[order@[at - 1] as int]@);
            }
            at -= 1;
        }
        proof {
            lemma_slot_skips(sorted, group, at as int);
            if at > 0 {
                assert(sorted[at - 1] == groups@[order@[at - 1] as int]@);
                assert(sorted.take(at as int).last() == sorted[at - 1]);
            }
            assert(slot(sorted, group) == at);
            assert(views.take(i + 1).drop_last() =~= views.take(i as int));
            assert(views.take(i + 1).last() == group);
        }
        order.insert(at, i);
        proof {
            assert(picked(views, order@) =~= sorted.insert(at as int, group));
        }
        i += 1;
    }
    assert(views.take(i as int) =~= views);
    order
}

/// The lane identifiers of the members.
fn member_ids(members: &Vec<Approach>) -> (ids: Vec<u32>)
    ensures
        ids@ == members@.map_values(|a: Approach| a.lane_id),
{
    let mut ids: Vec<u32> = Vec::new();
    let mut i: usize = 0;
    while i < members.len()
        invariant
            i <= members.len(),
            ids@ == members@.take(i as int).map_values(|a: Approach| a.lane_id),
        decreases members.len() - i,
    {
        ids.push(members[i].lane_id);
        assert(members@.take(i + 1).map_values(|a: Approach| a.lane_id) =~= members@.take(
            i as int,
        ).map_values(|a: Approach| a.lane_id).push(members@[i as int].lane_id));
        i += 1;
    }
    assert(members@.take(i as int) =~= members@);
    ids
}

/// Each lane with its approach angle.
pub fn lane_approaches(lanes: &Vec<Lane>) -> (approaches: Vec<Approach>)
    requires
        forall|i: int|
            0 <= i < lanes@.len() ==> (#[trigger] lanes@[i]).well_formed() && lanes@[i].controlled(),
    ensures
        approaches@ == approaches_of(lanes@),
        angles_in_range(approaches@),
{
    let mut approaches: Vec<Approach> = Vec::new();
    let mut i: usize = 0;
    while i < lanes.len()
        invariant
            i <= lanes.len(),
            approaches@ == approaches_of(lanes@.take(i as int)),
            angles_in_range(approaches@),
            forall|k: int|
                0 <= k < lanes@.len() ==> (#[trigger] lanes@[k]).well_formed()
                    && lanes@[k].controlled(),
        decreases lanes.len() - i,
    {
        let lane: Lane = lanes[i];
        proof {
            assert(lanes@[i as int].well_formed());
        }
        let angle: u32 = compute_lane_angle(&lane);
        approaches.push(Approach { lane_id: lane.id, angle });
        assert(approaches_of(lanes@.take(i + 1)) =~= approaches_of(lanes@.take(i as int)).push(
            Approach { lane_id: lane.id, angle },
        ));
        i += 1;
    }
    assert(lanes@.take(i as int) =~= lanes@);
    approaches
}

/// Groups the lanes that enter a junction into its signal phases.
///
/// Returns the lane identifiers of each group, with the groups in ascending
/// order of average approach angle.
pub fn group_lanes_by_direction(lanes: &Vec<Lane>) -> (groups: Vec<Vec<u32>>)
    requires
        lanes@.len() <= u32::MAX,
        forall|i: int|
            0 <= i < lanes@.len() ==> (#[trigger] lanes@[i]).well_formed() && lanes@[i].controlled(),
    ensures
        id_views(groups@) == phases(lanes@),
{
    let approaches: Vec<Approach> = lane_approaches(lanes);
    let formed: Vec<Vec<Approach>> = partition_approaches(&approaches);
    let order: Vec<usize> = serving_order(&formed);
    let ghost sorted = ordered(group_views(formed@));
    let mut groups: Vec<Vec<u32>> = Vec::new();
    let mut p: usize = 0;
    assert(id_views(groups@) =~= group_ids(sorted.take(0)));
    assert(sorted.len() == picked(group_views(formed@), order@).len());
    while p < order.len()
        invariant
            p <= order@.len(),
            order@.len() == formed@.len(),
            sorted.len() == order@.len(),
            groups@.len() == p,
            forall|q: int| 0 <= q < order@.len() ==> (#[trigger] order@[q]) < formed@.len(),
            picked(group_views(formed@), order@) == sorted,
            id_views(groups@) == group_ids(sorted.take(p as int)),
        decreases order.len() - p,
    {
        let ids: Vec<u32> = member_ids(&formed[order[p]]);
        let ghost before = id_views(groups@);
        let ghost held = groups@;
        groups.push(ids);
        proof {
            assert(sorted[p as int] == formed@[order@[p as int] as int]@);
            let now = id_views(groups@);
            let goal = group_ids(sorted.take(p + 1));
            assert(now.len() == goal.len());
            assert forall|q: int| 0 <= q < now.len() implies now[q] == goal[q] by {
                if q < p {
                    assert(groups@[q] == held[q]);
                    assert(before[q] == held[q]@);
                    assert(before[q] == group_ids(sorted.take(p as int))[q]);
                    assert(sorted.take(p as int)[q] == sorted.take(p + 1)[q]);
                }
            }
            assert(now =~= goal);
        }
        p += 1;
    }
    assert(sorted.take(p as int) =~= sorted);
    groups
}

} // verus!
