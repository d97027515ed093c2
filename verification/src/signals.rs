//! Signals: the colour of each controlled lane, and the phase cycle of a
//! junction.
//!
//! A junction serves its groups of lanes in turn. A group shows green for
//! the green time, then every lane of the junction shows red for the
//! clearance time, then the next group is served. The controller here
//! decides; whoever drives it waits for the time that each change asks for.

use crate::events::{LightStatus, Recommendation};
use crate::grouping::{group_lanes_by_direction, id_views, phases};
use crate::grouping_laws::{distinct_lanes, in_phase, lemma_phases};
use crate::lanes::{load_lanes, standard_table, table_valid, Lane, INTERSECTION_COUNT};
use std::collections::HashMap;
use vstd::prelude::*;
use vstd::std_specs::hash::*;
use vstd::string::StringExecFns;

verus! {

broadcast use group_hash_axioms;

/// Seconds for which a group shows green.
pub const GREEN_DURATION: u64 = 5;

/// Seconds for which a junction shows red on every lane between two groups.
pub const CLEARANCE_DURATION: u64 = 10;

/// What a signal shows.
#[derive(Clone, Copy, Debug, PartialEq, Eq, Structural)]
pub enum LightColor {
    Red,
    Green,
}

/// The lane `id` has a signal and it shows green.
pub open spec fn shows_green(lights: Map<u32, LightColor>, id: u32) -> bool {
    lights.contains_key(id) && lights[id] == LightColor::Green
}

/// Whether a vehicle may enter the lane: its signal shows green. A lane
/// without a signal is never entered.
pub fn can_proceed_lane(lane_id: u32, lights: &HashMap<u32, LightColor>) -> (go: bool)
    ensures
        go == shows_green(lights@, lane_id),
{
    match lights.get(&lane_id) {
        Some(color) => *color == LightColor::Green,
        None => false,
    }
}

/// `id` is the identifier of a lane of `lanes` that ends at an intersection.
pub open spec fn controlled_id(lanes: Seq<Lane>, id: u32) -> bool {
    exists|i: int| 0 <= i < lanes.len() && (#[trigger] lanes[i]).id == id && lanes[i].controlled()
}

/// All signals red: one entry for every lane that ends at an intersection.
pub open spec fn all_red(lanes: Seq<Lane>, lights: Map<u32, LightColor>) -> bool {
    &&& forall|id: u32| #[trigger] lights.contains_key(id) <==> controlled_id(lanes, id)
    &&& forall|id: u32| #[trigger]
        lights.contains_key(id) ==> lights[id] == LightColor::Red
}

/// The signals of `lanes` at start-up: every controlled lane shows red.
pub fn lights_for(lanes: &Vec<Lane>) -> (lights: HashMap<u32, LightColor>)
    ensures
        all_red(lanes@, lights@),
{
    let mut lights: HashMap<u32, LightColor> = HashMap::new();
    let mut i: usize = 0;
    while i < lanes.len()
        invariant
            i <= lanes.len(),
            all_red(lanes@.take(i as int), lights@),
        decreases lanes.len() - i,
    {
        let lane: Lane = lanes[i];
        let ghost before = lights@;
        let ghost seen = lanes@.take(i as int);
        let ghost more = lanes@.take(i + 1);
        if lane.end_intersection != 0 {
            lights.insert(lane.id, LightColor::Red);
        }
        proof {
            assert(more[i as int] == lane);
            assert forall|id: u32| #[trigger] lights@.contains_key(id) <==> controlled_id(
                more,
                id,
            ) by {
                if controlled_id(seen, id) {
                    let k = choose|k: int|
                        0 <= k < seen.len() && (#[trigger] seen[k]).id == id
                            && seen[k].controlled();
                    assert(more[k] == seen[k]);
                }
                if controlled_id(more, id) {
                    let k = choose|k: int|
                        0 <= k < more.len() && (#[trigger] more[k]).id == id
                            && more[k].controlled();
                    if k < i {
                        assert(seen[k] == more[k]);
                    }
                }
            }
        }
        i += 1;
    }
    assert(lanes@.take(i as int) =~= lanes@);
    lights
}

/// The signals of the street grid at start-up: every controlled lane of the
/// lane table shows red.
pub fn initialize_traffic_lights() -> (lights: HashMap<u32, LightColor>)
    ensures
        all_red(standard_table(), lights@),
{
    let lanes: Vec<Lane> = load_lanes();
    lights_for(&lanes)
}

/// The lanes of `lanes` that end at `junction`, in table order.
pub open spec fn entering(lanes: Seq<Lane>, junction: u32) -> Seq<Lane>
    decreases lanes.len(),
{
    if lanes.len() == 0 {
        Seq::empty()
    } else if lanes.last().end_intersection == junction {
        entering(lanes.drop_last(), junction).push(lanes.last())
    } else {
        entering(lanes.drop_last(), junction)
    }
}

/// The lanes that enter a junction are lanes of the table, in table order;
/// they are as well formed and as distinct as the table's lanes.
pub proof fn lemma_entering(lanes: Seq<Lane>, junction: u32)
    ensures
        entering(lanes, junction).len() <= lanes.len(),
        forall|k: int|
            0 <= k < entering(lanes, junction).len() ==> lanes.contains(
                #[trigger] entering(lanes, junction)[k],
            ) && entering(lanes, junction)[k].end_intersection == junction,
        forall|i: int|
            0 <= i < lanes.len() && (#[trigger] lanes[i]).end_intersection == junction
                ==> entering(lanes, junction).contains(lanes[i]),
        table_valid(lanes) ==> table_valid(entering(lanes, junction)),
    decreases lanes.len(),
{
    if lanes.len() > 0 {
        let rest = lanes.drop_last();
        let last = lanes.last();
        let inner = entering(rest, junction);
        let outer = entering(lanes, junction);
        lemma_entering(rest, junction);
        assert forall|k: int| 0 <= k < outer.len() implies lanes.contains(#[trigger] outer[k])
            && outer[k].end_intersection == junction by {
            if k < inner.len() {
                assert(rest.contains(inner[k]));
                let i = choose|i: int| 0 <= i < rest.len() && rest[i] == inner[k];
                assert(lanes[i] == inner[k]);
            } else {
                assert(lanes[lanes.len() - 1] == last);
            }
        }
        assert forall|i: int|
            0 <= i < lanes.len() && (#[trigger] lanes[i]).end_intersection
                == junction implies outer.contains(lanes[i]) by {
            if i < rest.len() {
                assert(rest[i] == lanes[i]);
                assert(inner.contains(rest[i]));
                let k = choose|k: int| 0 <= k < inner.len() && inner[k] == rest[i];
                assert(outer[k] == lanes[i]);
            } else {
                assert(outer[outer.len() - 1] == lanes[i]);
            }
        }
        if table_valid(lanes) {
            assert forall|i: int| 0 <= i < rest.len() implies (#[trigger] rest[i]).well_formed() by {
                assert(lanes[i].well_formed());
            }
            assert forall|i: int, j: int| 0 <= i < j < rest.len() implies (#[trigger] rest[i]).id
                != (#[trigger] rest[j]).id by {
                assert(lanes[i].id != lanes[j].id);
            }
            assert(table_valid(inner));
            assert forall|k: int| 0 <= k < outer.len() implies (#[trigger] outer[k]).well_formed() by {
                if k < inner.len() {
                    assert(inner[k].well_formed());
                } else {
                    assert(lanes[lanes.len() - 1].well_formed());
                }
            }
            assert forall|a: int, b: int| 0 <= a < b < outer.len() implies (#[trigger] outer[a]).id
                != (#[trigger] outer[b]).id by {
                if b < inner.len() {
                    assert(inner[a].id != inner[b].id);
                } else {
                    assert(rest.contains(inner[a]));
                    let i = choose|i: int| 0 <= i < rest.len() && rest[i] == inner[a];
                    assert(lanes[i].id != lanes[lanes.len() - 1].id);
                }
            }
        }
    }
}

/// The lanes of `lanes` that end at `junction`, in table order.
pub fn incoming_lanes(lanes: &Vec<Lane>, junction: u32) -> (found: Vec<Lane>)
    ensures
        found@ == entering(lanes@, junction),
{
    let mut found: Vec<Lane> = Vec::new();
    let mut i: usize = 0;
    while i < lanes.len()
        invariant
            i <= lanes.len(),
            found@ == entering(lanes@.take(i as int), junction),
        decreases lanes.len() - i,
    {
        let lane: Lane = lanes[i];
        proof {
            assert(lanes@.take(i + 1).drop_last() =~= lanes@.take(i as int));
            assert(lanes@.take(i + 1).last() == lane);
        }
        if lane.end_intersection == junction {
            found.push(lane);
        }
        i += 1;
    }
    assert(lanes@.take(i as int) =~= lanes@);
    found
}

/// The identifiers of `lanes`.
pub open spec fn lane_ids(lanes: Seq<Lane>) -> Seq<u32> {
    lanes.map_values(|lane: Lane| lane.id)
}

/// The state of a junction's phase cycle.
#[derive(Clone, Copy, Debug, PartialEq, Eq, Structural)]
pub enum SignalPhase {
    /// Before the first group is served.
    Idle,
    /// The current group shows green.
    Green,
    /// Every lane shows red; the next group is served next.
    AllRed,
}

/// The phase that follows `phase`.
pub open spec fn next_phase(phase: SignalPhase) -> SignalPhase {
    match phase {
        SignalPhase::Idle => SignalPhase::Green,
        SignalPhase::Green => SignalPhase::AllRed,
        SignalPhase::AllRed => SignalPhase::Green,
    }
}

/// The group served after a change out of `phase`, where `index` is the
/// group served before and there are `count` groups: the next group after a
/// clearance, the same group otherwise.
pub open spec fn next_index(phase: SignalPhase, index: int, count: int) -> int {
    match phase {
        SignalPhase::AllRed => (index + 1) % count,
        _ => index,
    }
}

/// Seconds for which `phase` lasts.
pub open spec fn hold_of(phase: SignalPhase, green: u64, clearance: u64) -> u64 {
    match phase {
        SignalPhase::Idle => 0,
        SignalPhase::Green => green,
        SignalPhase::AllRed => clearance,
    }
}

/// The colour that lane `id` shows in `phase` while `group` is served.
pub open spec fn color_in(phase: SignalPhase, group: Seq<u32>, id: u32) -> LightColor {
    if phase == SignalPhase::Green && group.contains(id) {
        LightColor::Green
    } else {
        LightColor::Red
    }
}

/// The text of a colour.
pub open spec fn color_text(color: LightColor) -> Seq<char> {
    match color {
        LightColor::Green => "Green"@,
        LightColor::Red => "Red"@,
    }
}

/// The lanes of `ids` that are members of `group`, or that are not, in the
/// order of `ids`.
pub open spec fn chosen(ids: Seq<u32>, group: Seq<u32>, members: bool) -> Seq<u32>
    decreases ids.len(),
{
    if ids.len() == 0 {
        Seq::empty()
    } else if group.contains(ids.last()) == members {
        chosen(ids.drop_last(), group, members).push(ids.last())
    } else {
        chosen(ids.drop_last(), group, members)
    }
}

/// The signals after a junction has changed phase: each lane of the
/// junction shows the colour of the phase, every other signal is as it was.
pub open spec fn lights_changed(
    before: Map<u32, LightColor>,
    after: Map<u32, LightColor>,
    ids: Seq<u32>,
    phase: SignalPhase,
    group: Seq<u32>,
) -> bool {
    forall|id: u32|
        #![trigger ids.contains(id)]
        #![trigger after.contains_key(id)]
        if ids.contains(id) {
            after.contains_key(id) && after[id] == color_in(phase, group, id)
        } else {
            after.contains_key(id) == before.contains_key(id) && (before.contains_key(id)
                ==> after[id] == before[id])
        }
}

/// What a phase change asks of whoever drives the controller: the statuses
/// to announce, one per lane of the junction, and the seconds to wait
/// before the next change.
#[derive(Debug, Clone, PartialEq, Eq)]
pub struct PhaseChange {
    /// The phase entered.
    pub phase: SignalPhase,
    /// The group served in this phase, or last served before a clearance.
    pub group_index: usize,
    /// The lanes that now show green, in table order.
    pub green_lanes: Vec<u32>,
    /// The lanes that now show red, in table order.
    pub red_lanes: Vec<u32>,
    /// The status of each lane of the junction, in table order.
    pub statuses: Vec<LightStatus>,
    /// Seconds to hold the phase.
    pub hold_secs: u64,
}

/// The statuses announce, lane by lane, the colours of the phase.
pub open spec fn statuses_announce(
    statuses: Seq<LightStatus>,
    ids: Seq<u32>,
    phase: SignalPhase,
    group: Seq<u32>,
) -> bool {
    &&& statuses.len() == ids.len()
    &&& forall|k: int|
        0 <= k < ids.len() ==> (#[trigger] statuses[k]).lane_id == ids[k] && statuses[k].status@
            == color_text(color_in(phase, group, ids[k]))
}

/// The phase controller of one junction.
pub struct JunctionController {
    /// The junction's intersection.
    pub junction: u32,
    /// The lanes that end at the junction, in table order.
    pub lane_ids: Vec<u32>,
    /// The groups of lanes, in the order in which they are served.
    pub groups: Vec<Vec<u32>>,
    /// The group that is served, or was served last.
    pub group_index: usize,
    /// The current phase.
    pub phase: SignalPhase,
    /// Seconds of green per group.
    pub green_duration: u64,
    /// Seconds of red on every lane between two groups.
    pub clearance_duration: u64,
}

impl JunctionController {
    /// The controller has a group to serve, its groups hold lanes of the
    /// junction only, and no lane is in two groups.
    pub open spec fn wf(self) -> bool {
        &&& self.groups@.len() > 0
        &&& self.group_index < self.groups@.len()
        &&& forall|g: int| 0 <= g < self.groups@.len() ==> (#[trigger] self.groups@[g])@.len() > 0
        &&& forall|g: int, id: u32| #[trigger]
            in_phase(id_views(self.groups@), g, id) ==> self.lane_ids@.contains(id)
        &&& forall|g: int, h: int, id: u32|
            #[trigger] in_phase(id_views(self.groups@), g, id) && #[trigger] in_phase(
                id_views(self.groups@),
                h,
                id,
            ) ==> g == h
    }

    /// The group that is served, or was served last.
    pub open spec fn current_group(self) -> Seq<u32> {
        self.groups@[self.group_index as int]@
    }

    /// The signals of the junction show the controller's phase: a lane of
    /// the junction shows green exactly if the phase is green and the lane
    /// is in the group served.
    pub open spec fn shown_by(self, lights: Map<u32, LightColor>) -> bool {
        forall|id: u32| #[trigger]
            self.lane_ids@.contains(id) ==> lights.contains_key(id) && lights[id] == color_in(
                self.phase,
                self.current_group(),
                id,
            )
    }

    /// A controller for the lanes of `lanes` that end at `junction`, with
    /// the usual green and clearance times, before its first phase.
    ///
    /// There is none where no lane ends at `junction`, and none for
    /// `junction` 0, which is no intersection.
    pub fn new(junction: u32, lanes: &Vec<Lane>) -> (made: Option<JunctionController>)
        requires
            table_valid(lanes@),
            lanes@.len() <= u32::MAX,
        ensures
            made is Some <==> junction != 0 && entering(lanes@, junction).len() > 0,
            made matches Some(c) ==> {
                &&& c.wf()
                &&& c.junction == junction
                &&& c.lane_ids@ == lane_ids(entering(lanes@, junction))
                &&& id_views(c.groups@) == phases(entering(lanes@, junction))
                &&& c.group_index == 0
                &&& c.phase == SignalPhase::Idle
                &&& c.green_duration == GREEN_DURATION
                &&& c.clearance_duration == CLEARANCE_DURATION
            },
    {
        if junction == 0 {
            return None;
        }
        let incoming: Vec<Lane> = incoming_lanes(lanes, junction);
        if incoming.len() == 0 {
            return None;
        }
        proof {
            lemma_entering(lanes@, junction);
            assert forall|i: int| 0 <= i < incoming@.len() implies (
            #[trigger] incoming@[i]).well_formed() && incoming@[i].controlled() by {}
        }
        let groups: Vec<Vec<u32>> = group_lanes_by_direction(&incoming);
        let mut ids: Vec<u32> = Vec::new();
        let mut i: usize = 0;
        while i < incoming.len()
            invariant
                i <= incoming.len(),
                ids@ == lane_ids(incoming@.take(i as int)),
            decreases incoming.len() - i,
        {
            ids.push(incoming[i].id);
            assert(lane_ids(incoming@.take(i + 1)) =~= lane_ids(incoming@.take(i as int)).push(
                incoming@[i as int].id,
            ));
            i += 1;
        }
        proof {
            assert(incoming@.take(i as int) =~= incoming@);
            lemma_phases(incoming@);
            assert(distinct_lanes(incoming@));
            let shown = id_views(groups@);
            assert(shown.len() > 0) by {
                assert(in_phase(shown, choose|g: int| in_phase(shown, g, incoming@[0].id), incoming@[0].id));
            }
            assert forall|g: int| 0 <= g < groups@.len() implies (#[trigger] groups@[g])@.len()
                > 0 by {
                assert(shown[g].len() > 0);
            }
            assert forall|g: int, id: u32| in_phase(shown, g, id) implies ids@.contains(id) by {
                let k = choose|k: int| 0 <= k < shown[g].len() && shown[g][k] == id;
                let at = choose|at: int| 0 <= at < incoming@.len() && incoming@[at].id == shown[g][k];
                assert(ids@[at] == id);
            }
        }
        Some(
            JunctionController {
                junction,
                lane_ids: ids,
                groups,
                group_index: 0,
                phase: SignalPhase::Idle,
                green_duration: GREEN_DURATION,
                clearance_duration: CLEARANCE_DURATION,
            },
        )
    }

    /// Makes the next phase change: from rest or from a clearance to green
    /// for the group whose turn it is, from green to red on every lane.
    ///
    /// Sets the signals of the junction's lanes in `lights`, and leaves
    /// every other signal alone.
    pub fn advance(&mut self, lights: &mut HashMap<u32, LightColor>) -> (change: PhaseChange)
        requires
            old(self).wf(),
        ensures
            final(self).wf(),
            final(self).junction == old(self).junction,
            final(self).lane_ids == old(self).lane_ids,
            final(self).groups == old(self).groups,
            final(self).green_duration == old(self).green_duration,
            final(self).clearance_duration == old(self).clearance_duration,
            final(self).phase == next_phase(old(self).phase),
            final(self).group_index == next_index(
                old(self).phase,
                old(self).group_index as int,
                old(self).groups@.len() as int,
            ),
            lights_changed(
                old(lights)@,
                final(lights)@,
                final(self).lane_ids@,
                final(self).phase,
                final(self).current_group(),
            ),
            final(self).shown_by(final(lights)@),
            change.phase == final(self).phase,
            change.group_index == final(self).group_index,
            change.hold_secs == hold_of(
                final(self).phase,
                final(self).green_duration,
                final(self).clearance_duration,
            ),
            change.green_lanes@ == (if final(self).phase == SignalPhase::Green {
                chosen(final(self).lane_ids@, final(self).current_group(), true)
            } else {
                Seq::empty()
            }),
            change.red_lanes@ == (if final(self).phase == SignalPhase::Green {
                chosen(final(self).lane_ids@, final(self).current_group(), false)
            } else {
                final(self).lane_ids@
            }),
            statuses_announce(
                change.statuses@,
                final(self).lane_ids@,
                final(self).phase,
                final(self).current_group(),
            ),
    {
        let serving: bool = match self.phase {
            SignalPhase::Green => false,
            _ => true,
        };
        if let SignalPhase::AllRed = self.phase {
            let count: usize = self.groups.len();
            proof {
                if self.group_index + 1 < count {
                    vstd::arithmetic::div_mod::lemma_small_mod(
                        (self.group_index + 1) as nat,
                        count as nat,
                    );
                } else {
                    vstd::arithmetic::div_mod::lemma_mod_self_0(count as int);
                }
            }
            self.group_index = if self.group_index == count - 1 {
                0
            } else {
                self.group_index + 1
            };
        }
        self.phase = if serving {
            SignalPhase::Green
        } else {
            SignalPhase::AllRed
        };
        let hold_secs: u64 = if serving {
            self.green_duration
        } else {
            self.clearance_duration
        };
        let ghost before = lights@;
        let ghost ids = self.lane_ids@;
        let ghost group = self.current_group();
        let ghost phase = self.phase;
        let mut green_lanes: Vec<u32> = Vec::new();
        let mut red_lanes: Vec<u32> = Vec::new();
        let mut statuses: Vec<LightStatus> = Vec::new();
        let mut k: usize = 0;
        while k < self.lane_ids.len()
            invariant
                k <= self.lane_ids@.len(),
                self.wf(),
                ids == self.lane_ids@,
                group == self.current_group(),
                phase == self.phase,
                serving == (phase == SignalPhase::Green),
                lights_changed(before, lights@, ids.take(k as int), phase, group),
                green_lanes@ == (if serving {
                    chosen(ids.take(k as int), group, true)
                } else {
                    Seq::empty()
                }),
                red_lanes@ == (if serving {
                    chosen(ids.take(k as int), group, false)
                } else {
                    ids.take(k as int)
                }),
                statuses_announce(statuses@, ids.take(k as int), phase, group),
            decreases self.lane_ids.len() - k,
        {
            let id: u32 = self.lane_ids[k];
            let green: bool = serving && holds(&self.groups[self.group_index], id);
            let ghost lit = lights@;
            let ghost told = statuses@;
            proof {
                assert(ids.take(k + 1).drop_last() =~= ids.take(k as int));
                assert(ids.take(k + 1).last() == id);
            }
            if green {
                lights.insert(id, LightColor::Green);
                green_lanes.push(id);
                statuses.push(LightStatus { lane_id: id, status: String::from_str("Green") });
            } else {
                lights.insert(id, LightColor::Red);
                red_lanes.push(id);
                statuses.push(LightStatus { lane_id: id, status: String::from_str("Red") });
            }
            proof {
                let seen = ids.take(k as int);
                let more = ids.take(k + 1);
                assert(more =~= seen.push(id));
                assert forall|other: u32|
                    #![trigger more.contains(other)]
                    #![trigger lights@.contains_key(other)]
                    if more.contains(other) {
                        lights@.contains_key(other) && lights@[other] == color_in(
                            phase,
                            group,
                            other,
                        )
                    } else {
                        lights@.contains_key(other) == before.contains_key(other) && (
                        before.contains_key(other) ==> lights@[other] == before[other])
                    } by {
                    if other == id {
                        assert(more[k as int] == id);
                    } else {
                        if seen.contains(other) {
                            let at = choose|at: int| 0 <= at < seen.len() && seen[at] == other;
                            assert(more[at] == other);
                        }
                        if more.contains(other) {
                            let at = choose|at: int| 0 <= at < more.len() && more[at] == other;
                            assert(seen[at] == other);
                        }
                        assert(lit.contains_key(other) == lights@.contains_key(other));
                    }
                }
                assert forall|j: int| 0 <= j < more.len() implies (#[trigger] statuses@[j]).lane_id
                    == more[j] && statuses@[j].status@ == color_text(
                    color_in(phase, group, more[j]),
                ) by {
                    if j < k {
                        assert(statuses@[j] == told[j]);
                        assert(more[j] == seen[j]);
                    }
                }
                if !serving {
                    assert(red_lanes@ =~= more);
                }
            }
            k += 1;
        }
        proof {
            assert(ids.take(k as int) =~= ids);
        }
        PhaseChange {
            phase: self.phase,
            group_index: self.group_index,
            green_lanes,
            red_lanes,
            statuses,
            hold_secs,
        }
    }
}

/// The controllers of a street grid: one for every intersection at which a
/// lane ends, in ascending order of intersection, each before its first
/// phase.
pub fn junction_controllers(lanes: &Vec<Lane>) -> (controllers: Vec<JunctionController>)
    requires
        table_valid(lanes@),
        lanes@.len() <= u32::MAX,
    ensures
        forall|k: int|
            0 <= k < controllers@.len() ==> {
                let c = #[trigger] controllers@[k];
                &&& c.wf()
                &&& 1 <= c.junction <= INTERSECTION_COUNT
                &&& entering(lanes@, c.junction).len() > 0
                &&& c.lane_ids@ == lane_ids(entering(lanes@, c.junction))
                &&& id_views(c.groups@) == phases(entering(lanes@, c.junction))
                &&& c.group_index == 0
                &&& c.phase == SignalPhase::Idle
                &&& c.green_duration == GREEN_DURATION
                &&& c.clearance_duration == CLEARANCE_DURATION
            },
        forall|a: int, b: int|
            0 <= a < b < controllers@.len() ==> (#[trigger] controllers@[a]).junction < (
            #[trigger] controllers@[b]).junction,
        forall|junction: u32|
            1 <= junction <= INTERSECTION_COUNT && entering(lanes@, junction).len() > 0
                ==> exists|k: int|
                0 <= k < controllers@.len() && (#[trigger] controllers@[k]).junction == junction,
{
    let mut controllers: Vec<JunctionController> = Vec::new();
    let mut junction: u32 = 1;
    while junction <= INTERSECTION_COUNT
        invariant
            1 <= junction <= INTERSECTION_COUNT + 1,
            table_valid(lanes@),
            lanes@.len() <= u32::MAX,
            forall|k: int|
                0 <= k < controllers@.len() ==> {
                    let c = #[trigger] controllers@[k];
                    &&& c.wf()
                    &&& 1 <= c.junction < junction
                    &&& entering(lanes@, c.junction).len() > 0
                    &&& c.lane_ids@ == lane_ids(entering(lanes@, c.junction))
                    &&& id_views(c.groups@) == phases(entering(lanes@, c.junction))
                    &&& c.group_index == 0
                    &&& c.phase == SignalPhase::Idle
                    &&& c.green_duration == GREEN_DURATION
                    &&& c.clearance_duration == CLEARANCE_DURATION
                },
            forall|a: int, b: int|
                0 <= a < b < controllers@.len() ==> (#[trigger] controllers@[a]).junction < (
                #[trigger] controllers@[b]).junction,
            forall|j: u32|
                1 <= j < junction && entering(lanes@, j).len() > 0 ==> exists|k: int|
                    0 <= k < controllers@.len() && (#[trigger] controllers@[k]).junction == j,
        decreases INTERSECTION_COUNT + 1 - junction,
    {
        let ghost before = controllers@;
        match JunctionController::new(junction, lanes) {
            Some(controller) => {
                controllers.push(controller);
            },
            None => {},
        }
        proof {
            assert forall|j: u32|
                1 <= j < junction + 1 && entering(lanes@, j).len() > 0 implies exists|k: int|
                0 <= k < controllers@.len() && (#[trigger] controllers@[k]).junction == j by {
                if j < junction {
                    let k = choose|k: int|
                        0 <= k < before.len() && (#[trigger] before[k]).junction == j;
                    assert(controllers@[k] == before[k]);
                } else {
                    assert(controllers@[controllers@.len() - 1].junction == j);
                }
            }
        }
        junction += 1;
    }
    controllers
}

/// Whether `id` is one of `ids`.
pub fn holds(ids: &Vec<u32>, id: u32) -> (found: bool)
    ensures
        found == ids@.contains(id),
{
    let mut i: usize = 0;
    while i < ids.len()
        invariant
            i <= ids.len(),
            forall|j: int| 0 <= j < i ==> ids@[j] != id,
        decreases ids.len() - i,
    {
        if ids[i] == id {
            return true;
        }
        i += 1;
    }
    false
}

/// Gives the recommended lane green at once, whatever its junction's phase.
///
/// A recommendation for a lane without a signal changes nothing; the result
/// says whether the lane has one.
pub fn apply_recommendation(lights: &mut HashMap<u32, LightColor>, rec: &Recommendation) -> (known:
    bool)
    ensures
        known == old(lights)@.contains_key(rec.lane_id),
        known ==> final(lights)@ == old(lights)@.insert(rec.lane_id, LightColor::Green),
        !known ==> final(lights)@ == old(lights)@,
{
    let known: bool = lights.get(&rec.lane_id).is_some();
    if known {
        lights.insert(rec.lane_id, LightColor::Green);
    }
    known
}

/// The colour that a status announces: green for the text `Green`, red for
/// any other.
pub open spec fn announced(status: LightStatus) -> LightColor {
    if status.status@ == "Green"@ {
        LightColor::Green
    } else {
        LightColor::Red
    }
}

/// Records an announced status among the signals observed so far.
pub fn record_light_status(observed: &mut HashMap<u32, LightColor>, status: &LightStatus)
    ensures
        final(observed)@ == old(observed)@.insert(status.lane_id, announced(*status)),
{
    let green: String = String::from_str("Green");
    let color: LightColor = if status.status == green {
        LightColor::Green
    } else {
        LightColor::Red
    };
    observed.insert(status.lane_id, color);
}

} // verus!
