use vstd::prelude::*;
use crate::belief::CombatantId;
use crate::simulation_event::SimulationEvent;

verus! {

/// The points that one event awards a combatant.
pub open spec fn points_for(combatant_id: CombatantId, e: SimulationEvent) -> nat {
    match e {
        SimulationEvent::PointsScoredByCombatant { combatant_id: cid, points, .. } => if cid
            == combatant_id {
            points as nat
        } else {
            0
        },
        _ => 0,
    }
}

/// The total of the points that a list of events awards a combatant.
pub open spec fn points_scored(combatant_id: CombatantId, events: Seq<SimulationEvent>) -> nat
    decreases events.len(),
{
    if events.len() == 0 {
        0
    } else {
        points_scored(combatant_id, events.drop_last()) + points_for(combatant_id, events.last())
    }
}

/// The points of a prefix of the events are no more than those of all of them.
pub proof fn lemma_points_prefix(combatant_id: CombatantId, events: Seq<SimulationEvent>, k: int)
    requires
        0 <= k <= events.len(),
    ensures
        points_scored(combatant_id, events.take(k)) <= points_scored(combatant_id, events),
    decreases events.len() - k,
{
    if k < events.len() {
        lemma_points_prefix(combatant_id, events, k + 1);
        assert(events.take(k + 1).drop_last() =~= events.take(k));
    } else {
        assert(events.take(k) =~= events);
    }
}

/// A statistic computed for a combatant from the events of a game.
pub trait GameStat {
    type ValueT;

    /// Whether the statistic can be computed for these events without overflowing its type.
    spec fn spec_fits(&self, combatant_id: CombatantId, events: Seq<SimulationEvent>) -> bool;

    /// The name under which the statistic is shown.
    fn name(&self) -> String;

    /// The statistic for a combatant.
    fn calculate(&self, combatant_id: CombatantId, events: &Vec<SimulationEvent>) -> Option<
        Self::ValueT,
    >
        requires
            self.spec_fits(combatant_id, events@),
    ;
}

/// The points a combatant scored.
#[derive(Debug)]
pub struct GameStatPointsScored;

impl GameStatPointsScored {
    /// The points a combatant scored: the sum of the points of the events that award points to
    /// it (zero when there are none).
    pub fn points(&self, combatant_id: CombatantId, events: &Vec<SimulationEvent>) -> (r: i32)
        requires
            points_scored(combatant_id, events@) <= i32::MAX,
        ensures
            r == points_scored(combatant_id, events@),
    {
        let mut total: i32 = 0;
        let mut i: usize = 0;
        while i < events.len()
            invariant
                i <= events.len(),
                points_scored(combatant_id, events@) <= i32::MAX,
                total == points_scored(combatant_id, events@.take(i as int)),
            decreases events.len() - i,
        {
            proof {
                lemma_points_prefix(combatant_id, events@, i + 1);
                assert(events@.take(i + 1).drop_last() =~= events@.take(i as int));
            }
            match events[i] {
                SimulationEvent::PointsScoredByCombatant { combatant_id: cid, points, .. } => {
                    if cid == combatant_id {
                        total = total + points as i32;
                    }
                },
                _ => {},
            }
            i = i + 1;
        }
        assert(events@.take(events.len() as int) =~= events@);
        total
    }
}

impl GameStat for GameStatPointsScored {
    type ValueT = i32;

    open spec fn spec_fits(&self, combatant_id: CombatantId, events: Seq<SimulationEvent>) -> bool {
        points_scored(combatant_id, events) <= i32::MAX
    }

    fn name(&self) -> (r: String)
        ensures
            r@ == "Points"@,
    {
        "Points".to_owned()
    }

    fn calculate(&self, combatant_id: CombatantId, events: &Vec<SimulationEvent>) -> (r: Option<i32>)
        ensures
            r == Some(points_scored(combatant_id, events@) as i32),
    {
        Some(self.points(combatant_id, events))
    }
}

} // verus!
