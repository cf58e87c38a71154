use vstd::prelude::*;
use crate::action::{Action, ActionView, promises_kept};
use crate::belief::{
    BallId, Belief, BeliefTest, BeliefTestView, CombatantId, ExpiringBelief, GameTickNumber,
    PlateId, SatisfiableBelief, Vector3Bits,
};
use crate::belief_set::{
    BeliefSet, BeliefSetView, drop_stale, map_sources, set_add_beliefs, set_remove_all_passing,
    set_remove_passing, upsert, upsert_all_sourced,
};
use crate::game_object::TeamAlignment;
use crate::goal::tests_view;
use crate::satisfiable::{FieldTest, SatisfiableField};
use crate::simulation_event::SimulationEvent;
use crate::strategy::Strategy;

verus! {

/// A combatant taking part in a game: its team, its plan of actions, its beliefs and the state
/// the simulation keeps for it. Its body in the physics world, its sensors and the damage it
/// has taken are kept by the caller.
pub struct CombatantObject<S> {
    id: CombatantId,
    team: TeamAlignment,
    completed_action: Option<Action<S>>,
    current_action: Option<Action<S>>,
    plan: Vec<Action<S>>,
    beliefs: BeliefSet,
    on_plate: Option<PlateId>,
    holding_ball: Option<BallId>,
    stunned: bool,
}

/// The model of a [`CombatantObject`]. The plan is executed from its end.
#[verifier::ext_equal]
pub struct CombatantView<S> {
    pub id: CombatantId,
    pub team: TeamAlignment,
    pub completed_action: Option<Action<S>>,
    pub current_action: Option<Action<S>>,
    pub plan: Seq<Action<S>>,
    pub beliefs: BeliefSetView,
    pub on_plate: Option<PlateId>,
    pub holding_ball: Option<BallId>,
    pub stunned: bool,
}

impl<S> View for CombatantObject<S> {
    type V = CombatantView<S>;

    closed spec fn view(&self) -> CombatantView<S> {
        CombatantView {
            id: self.id,
            team: self.team,
            completed_action: self.completed_action,
            current_action: self.current_action,
            plan: self.plan@,
            beliefs: self.beliefs@,
            on_plate: self.on_plate,
            holding_ball: self.holding_ball,
            stunned: self.stunned,
        }
    }
}

/// The belief that a combatant stands on a plate.
pub open spec fn on_plate_belief(c: CombatantId, p: PlateId) -> Belief {
    Belief::OnPlate { plate_id: p, combatant_id: c }
}

/// The test passed by the beliefs that a combatant holds a ball.
pub open spec fn holds_ball_test(c: CombatantId) -> BeliefTestView {
    BeliefTestView::HeldBall { ball_id: FieldTest::Ignore, combatant_id: FieldTest::Exactly(c) }
}

/// The combatant after it steps on a plate: it stands there and believes so.
pub open spec fn stepped_on_plate<S>(c: CombatantView<S>, plate: PlateId) -> CombatantView<S> {
    CombatantView {
        on_plate: Some(plate),
        beliefs: BeliefSetView {
            unsourced: upsert(
                c.beliefs.unsourced,
                ExpiringBelief { belief: on_plate_belief(c.id, plate), expires_on_tick: None },
            ),
            ..c.beliefs
        },
        ..c
    }
}

/// The combatant after it steps off its plate: it no longer stands there nor believes it
/// does. A combatant on no plate is unchanged.
pub open spec fn stepped_off_plate<S>(c: CombatantView<S>) -> CombatantView<S> {
    match c.on_plate {
        None => c,
        Some(p) => CombatantView {
            on_plate: None,
            beliefs: BeliefSetView {
                unsourced: c.beliefs.unsourced.filter(
                    |e: ExpiringBelief| e.belief != on_plate_belief(c.id, p),
                ),
                ..c.beliefs
            },
            ..c
        },
    }
}

/// The combatant with its stun set; a stun abandons the plan and the current action.
pub open spec fn with_stun<S>(c: CombatantView<S>, stunned: bool) -> CombatantView<S> {
    if stunned {
        CombatantView { stunned, plan: seq![], current_action: None, ..c }
    } else {
        CombatantView { stunned, ..c }
    }
}

/// Whether some action of the plan is interrupted by the beliefs.
pub open spec fn plan_interrupted<S: Strategy>(plan: Seq<Action<S>>, beliefs: BeliefSetView) -> bool {
    exists|i: int| 0 <= i < plan.len() && (#[trigger] plan[i]).spec_strategy().spec_should_interrupt(beliefs)
}

/// Whether an action is complete for these beliefs: its strategy finished, or all it promised
/// is believed.
pub open spec fn action_complete<S: Strategy>(a: Action<S>, beliefs: BeliefSetView) -> bool {
    a.spec_strategy().spec_is_complete() || promises_kept(a@, beliefs)
}

/// The events announcing the catches among a combatant's completion beliefs.
pub open spec fn catch_events(c: CombatantId, completion: Seq<Belief>) -> Seq<SimulationEvent>
    decreases completion.len(),
{
    if completion.len() == 0 {
        seq![]
    } else {
        let rest = catch_events(c, completion.drop_last());
        match completion.last() {
            Belief::BallCaught { combatant_id, thrower_id, ball_id } => if combatant_id == c {
                rest.push(
                    SimulationEvent::ThrownBallCaught { thrower_id, catcher_id: combatant_id, ball_id },
                )
            } else {
                rest
            },
            _ => rest,
        }
    }
}

/// The events sharing a combatant's broadcast beliefs with the others.
pub open spec fn broadcast_events(c: CombatantId, broadcast: Seq<Belief>) -> Seq<SimulationEvent> {
    broadcast.map_values(|b: Belief| SimulationEvent::BroadcastBelief { from_combatant_id: c, belief: b })
}

/// The combatant after an action it ran has finished: it remembers the action as completed,
/// believes the action's completion beliefs and forgets those the action consumes.
pub open spec fn after_completion<S>(c: CombatantView<S>, a: Action<S>) -> CombatantView<S> {
    CombatantView {
        completed_action: Some(a),
        beliefs: set_remove_all_passing(set_add_beliefs(c.beliefs, a@.completion), a@.consumed),
        ..c
    }
}

/// Whether a list of events holds a position update of a combatant.
pub open spec fn has_position_update(events: Seq<SimulationEvent>) -> bool {
    exists|i: int| 0 <= i < events.len() && (#[trigger] events[i]) is CombatantPositionUpdate
}

impl<S: Strategy> CombatantObject<S> {
    /// The combatant's beliefs are well formed.
    pub closed spec fn well_formed(&self) -> bool {
        self.beliefs.well_formed()
    }

    /// A combatant of a team with no beliefs, no plan, on no plate, holding nothing.
    pub fn new(id: CombatantId, team: TeamAlignment) -> (r: Self)
        ensures
            r.well_formed(),
            r@.id == id,
            r@.team == team,
            r@.completed_action is None,
            r@.current_action is None,
            r@.plan == Seq::<Action<S>>::empty(),
            r@.beliefs.unsourced == Seq::<ExpiringBelief>::empty(),
            r@.beliefs.sourced == Seq::<(u32, Seq<ExpiringBelief>)>::empty(),
            r@.on_plate is None,
            r@.holding_ball is None,
            !r@.stunned,
    {
        CombatantObject {
            id,
            team,
            completed_action: None,
            current_action: None,
            plan: Vec::new(),
            beliefs: BeliefSet::empty(),
            on_plate: None,
            holding_ball: None,
            stunned: false,
        }
    }

    pub fn id(&self) -> (r: CombatantId)
        ensures
            r == self@.id,
    {
        self.id
    }

    pub fn team(&self) -> (r: TeamAlignment)
        ensures
            r == self@.team,
    {
        self.team
    }

    /// The action being carried out, if any.
    pub fn current_action(&self) -> (r: Option<&Action<S>>)
        ensures
            match r {
                Some(a) => self@.current_action == Some(*a),
                None => self@.current_action is None,
            },
    {
        match &self.current_action {
            Some(a) => Some(a),
            None => None,
        }
    }

    /// The action completed last, if the latest action run finished.
    pub fn completed_action(&self) -> (r: Option<&Action<S>>)
        ensures
            match r {
                Some(a) => self@.completed_action == Some(*a),
                None => self@.completed_action is None,
            },
    {
        match &self.completed_action {
            Some(a) => Some(a),
            None => None,
        }
    }

    /// The number of actions left in the plan.
    pub fn plan_len(&self) -> (r: usize)
        ensures
            r == self@.plan.len(),
    {
        self.plan.len()
    }

    /// The combatant steps on a plate.
    pub fn set_on_plate(&mut self, plate_id: PlateId)
        requires
            old(self).well_formed(),
        ensures
            final(self).well_formed(),
            final(self)@ == stepped_on_plate(old(self)@, plate_id),
    {
        self.on_plate = Some(plate_id);
        self.beliefs.add_belief(Belief::OnPlate { combatant_id: self.id, plate_id });
    }

    /// The combatant steps off the plate it stands on, if any.
    pub fn set_off_plate(&mut self)
        requires
            old(self).well_formed(),
        ensures
            final(self).well_formed(),
            final(self)@ == stepped_off_plate(old(self)@),
    {
        let old_plate_id = match self.on_plate {
            Some(p) => p,
            None => {
                return;
            },
        };
        self.on_plate = None;
        self.beliefs.remove_belief(Belief::OnPlate { combatant_id: self.id, plate_id: old_plate_id });
    }

    /// The plate the combatant stands on.
    pub fn plate(&self) -> (r: Option<PlateId>)
        ensures
            r == self@.on_plate,
    {
        self.on_plate
    }

    /// The combatant now holds a ball.
    pub fn pickup_ball(&mut self, ball_id: BallId)
        ensures
            final(self)@ == (CombatantView { holding_ball: Some(ball_id), ..old(self)@ }),
            final(self).well_formed() == old(self).well_formed(),
    {
        self.holding_ball = Some(ball_id);
    }

    /// The combatant no longer holds a ball.
    pub fn drop_ball(&mut self)
        ensures
            final(self)@ == (CombatantView { holding_ball: None, ..old(self)@ }),
            final(self).well_formed() == old(self).well_formed(),
    {
        self.holding_ball = None;
    }

    /// The ball the combatant holds.
    pub fn ball(&self) -> (r: Option<BallId>)
        ensures
            r == self@.holding_ball,
    {
        self.holding_ball
    }

    /// Sets or lifts the stun; a stun abandons the plan and the current action.
    pub fn set_stunned(&mut self, stunned: bool)
        ensures
            final(self)@ == with_stun(old(self)@, stunned),
            final(self).well_formed() == old(self).well_formed(),
    {
        self.stunned = stunned;
        if stunned {
            self.plan = Vec::new();
            self.current_action = None;
        }
    }

    pub fn is_stunned(&self) -> (r: bool)
        ensures
            r == self@.stunned,
    {
        self.stunned
    }

    /// A copy of the combatant's beliefs.
    pub fn beliefs(&self) -> (r: BeliefSet)
        requires
            self.well_formed(),
        ensures
            r.well_formed(),
            r@ == self@.beliefs,
    {
        self.beliefs.duplicate()
    }

    /// Before sensing: beliefs that have expired are dropped, and so are those that the
    /// combatant holds a ball when it holds none.
    pub fn refresh_beliefs(&mut self, current_tick: GameTickNumber)
        requires
            old(self).well_formed(),
        ensures
            final(self).well_formed(),
            ({
                let fresh = BeliefSetView {
                    unsourced: drop_stale(old(self)@.beliefs.unsourced, current_tick),
                    sourced: map_sources(
                        old(self)@.beliefs.sourced,
                        |l: Seq<ExpiringBelief>| drop_stale(l, current_tick),
                    ),
                };
                final(self)@ == (CombatantView {
                    beliefs: if old(self)@.holding_ball is None {
                        set_remove_passing(fresh, holds_ball_test(old(self)@.id))
                    } else {
                        fresh
                    },
                    ..old(self)@
                })
            }),
    {
        self.beliefs.expire_stale_beliefs(current_tick);
        if self.holding_ball.is_none() {
            let test = SatisfiableBelief::HeldBall().combatant_id(SatisfiableField::Exactly(self.id));
            self.beliefs.remove_beliefs_by_test(&test);
        }
    }

    /// Takes in what a sensor reported: its beliefs are recorded under its id, and a sensor
    /// that asks for it abandons the plan and the current action.
    pub fn absorb_sensor_reading(
        &mut self,
        sensor_id: u32,
        new_beliefs: &[ExpiringBelief],
        should_interrupt: bool,
    )
        requires
            old(self).well_formed(),
        ensures
            final(self).well_formed(),
            ({
                let sensed = CombatantView {
                    beliefs: BeliefSetView {
                        sourced: upsert_all_sourced(old(self)@.beliefs.sourced, sensor_id, new_beliefs@),
                        ..old(self)@.beliefs
                    },
                    ..old(self)@
                };
                final(self)@ == if should_interrupt {
                    CombatantView { plan: seq![], current_action: None, ..sensed }
                } else {
                    sensed
                }
            }),
    {
        self.beliefs.add_expiring_beliefs_from_source(sensor_id, new_beliefs);
        if should_interrupt {
            self.plan = Vec::new();
            self.current_action = None;
        }
    }

    /// The events of a stunned combatant's tick: the end of its stun when it recovered.
    pub fn stunned_tick_events(&self, recovered: bool) -> (r: Vec<SimulationEvent>)
        ensures
            r@ == if recovered {
                seq![SimulationEvent::CombatantStunned { combatant_id: self@.id, start: false }]
            } else {
                seq![]
            },
    {
        let mut events: Vec<SimulationEvent> = Vec::new();
        if recovered {
            events.push(SimulationEvent::CombatantStunned { combatant_id: self.id, start: false });
        }
        events
    }

    /// Abandons the plan and the current action when the beliefs interrupt an action of the
    /// plan.
    pub fn interrupt_plan_if_needed(&mut self)
        requires
            old(self).well_formed(),
        ensures
            final(self).well_formed(),
            final(self)@ == if plan_interrupted(old(self)@.plan, old(self)@.beliefs) {
                CombatantView { plan: seq![], current_action: None, ..old(self)@ }
            } else {
                old(self)@
            },
    {
        let mut i: usize = 0;
        while i < self.plan.len()
            invariant
                i <= self.plan.len(),
                self@ == old(self)@,
                self.well_formed(),
                forall|j: int| 0 <= j < i ==> !(#[trigger] self.plan@[j]).spec_strategy().spec_should_interrupt(self.beliefs@),
            decreases self.plan.len() - i,
        {
            if self.plan[i].should_interrupt(&self.beliefs) {
                self.plan = Vec::new();
                self.current_action = None;
                return;
            }
            i = i + 1;
        }
    }

    /// Forgets every belief passing a test.
    pub fn forget_beliefs(&mut self, test: &BeliefTest)
        requires
            old(self).well_formed(),
        ensures
            final(self).well_formed(),
            final(self)@ == (CombatantView {
                beliefs: set_remove_passing(old(self)@.beliefs, test@),
                ..old(self)@
            }),
    {
        self.beliefs.remove_beliefs_by_test(test);
    }

    /// Takes in a belief shared by another combatant.
    pub fn share_belief(&mut self, belief: ExpiringBelief)
        requires
            old(self).well_formed(),
        ensures
            final(self).well_formed(),
            final(self)@ == (CombatantView {
                beliefs: BeliefSetView {
                    unsourced: upsert(old(self)@.beliefs.unsourced, belief),
                    ..old(self)@.beliefs
                },
                ..old(self)@
            }),
    {
        self.beliefs.add_expiring_belief(belief);
    }

    /// Whether the combatant has neither a current action nor a plan, and so needs a new plan.
    pub fn needs_plan(&self) -> (r: bool)
        ensures
            r == (self@.current_action is None && self@.plan.len() == 0),
    {
        self.current_action.is_none() && self.plan.len() == 0
    }

    /// Adopts a new plan.
    pub fn set_plan(&mut self, plan: Vec<Action<S>>)
        ensures
            final(self)@ == (CombatantView { plan: plan@, ..old(self)@ }),
            final(self).well_formed() == old(self).well_formed(),
    {
        self.plan = plan;
    }

    /// Without a current action, the last action of the plan becomes the current one. Returns
    /// whether there is a current action.
    pub fn advance_plan(&mut self) -> (r: bool)
        ensures
            final(self).well_formed() == old(self).well_formed(),
            final(self)@ == if old(self)@.current_action is None && old(self)@.plan.len() > 0 {
                CombatantView {
                    current_action: Some(old(self)@.plan.last()),
                    plan: old(self)@.plan.drop_last(),
                    ..old(self)@
                }
            } else {
                old(self)@
            },
            r == (final(self)@.current_action is Some),
    {
        if self.current_action.is_none() {
            match self.plan.pop() {
                Some(next) => {
                    self.current_action = Some(next);
                },
                None => {},
            }
        }
        self.current_action.is_some()
    }

    /// Takes the current action out, to run it.
    pub fn take_current_action(&mut self) -> (r: Option<Action<S>>)
        ensures
            r == old(self)@.current_action,
            final(self)@ == (CombatantView { current_action: None, ..old(self)@ }),
            final(self).well_formed() == old(self).well_formed(),
    {
        self.current_action.take()
    }

    /// After an action has run for a tick: an unfinished action stays current; a finished one
    /// becomes the completed action, its completion beliefs are believed and its consumed
    /// beliefs forgotten, and the events sharing its broadcast beliefs and announcing its
    /// catches are returned.
    pub fn conclude_action(&mut self, action: Action<S>) -> (r: Vec<SimulationEvent>)
        requires
            old(self).well_formed(),
        ensures
            final(self).well_formed(),
            action_complete(action, old(self)@.beliefs) ==> {
                &&& final(self)@ == after_completion(old(self)@, action)
                &&& r@ == broadcast_events(old(self)@.id, action@.broadcast) + catch_events(
                    old(self)@.id,
                    action@.completion,
                )
            },
            !action_complete(action, old(self)@.beliefs) ==> {
                &&& final(self)@ == (CombatantView {
                    completed_action: None,
                    current_action: Some(action),
                    ..old(self)@
                })
                &&& r@ == Seq::<SimulationEvent>::empty()
            },
    {
        let mut events: Vec<SimulationEvent> = Vec::new();
        if !action.is_complete(&self.beliefs) {
            self.completed_action = None;
            self.current_action = Some(action);
            return events;
        }
        let broadcast = action.broadcast_beliefs();
        let mut i: usize = 0;
        while i < broadcast.len()
            invariant
                i <= broadcast.len(),
                events@ == broadcast_events(self.id, broadcast@.take(i as int)),
            decreases broadcast.len() - i,
        {
            events.push(SimulationEvent::BroadcastBelief { from_combatant_id: self.id, belief: broadcast[i] });
            i = i + 1;
            assert(events@ =~= broadcast_events(self.id, broadcast@.take(i as int)));
        }
        assert(broadcast@.take(broadcast.len() as int) =~= broadcast@);
        let ghost front = events@;
        let completion = action.completion_beliefs();
        let mut k: usize = 0;
        while k < completion.len()
            invariant
                k <= completion.len(),
                events@ == front + catch_events(self.id, completion@.take(k as int)),
            decreases completion.len() - k,
        {
            proof {
                assert(completion@.take(k + 1).drop_last() =~= completion@.take(k as int));
            }
            match completion[k] {
                Belief::BallCaught { combatant_id, thrower_id, ball_id } => {
                    if combatant_id == self.id {
                        events.push(SimulationEvent::ThrownBallCaught {
                            thrower_id,
                            catcher_id: combatant_id,
                            ball_id,
                        });
                    }
                },
                _ => {},
            }
            k = k + 1;
            assert(events@ =~= front + catch_events(self.id, completion@.take(k as int)));
        }
        assert(completion@.take(completion.len() as int) =~= completion@);
        let mut beliefs = self.beliefs.duplicate();
        beliefs.add_beliefs(action.completion_beliefs().as_slice());
        let consumed = action.consumed_beliefs();
        let ghost added = beliefs@;
        let mut j: usize = 0;
        while j < consumed.len()
            invariant
                j <= consumed.len(),
                beliefs.well_formed(),
                beliefs@ == set_remove_all_passing(added, tests_view(consumed@.take(j as int))),
            decreases consumed.len() - j,
        {
            beliefs.remove_beliefs_by_test(&consumed[j]);
            proof {
                assert(tests_view(consumed@.take(j + 1)).drop_last() =~= tests_view(consumed@.take(j as int)));
                assert(tests_view(consumed@.take(j + 1)).last() == consumed@[j as int]@);
            }
            j = j + 1;
        }
        assert(consumed@.take(consumed.len() as int) =~= consumed@);
        self.beliefs = beliefs;
        self.completed_action = Some(action);
        events
    }
}

/// The events of a combatant's tick, with a position update added (at the given position) when
/// none is among them.
pub fn with_position_update(
    combatant_id: CombatantId,
    events: Vec<SimulationEvent>,
    position: Vector3Bits,
) -> (r: Vec<SimulationEvent>)
    ensures
        r@ == if has_position_update(events@) {
            events@
        } else {
            seq![SimulationEvent::CombatantPositionUpdate { combatant_id, position }] + events@
        },
{
    let mut i: usize = 0;
    while i < events.len()
        invariant
            i <= events.len(),
            forall|j: int| 0 <= j < i ==> !((#[trigger] events@[j]) is CombatantPositionUpdate),
        decreases events.len() - i,
    {
        match events[i] {
            SimulationEvent::CombatantPositionUpdate { .. } => {
                return events;
            },
            _ => {},
        }
        i = i + 1;
    }
    let mut out: Vec<SimulationEvent> = Vec::new();
    out.push(SimulationEvent::CombatantPositionUpdate { combatant_id, position });
    let mut rest = events;
    out.append(&mut rest);
    out
}

} // verus!
