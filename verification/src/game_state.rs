use vstd::prelude::*;
use crate::ball::{BallObject, BallState, with_holder, with_state};
use crate::belief::{BallId, Belief, CombatantId, ExpiringBelief, GameTickNumber, PlateId, SatisfiableBelief};
use crate::belief_set::{BeliefSetView, law_removed_beliefs_fail_test, set_remove_passing, spec_can_satisfy, upsert};
use crate::combatant::{
    CombatantObject, CombatantView, holds_ball_test, stepped_off_plate, stepped_on_plate,
    with_stun,
};
use crate::game_object::TeamAlignment;
use crate::satisfiable::SatisfiableField;
use crate::simulation_event::{PendingSimulationEvent, SimulationEvent};
use crate::strategy::Strategy;

verus! {

/// The bookkeeping of a game in progress: its combatants, its balls, the score and the
/// current tick. The physics world is kept by the caller.
pub struct GameState<S> {
    combatants: Vec<CombatantObject<S>>,
    balls: Vec<BallObject>,
    pub home_points: u16,
    pub away_points: u16,
    pub current_tick: GameTickNumber,
}

/// The model of a [`GameState`].
pub struct GameView<S> {
    pub combatants: Seq<CombatantView<S>>,
    pub balls: Seq<BallObject>,
    pub home_points: u16,
    pub away_points: u16,
    pub current_tick: GameTickNumber,
}

/// The models of a list of combatants.
pub open spec fn combatant_views<S>(cs: Seq<CombatantObject<S>>) -> Seq<CombatantView<S>> {
    cs.map_values(|c: CombatantObject<S>| c@)
}

impl<S> View for GameState<S> {
    type V = GameView<S>;

    closed spec fn view(&self) -> GameView<S> {
        GameView {
            combatants: combatant_views(self.combatants@),
            balls: self.balls@,
            home_points: self.home_points,
            away_points: self.away_points,
            current_tick: self.current_tick,
        }
    }
}

/// The events that pending events carry.
pub open spec fn unwrapped(s: Seq<PendingSimulationEvent>) -> Seq<SimulationEvent> {
    s.map_values(|p: PendingSimulationEvent| p.0)
}

/// Whether a game has a combatant with this id.
pub open spec fn has_combatant<S>(g: GameView<S>, id: CombatantId) -> bool {
    exists|i: int| 0 <= i < g.combatants.len() && (#[trigger] g.combatants[i]).id == id
}

/// The position of a combatant with this id in a list.
pub open spec fn index_of_combatant<S>(cs: Seq<CombatantView<S>>, id: CombatantId) -> int {
    choose|i: int| 0 <= i < cs.len() && (#[trigger] cs[i]).id == id
}

/// The position of the combatant with this id.
pub open spec fn combatant_index<S>(g: GameView<S>, id: CombatantId) -> int {
    index_of_combatant(g.combatants, id)
}

/// The combatant with this id.
pub open spec fn combatant_of<S>(g: GameView<S>, id: CombatantId) -> CombatantView<S> {
    g.combatants[combatant_index(g, id)]
}

/// The game with the combatant of this id replaced.
pub open spec fn with_combatant<S>(g: GameView<S>, id: CombatantId, c: CombatantView<S>) -> GameView<S> {
    GameView { combatants: g.combatants.update(combatant_index(g, id), c), ..g }
}

/// Whether a game has a ball with this id.
pub open spec fn has_ball<S>(g: GameView<S>, id: BallId) -> bool {
    exists|i: int| 0 <= i < g.balls.len() && (#[trigger] g.balls[i]).id == id
}

/// The position of a ball with this id in a list.
pub open spec fn index_of_ball(bs: Seq<BallObject>, id: BallId) -> int {
    choose|i: int| 0 <= i < bs.len() && (#[trigger] bs[i]).id == id
}

/// The position of the ball with this id.
pub open spec fn ball_index<S>(g: GameView<S>, id: BallId) -> int {
    index_of_ball(g.balls, id)
}

/// The ball with this id.
pub open spec fn ball_of<S>(g: GameView<S>, id: BallId) -> BallObject {
    g.balls[ball_index(g, id)]
}

/// The game with the ball of this id replaced.
pub open spec fn with_ball<S>(g: GameView<S>, id: BallId, b: BallObject) -> GameView<S> {
    GameView { balls: g.balls.update(ball_index(g, id), b), ..g }
}

/// No two combatants and no two balls share an id.
pub open spec fn ids_distinct<S>(g: GameView<S>) -> bool {
    &&& forall|i: int, j: int|
        0 <= i < g.combatants.len() && 0 <= j < g.combatants.len() && i != j ==> (
        #[trigger] g.combatants[i]).id != (#[trigger] g.combatants[j]).id
    &&& forall|i: int, j: int|
        0 <= i < g.balls.len() && 0 <= j < g.balls.len() && i != j ==> (#[trigger] g.balls[i]).id
            != (#[trigger] g.balls[j]).id
}

/// The combatant with its ball taken from it (or given to it).
pub open spec fn with_holding<S>(c: CombatantView<S>, ball: Option<BallId>) -> CombatantView<S> {
    CombatantView { holding_ball: ball, ..c }
}

/// The combatant after a belief has been shared with it, expiring twelve ticks from now.
pub open spec fn with_shared_belief<S>(
    c: CombatantView<S>,
    belief: Belief,
    tick: GameTickNumber,
) -> CombatantView<S> {
    CombatantView {
        beliefs: BeliefSetView {
            unsourced: upsert(
                c.beliefs.unsourced,
                ExpiringBelief { belief, expires_on_tick: Some((tick + 12) as u32) },
            ),
            ..c.beliefs
        },
        ..c
    }
}

/// Whether an event can be simulated in a game: the combatants and balls it acts on exist,
/// points fit in the score, and a shared belief's expiry fits in a tick number.
pub open spec fn event_applicable<S>(g: GameView<S>, e: SimulationEvent) -> bool {
    match e {
        SimulationEvent::CombatantOnPlate { combatant_id, .. } => has_combatant(g, combatant_id),
        SimulationEvent::CombatantOffPlate { combatant_id, .. } => has_combatant(g, combatant_id),
        SimulationEvent::CombatantPickedUpBall { combatant_id, ball_id } => has_combatant(
            g,
            combatant_id,
        ) && has_ball(g, ball_id),
        SimulationEvent::ThrownBallCaught { catcher_id, ball_id, .. } => has_combatant(g, catcher_id)
            && has_ball(g, ball_id),
        SimulationEvent::CombatantDroppedBall { combatant_id, ball_id } => has_combatant(
            g,
            combatant_id,
        ) && has_ball(g, ball_id),
        SimulationEvent::BallThrownAtEnemy { thrower_id, ball_id, .. } => has_combatant(g, thrower_id)
            && has_ball(g, ball_id),
        SimulationEvent::BallThrownAtTeammate { thrower_id, ball_id, .. } => has_combatant(
            g,
            thrower_id,
        ) && has_ball(g, ball_id),
        SimulationEvent::BallCollisionArena { ball_id, .. } => has_ball(g, ball_id),
        SimulationEvent::BallExplosion { ball_id, .. } => has_ball(g, ball_id),
        SimulationEvent::BallExplosionForceApplied { combatant_id, .. } => has_combatant(
            g,
            combatant_id,
        ),
        SimulationEvent::PointsScoredByCombatant { combatant_id, points, .. } => has_combatant(
            g,
            combatant_id,
        ) && if combatant_of(g, combatant_id).team == TeamAlignment::Home {
            g.home_points + points <= u16::MAX
        } else {
            g.away_points + points <= u16::MAX
        },
        SimulationEvent::CombatantStunned { combatant_id, start } => has_combatant(g, combatant_id)
            && (start ==> match combatant_of(g, combatant_id).holding_ball {
            Some(b) => has_ball(g, b),
            None => true,
        }),
        SimulationEvent::CombatantShoveForceApplied { recipient_target_id, .. } => has_combatant(
            g,
            recipient_target_id,
        ),
        SimulationEvent::BroadcastBelief { .. } => g.current_tick + 12 <= u32::MAX,
        _ => true,
    }
}

/// What simulating an event does to a game: the game after it, whether the event took effect,
/// and the events it sets off. A combatant picks up or catches a ball only when it is within
/// reach (as measured in the physics world) and not stunned. The parts of an event that act on
/// the physics world (moving bodies, impulses, damage) are the caller's.
pub open spec fn event_outcome<S>(g: GameView<S>, e: SimulationEvent, within_reach: bool) -> (
    GameView<S>,
    bool,
    Seq<SimulationEvent>,
) {
    let tick = g.current_tick;
    match e {
        SimulationEvent::CombatantOnPlate { combatant_id, plate_id } => (
            with_combatant(g, combatant_id, stepped_on_plate(combatant_of(g, combatant_id), plate_id)),
            true,
            seq![],
        ),
        SimulationEvent::CombatantOffPlate { combatant_id, .. } => (
            with_combatant(g, combatant_id, stepped_off_plate(combatant_of(g, combatant_id))),
            true,
            seq![],
        ),
        SimulationEvent::CombatantPickedUpBall { combatant_id, ball_id } => picked_up(
            g,
            combatant_id,
            ball_id,
            within_reach,
        ),
        SimulationEvent::ThrownBallCaught { catcher_id, ball_id, .. } => picked_up(
            g,
            catcher_id,
            ball_id,
            within_reach,
        ),
        SimulationEvent::CombatantDroppedBall { combatant_id, ball_id } => {
            let g1 = with_combatant(g, combatant_id, with_holding(combatant_of(g, combatant_id), None));
            let b = ball_of(g, ball_id);
            (with_ball(g1, ball_id, with_state(with_holder(b, None, tick), tick, BallState::Idle)), true, seq![])
        },
        SimulationEvent::BallThrownAtEnemy { thrower_id, ball_id, .. } => (
            thrown(g, thrower_id, ball_id),
            true,
            seq![],
        ),
        SimulationEvent::BallThrownAtTeammate { thrower_id, ball_id, .. } => (
            thrown(g, thrower_id, ball_id),
            true,
            seq![],
        ),
        SimulationEvent::BallCollisionArena { ball_id, .. } => (
            with_ball(g, ball_id, with_state(ball_of(g, ball_id), tick, BallState::Explode)),
            true,
            seq![],
        ),
        SimulationEvent::BallExplosion { ball_id, .. } => (
            with_ball(
                g,
                ball_id,
                with_state(BallObject { charge: 0, ..ball_of(g, ball_id) }, tick, BallState::Idle),
            ),
            true,
            seq![],
        ),
        SimulationEvent::BallExplosionForceApplied { combatant_id, .. } => (
            with_combatant(g, combatant_id, with_stun(combatant_of(g, combatant_id), true)),
            true,
            seq![],
        ),
        SimulationEvent::PointsScoredByCombatant { combatant_id, points, .. } => (
            if combatant_of(g, combatant_id).team == TeamAlignment::Home {
                GameView { home_points: (g.home_points + points) as u16, ..g }
            } else {
                GameView { away_points: (g.away_points + points) as u16, ..g }
            },
            true,
            seq![],
        ),
        SimulationEvent::CombatantStunned { combatant_id, start } => if !start {
            (
                with_combatant(g, combatant_id, with_stun(combatant_of(g, combatant_id), false)),
                true,
                seq![],
            )
        } else {
            match combatant_of(g, combatant_id).holding_ball {
                None => (g, true, seq![]),
                Some(ball_id) => {
                    let c = combatant_of(g, combatant_id);
                    let dropped = CombatantView {
                        holding_ball: None,
                        beliefs: set_remove_passing(c.beliefs, holds_ball_test(combatant_id)),
                        ..c
                    };
                    let g1 = with_combatant(g, combatant_id, dropped);
                    (
                        with_ball(g1, ball_id, with_holder(ball_of(g, ball_id), None, tick)),
                        true,
                        seq![SimulationEvent::CombatantDroppedBall { combatant_id, ball_id }],
                    )
                },
            }
        },
        SimulationEvent::CombatantShoveForceApplied { recipient_target_id, .. } => (
            with_combatant(
                g,
                recipient_target_id,
                with_stun(combatant_of(g, recipient_target_id), true),
            ),
            true,
            seq![],
        ),
        SimulationEvent::BroadcastBelief { from_combatant_id, belief } => (
            GameView {
                combatants: Seq::new(
                    g.combatants.len(),
                    |i: int|
                        if g.combatants[i].id == from_combatant_id {
                            g.combatants[i]
                        } else {
                            with_shared_belief(g.combatants[i], belief, tick)
                        },
                ),
                ..g
            },
            true,
            seq![],
        ),
        _ => (g, true, seq![]),
    }
}

/// A combatant picking up (or catching) a ball: refused when out of reach or stunned;
/// otherwise the combatant holds the ball and the ball is given to it.
pub open spec fn picked_up<S>(
    g: GameView<S>,
    combatant_id: CombatantId,
    ball_id: BallId,
    within_reach: bool,
) -> (GameView<S>, bool, Seq<SimulationEvent>) {
    if !within_reach || combatant_of(g, combatant_id).stunned {
        (g, false, seq![])
    } else {
        let g1 = with_combatant(
            g,
            combatant_id,
            with_holding(combatant_of(g, combatant_id), Some(ball_id)),
        );
        (
            with_ball(g1, ball_id, with_holder(ball_of(g, ball_id), Some(combatant_id), g.current_tick)),
            true,
            seq![],
        )
    }
}

/// The game after the ball at `bi` is handed to a holder (or to none), the combatant at `ci`
/// holding it (or not).
pub open spec fn handed<S>(g: GameView<S>, ci: int, bi: int, holder: Option<CombatantId>) -> GameView<S> {
    let holding = match holder {
        Some(_) => Some(g.balls[bi].id),
        None => None,
    };
    with_ball(
        with_combatant(g, g.combatants[ci].id, with_holding(g.combatants[ci], holding)),
        g.balls[bi].id,
        with_holder(g.balls[bi], holder, g.current_tick),
    )
}

/// A thrower letting go of its ball.
pub open spec fn thrown<S>(g: GameView<S>, thrower_id: CombatantId, ball_id: BallId) -> GameView<S> {
    let g1 = with_combatant(g, thrower_id, with_holding(combatant_of(g, thrower_id), None));
    with_ball(g1, ball_id, with_holder(ball_of(g, ball_id), None, g.current_tick))
}

/// The position of the combatant with an id is the one where that id stands.
pub proof fn lemma_combatant_index<S>(g: GameView<S>, i: int)
    requires
        ids_distinct(g),
        0 <= i < g.combatants.len(),
    ensures
        has_combatant(g, g.combatants[i].id),
        combatant_index(g, g.combatants[i].id) == i,
{
    let id = g.combatants[i].id;
    assert(g.combatants[i].id == id);
    let j = combatant_index(g, id);
    assert(0 <= j < g.combatants.len() && g.combatants[j].id == id);
}

/// The position of the ball with an id is the one where that id stands.
pub proof fn lemma_ball_index<S>(g: GameView<S>, i: int)
    requires
        ids_distinct(g),
        0 <= i < g.balls.len(),
    ensures
        has_ball(g, g.balls[i].id),
        ball_index(g, g.balls[i].id) == i,
{
    let id = g.balls[i].id;
    assert(g.balls[i].id == id);
    let j = ball_index(g, id);
    assert(0 <= j < g.balls.len() && g.balls[j].id == id);
}

impl<S: Strategy> GameState<S> {
    /// No two combatants or balls share an id, and every combatant is well formed.
    pub closed spec fn well_formed(&self) -> bool {
        &&& ids_distinct(self@)
        &&& forall|i: int| 0 <= i < self.combatants.len() ==> (#[trigger] self.combatants@[i]).well_formed()
    }

    /// In a well-formed game no two combatants and no two balls share an id.
    pub proof fn lemma_well_formed_ids_distinct(&self)
        requires
            self.well_formed(),
        ensures
            ids_distinct(self@),
    {
    }

    /// A game at tick zero without points, with these combatants and balls.
    pub fn new(combatants: Vec<CombatantObject<S>>, balls: Vec<BallObject>) -> (r: Self)
        requires
            forall|i: int| 0 <= i < combatants.len() ==> (#[trigger] combatants@[i]).well_formed(),
            ids_distinct(
                GameView {
                    combatants: combatant_views(combatants@),
                    balls: balls@,
                    home_points: 0,
                    away_points: 0,
                    current_tick: 0,
                },
            ),
        ensures
            r.well_formed(),
            r@ == (GameView {
                combatants: combatant_views(combatants@),
                balls: balls@,
                home_points: 0,
                away_points: 0,
                current_tick: 0,
            }),
    {
        GameState { combatants, balls, home_points: 0, away_points: 0, current_tick: 0 }
    }

    /// The position of the combatant with an id, if there is one.
    fn find_combatant(&self, id: CombatantId) -> (r: Option<usize>)
        requires
            self.well_formed(),
        ensures
            r is Some <==> has_combatant(self@, id),
            r matches Some(i) ==> i < self.combatants.len() && i == combatant_index(self@, id)
                && self.combatants@[i as int]@.id == id,
    {
        let mut i: usize = 0;
        while i < self.combatants.len()
            invariant
                i <= self.combatants.len(),
                self.well_formed(),
                forall|j: int| 0 <= j < i ==> (#[trigger] self@.combatants[j]).id != id,
            decreases self.combatants.len() - i,
        {
            if self.combatants[i].id() == id {
                proof {
                    assert(self@.combatants[i as int] == self.combatants@[i as int]@);
                    lemma_combatant_index(self@, i as int);
                }
                return Some(i);
            }
            proof {
                assert(self@.combatants[i as int] == self.combatants@[i as int]@);
            }
            i = i + 1;
        }
        None
    }

    /// The position of the ball with an id, if there is one.
    fn find_ball(&self, id: BallId) -> (r: Option<usize>)
        requires
            self.well_formed(),
        ensures
            r is Some <==> has_ball(self@, id),
            r matches Some(i) ==> i < self.balls.len() && i == ball_index(self@, id)
                && self.balls@[i as int].id == id,
    {
        let mut i: usize = 0;
        while i < self.balls.len()
            invariant
                i <= self.balls.len(),
                self.well_formed(),
                forall|j: int| 0 <= j < i ==> (#[trigger] self@.balls[j]).id != id,
            decreases self.balls.len() - i,
        {
            if self.balls[i].id == id {
                proof {
                    lemma_ball_index(self@, i as int);
                }
                return Some(i);
            }
            i = i + 1;
        }
        None
    }

    /// The combatant with an id.
    pub fn combatant(&self, id: CombatantId) -> (r: Option<&CombatantObject<S>>)
        requires
            self.well_formed(),
        ensures
            r is Some <==> has_combatant(self@, id),
            r matches Some(c) ==> c@ == combatant_of(self@, id) && c.well_formed(),
    {
        match self.find_combatant(id) {
            Some(i) => Some(&self.combatants[i]),
            None => None,
        }
    }

    /// The ball with an id.
    pub fn ball(&self, id: BallId) -> (r: Option<BallObject>)
        requires
            self.well_formed(),
        ensures
            r is Some <==> has_ball(self@, id),
            r matches Some(b) ==> b == ball_of(self@, id),
    {
        match self.find_ball(id) {
            Some(i) => Some(self.balls[i]),
            None => None,
        }
    }
}

/// Replacing one combatant replaces its model.
proof fn lemma_replace_combatant<S>(cs: Seq<CombatantObject<S>>, i: int, c: CombatantObject<S>)
    requires
        0 <= i < cs.len(),
    ensures
        combatant_views(cs.update(i, c)) == combatant_views(cs).update(i, c@),
{
    assert(combatant_views(cs.update(i, c)) =~= combatant_views(cs).update(i, c@));
}

impl<S: Strategy> GameState<S> {
    /// The combatant at a position after `step`, with the game's bookkeeping: the model of the
    /// game is that of `with_combatant` and the game stays well formed.
    proof fn lemma_after_combatant_step(
        &self,
        before: GameState<S>,
        i: int,
    )
        requires
            before.well_formed(),
            0 <= i < before.combatants.len(),
            self.combatants@ == before.combatants@.update(i, self.combatants@[i]),
            self.combatants@[i].well_formed(),
            self.combatants@[i]@.id == before.combatants@[i]@.id,
            self.balls@ == before.balls@,
            self.home_points == before.home_points,
            self.away_points == before.away_points,
            self.current_tick == before.current_tick,
        ensures
            self.well_formed(),
            self@ == with_combatant(before@, before.combatants@[i]@.id, self.combatants@[i]@),
            combatant_of(before@, before.combatants@[i]@.id) == before.combatants@[i]@,
    {
        lemma_replace_combatant(before.combatants@, i, self.combatants@[i]);
        lemma_combatant_index(before@, i);
        assert(before@.combatants[i] == before.combatants@[i]@);
        assert forall|j: int| 0 <= j < self.combatants.len() implies (
        #[trigger] self.combatants@[j]).well_formed() by {
            if j != i {
                assert(self.combatants@[j] == before.combatants@[j]);
            }
        }
        assert(self@.combatants =~= before@.combatants.update(i, self.combatants@[i]@));
        assert forall|a: int, b: int|
            0 <= a < self@.combatants.len() && 0 <= b < self@.combatants.len() && a != b implies (
            #[trigger] self@.combatants[a]).id != (#[trigger] self@.combatants[b]).id by {
            assert(before@.combatants[a].id != before@.combatants[b].id);
        }
    }

    /// The ball at a position replaced, with the game's bookkeeping.
    proof fn lemma_after_ball_step(&self, before: GameState<S>, i: int)
        requires
            before.well_formed(),
            0 <= i < before.balls.len(),
            self.balls@ == before.balls@.update(i, self.balls@[i]),
            self.balls@[i].id == before.balls@[i].id,
            self.combatants@ == before.combatants@,
            self.home_points == before.home_points,
            self.away_points == before.away_points,
            self.current_tick == before.current_tick,
        ensures
            self.well_formed(),
            self@ == with_ball(before@, before.balls@[i].id, self.balls@[i]),
            ball_of(before@, before.balls@[i].id) == before.balls@[i],
    {
        lemma_ball_index(before@, i);
        assert(self@.balls =~= before@.balls.update(i, self.balls@[i]));
        assert forall|a: int, b: int|
            0 <= a < self@.balls.len() && 0 <= b < self@.balls.len() && a != b implies (
            #[trigger] self@.balls[a]).id != (#[trigger] self@.balls[b]).id by {
            assert(before@.balls[a].id != before@.balls[b].id);
        }
    }
}

impl<S: Strategy> GameState<S> {
    fn stunned_at(&self, i: usize) -> (r: bool)
        requires
            i < self.combatants.len(),
        ensures
            r == self.combatants@[i as int]@.stunned,
    {
        self.combatants[i].is_stunned()
    }

    fn ball_held_at(&self, i: usize) -> (r: Option<BallId>)
        requires
            i < self.combatants.len(),
        ensures
            r == self.combatants@[i as int]@.holding_ball,
    {
        self.combatants[i].ball()
    }

    fn team_at(&self, i: usize) -> (r: TeamAlignment)
        requires
            i < self.combatants.len(),
        ensures
            r == self.combatants@[i as int]@.team,
    {
        self.combatants[i].team()
    }

    /// Gives the ball at `bi` to the combatant at `ci` (or takes it away), as a pick-up, a
    /// drop or a throw does.
    fn hand_ball(&mut self, ci: usize, bi: usize, holder: Option<CombatantId>)
        requires
            old(self).well_formed(),
            ci < old(self).combatants.len(),
            bi < old(self).balls.len(),
        ensures
            final(self).well_formed(),
            final(self).combatants.len() == old(self).combatants.len(),
            final(self).balls.len() == old(self).balls.len(),
            combatant_of(old(self)@, old(self)@.combatants[ci as int].id) == old(self)@.combatants[ci as int],
            ball_of(old(self)@, old(self)@.balls[bi as int].id) == old(self)@.balls[bi as int],
            final(self)@ == handed(old(self)@, ci as int, bi as int, holder),
    {
        let ghost before: GameState<S> = *self;
        match holder {
            Some(_) => {
                let bid = self.balls[bi].id;
                self.combatants[ci].pickup_ball(bid);
            },
            None => {
                self.combatants[ci].drop_ball();
            },
        }
        proof {
            self.lemma_after_combatant_step(before, ci as int);
        }
        let ghost middle: GameState<S> = *self;
        let tick = self.current_tick;
        self.balls[bi].set_held_by(holder, tick);
        proof {
            self.lemma_after_ball_step(middle, bi as int);
            lemma_ball_index(before@, bi as int);
        }
    }

    fn step_on_plate(&mut self, i: usize, plate_id: PlateId)
        requires
            old(self).well_formed(),
            i < old(self).combatants.len(),
        ensures
            final(self).well_formed(),
            final(self)@ == with_combatant(
                old(self)@,
                old(self)@.combatants[i as int].id,
                stepped_on_plate(combatant_of(old(self)@, old(self)@.combatants[i as int].id), plate_id),
            ),
    {
        let ghost before: GameState<S> = *self;
        self.combatants[i].set_on_plate(plate_id);
        proof {
            self.lemma_after_combatant_step(before, i as int);
        }
    }

    /// Shares a belief, expiring twelve ticks from now, with every combatant but its sender.
    fn share_with_all(&mut self, from_combatant_id: CombatantId, belief: Belief)
        requires
            old(self).well_formed(),
            old(self)@.current_tick + 12 <= u32::MAX,
        ensures
            final(self).well_formed(),
            final(self)@ == (GameView {
                combatants: Seq::new(
                    old(self)@.combatants.len(),
                    |i: int|
                        if old(self)@.combatants[i].id == from_combatant_id {
                            old(self)@.combatants[i]
                        } else {
                            with_shared_belief(old(self)@.combatants[i], belief, old(self)@.current_tick)
                        },
                ),
                ..old(self)@
            }),
    {
        let ghost g0 = self@;
        let tick = self.current_tick;
        let expiry: u32 = tick + 12;
                let mut k: usize = 0;
                while k < self.combatants.len()
                    invariant
                        k <= self.combatants.len(),
                        self.combatants.len() == g0.combatants.len(),
                        self.balls@ == g0.balls,
                        self.home_points == g0.home_points,
                        self.away_points == g0.away_points,
                        self.current_tick == g0.current_tick,
                        tick == g0.current_tick,
                        expiry == tick + 12,
                        forall|j: int| 0 <= j < self.combatants.len() ==> (#[trigger] self.combatants@[j]).well_formed(),
                        forall|j: int| 0 <= j < k ==> #[trigger] self@.combatants[j] == if g0.combatants[j].id
                            == from_combatant_id {
                            g0.combatants[j]
                        } else {
                            with_shared_belief(g0.combatants[j], belief, tick)
                        },
                        forall|j: int| k <= j < self.combatants.len() ==> #[trigger] self@.combatants[j] == g0.combatants[j],
                    decreases self.combatants.len() - k,
                {
                    let ghost prev: Seq<CombatantObject<S>> = self.combatants@;
                    let ghost prev_view = self@.combatants;
                    assert(prev_view[k as int] == g0.combatants[k as int]);
                    if self.combatants[k].id() != from_combatant_id {
                        self.combatants[k].share_belief(
                            ExpiringBelief { belief, expires_on_tick: Some(expiry) },
                        );
                        proof {
                            lemma_replace_combatant(prev, k as int, self.combatants@[k as int]);
                            assert forall|j: int| 0 <= j < self.combatants.len() implies (
                            #[trigger] self.combatants@[j]).well_formed() by {
                                if j != k {
                                    assert(self.combatants@[j] == prev[j]);
                                }
                            }
                        }
                    }
                    proof {
                        assert(self@.combatants =~= prev_view.update(k as int, self@.combatants[k as int]));
                        assert(self@.combatants[k as int] == if g0.combatants[k as int].id
                            == from_combatant_id {
                            g0.combatants[k as int]
                        } else {
                            with_shared_belief(g0.combatants[k as int], belief, tick)
                        });
                    }
                    k = k + 1;
                }
                proof {
                    assert(self@.combatants =~= Seq::new(
                        g0.combatants.len(),
                        |j: int|
                            if g0.combatants[j].id == from_combatant_id {
                                g0.combatants[j]
                            } else {
                                with_shared_belief(g0.combatants[j], belief, tick)
                            },
                    ));
                    assert forall|a: int, b: int|
                        0 <= a < self@.combatants.len() && 0 <= b < self@.combatants.len() && a != b implies (
                        #[trigger] self@.combatants[a]).id != (#[trigger] self@.combatants[b]).id by {
                        assert(g0.combatants[a].id != g0.combatants[b].id);
                    }
                }
    }

    /// Simulates an event that acts on one combatant alone.
    fn simulate_combatant_event(&mut self, event: &PendingSimulationEvent, within_reach: bool) -> (r: (
        bool,
        Vec<PendingSimulationEvent>,
    ))
        requires
            old(self).well_formed(),
            event_applicable(old(self)@, event.0),
            event.0 is CombatantOnPlate || event.0 is CombatantOffPlate || event.0 is BallExplosionForceApplied || event.0 is CombatantShoveForceApplied,
        ensures
            final(self).well_formed(),
            final(self)@ == event_outcome(old(self)@, event.0, within_reach).0,
            r.0 == event_outcome(old(self)@, event.0, within_reach).1,
            unwrapped(r.1@) == event_outcome(old(self)@, event.0, within_reach).2,
    {
        let ghost g0 = self@;
        let ghost before: GameState<S> = *self;
        let tick = self.current_tick;
        let no_events: Vec<PendingSimulationEvent> = Vec::new();
        proof {
            assert(unwrapped(no_events@) =~= Seq::<SimulationEvent>::empty());
        }
        match event.0 {
            SimulationEvent::CombatantOnPlate { combatant_id, plate_id } => {
                let i = self.find_combatant(combatant_id).unwrap();
                self.combatants[i].set_on_plate(plate_id);
                proof {
                    self.lemma_after_combatant_step(before, i as int);
                }
            },
            SimulationEvent::CombatantOffPlate { combatant_id, .. } => {
                let i = self.find_combatant(combatant_id).unwrap();
                self.combatants[i].set_off_plate();
                proof {
                    self.lemma_after_combatant_step(before, i as int);
                }
            },
            SimulationEvent::BallExplosionForceApplied { combatant_id, .. }
            | SimulationEvent::CombatantShoveForceApplied { recipient_target_id: combatant_id, .. } => {
                let i = self.find_combatant(combatant_id).unwrap();
                self.combatants[i].set_stunned(true);
                proof {
                    self.lemma_after_combatant_step(before, i as int);
                }
            },
            _ => {},
        }
        (true, no_events)
    }

    /// Simulates a combatant picking up or catching a ball.
    fn simulate_pick_up(&mut self, event: &PendingSimulationEvent, within_reach: bool) -> (r: (
        bool,
        Vec<PendingSimulationEvent>,
    ))
        requires
            old(self).well_formed(),
            event_applicable(old(self)@, event.0),
            event.0 is CombatantPickedUpBall || event.0 is ThrownBallCaught,
        ensures
            final(self).well_formed(),
            final(self)@ == event_outcome(old(self)@, event.0, within_reach).0,
            r.0 == event_outcome(old(self)@, event.0, within_reach).1,
            unwrapped(r.1@) == event_outcome(old(self)@, event.0, within_reach).2,
    {
        let ghost g0 = self@;
        let no_events: Vec<PendingSimulationEvent> = Vec::new();
        proof {
            assert(unwrapped(no_events@) =~= Seq::<SimulationEvent>::empty());
        }
        match event.0 {
            SimulationEvent::CombatantPickedUpBall { combatant_id, ball_id }
            | SimulationEvent::ThrownBallCaught { catcher_id: combatant_id, ball_id, .. } => {
                let ci = self.find_combatant(combatant_id).unwrap();
                let bi = self.find_ball(ball_id).unwrap();
                proof {
                    assert(g0.combatants[ci as int] == self.combatants@[ci as int]@);
                    assert(g0.balls[bi as int].id == ball_id);
                }
                if !within_reach || self.stunned_at(ci) {
                    proof {
                        lemma_combatant_index(g0, ci as int);
                    }
                    (false, no_events)
                } else {
                    self.hand_ball(ci, bi, Some(combatant_id));
                    (true, no_events)
                }
            },
            _ => (true, no_events),
        }
    }

    /// Simulates a combatant dropping its ball.
    fn simulate_drop(&mut self, event: &PendingSimulationEvent, within_reach: bool) -> (r: (
        bool,
        Vec<PendingSimulationEvent>,
    ))
        requires
            old(self).well_formed(),
            event_applicable(old(self)@, event.0),
            event.0 is CombatantDroppedBall,
        ensures
            final(self).well_formed(),
            final(self)@ == event_outcome(old(self)@, event.0, within_reach).0,
            r.0 == event_outcome(old(self)@, event.0, within_reach).1,
            unwrapped(r.1@) == event_outcome(old(self)@, event.0, within_reach).2,
    {
        let ghost g0 = self@;
        let no_events: Vec<PendingSimulationEvent> = Vec::new();
        proof {
            assert(unwrapped(no_events@) =~= Seq::<SimulationEvent>::empty());
        }
        let tick = self.current_tick;
        match event.0 {
            SimulationEvent::CombatantDroppedBall { combatant_id, ball_id } => {
                let ci = self.find_combatant(combatant_id).unwrap();
                let bi = self.find_ball(ball_id).unwrap();
                proof {
                    assert(g0.combatants[ci as int] == self.combatants@[ci as int]@);
                    assert(g0.balls[bi as int].id == ball_id);
                }
                self.hand_ball(ci, bi, None);
                let ghost middle: GameState<S> = *self;
                self.balls[bi].change_state(tick, BallState::Idle);
                proof {
                    self.lemma_after_ball_step(middle, bi as int);
                    lemma_ball_index(g0, bi as int);
                    lemma_combatant_index(g0, ci as int);
                    let g1 = with_combatant(g0, combatant_id, with_holding(combatant_of(g0, combatant_id), None));
                    assert(g1.balls == g0.balls);
                    assert(middle@ == with_ball(g1, ball_id, with_holder(g0.balls[bi as int], None, tick)));
                    assert(self.balls@[bi as int] == with_state(with_holder(ball_of(g0, ball_id), None, tick), tick, BallState::Idle));
                    assert(self@.balls =~= g1.balls.update(bi as int, self.balls@[bi as int]));
                    assert(self@.combatants == g1.combatants);
                }
                (true, no_events)
            },
            _ => (true, no_events),
        }
    }

    /// Simulates a combatant throwing its ball.
    fn simulate_throw(&mut self, event: &PendingSimulationEvent, within_reach: bool) -> (r: (
        bool,
        Vec<PendingSimulationEvent>,
    ))
        requires
            old(self).well_formed(),
            event_applicable(old(self)@, event.0),
            event.0 is BallThrownAtEnemy || event.0 is BallThrownAtTeammate,
        ensures
            final(self).well_formed(),
            final(self)@ == event_outcome(old(self)@, event.0, within_reach).0,
            r.0 == event_outcome(old(self)@, event.0, within_reach).1,
            unwrapped(r.1@) == event_outcome(old(self)@, event.0, within_reach).2,
    {
        let ghost g0 = self@;
        let no_events: Vec<PendingSimulationEvent> = Vec::new();
        proof {
            assert(unwrapped(no_events@) =~= Seq::<SimulationEvent>::empty());
        }
        match event.0 {
            SimulationEvent::BallThrownAtEnemy { thrower_id, ball_id, .. }
            | SimulationEvent::BallThrownAtTeammate { thrower_id, ball_id, .. } => {
                let ci = self.find_combatant(thrower_id).unwrap();
                let bi = self.find_ball(ball_id).unwrap();
                proof {
                    assert(g0.combatants[ci as int] == self.combatants@[ci as int]@);
                    assert(g0.balls[bi as int].id == ball_id);
                }
                self.hand_ball(ci, bi, None);
                (true, no_events)
            },
            _ => (true, no_events),
        }
    }

    /// Simulates an event on a ball, on the score or on every combatant's beliefs.
    fn simulate_ball_or_score_event(&mut self, event: &PendingSimulationEvent, within_reach: bool) -> (r: (
        bool,
        Vec<PendingSimulationEvent>,
    ))
        requires
            old(self).well_formed(),
            event_applicable(old(self)@, event.0),
            event.0 is BallCollisionArena || event.0 is BallExplosion || event.0 is PointsScoredByCombatant || event.0 is BroadcastBelief,
        ensures
            final(self).well_formed(),
            final(self)@ == event_outcome(old(self)@, event.0, within_reach).0,
            r.0 == event_outcome(old(self)@, event.0, within_reach).1,
            unwrapped(r.1@) == event_outcome(old(self)@, event.0, within_reach).2,
    {
        let ghost g0 = self@;
        let ghost before: GameState<S> = *self;
        let tick = self.current_tick;
        let no_events: Vec<PendingSimulationEvent> = Vec::new();
        proof {
            assert(unwrapped(no_events@) =~= Seq::<SimulationEvent>::empty());
        }
        match event.0 {
            SimulationEvent::BallCollisionArena { ball_id, .. } => {
                let bi = self.find_ball(ball_id).unwrap();
                self.balls[bi].change_state(tick, BallState::Explode);
                proof {
                    self.lemma_after_ball_step(before, bi as int);
                }
            },
            SimulationEvent::BallExplosion { ball_id, .. } => {
                let bi = self.find_ball(ball_id).unwrap();
                let mut b = self.balls[bi];
                b.charge = 0;
                b.change_state(tick, BallState::Idle);
                self.balls.set(bi, b);
                proof {
                    self.lemma_after_ball_step(before, bi as int);
                }
            },
            SimulationEvent::PointsScoredByCombatant { combatant_id, points, .. } => {
                let i = self.find_combatant(combatant_id).unwrap();
                proof {
                    lemma_combatant_index(g0, i as int);
                }
                if self.team_at(i) == TeamAlignment::Home {
                    self.home_points = self.home_points + points as u16;
                } else {
                    self.away_points = self.away_points + points as u16;
                }
            },
            SimulationEvent::BroadcastBelief { from_combatant_id, belief } => {
                self.share_with_all(from_combatant_id, belief);
            },
            _ => {},
        }
        (true, no_events)
    }

    /// Simulates the end of a combatant's stun.
    fn simulate_stun_end(&mut self, event: &PendingSimulationEvent, within_reach: bool) -> (r: (
        bool,
        Vec<PendingSimulationEvent>,
    ))
        requires
            old(self).well_formed(),
            event_applicable(old(self)@, event.0),
            event.0 matches SimulationEvent::CombatantStunned { start: false, .. },
        ensures
            final(self).well_formed(),
            final(self)@ == event_outcome(old(self)@, event.0, within_reach).0,
            r.0 == event_outcome(old(self)@, event.0, within_reach).1,
            unwrapped(r.1@) == event_outcome(old(self)@, event.0, within_reach).2,
    {
        let ghost g0 = self@;
        let ghost before: GameState<S> = *self;
        let no_events: Vec<PendingSimulationEvent> = Vec::new();
        proof {
            assert(unwrapped(no_events@) =~= Seq::<SimulationEvent>::empty());
        }
        match event.0 {
            SimulationEvent::CombatantStunned { combatant_id, .. } => {
                let i = self.find_combatant(combatant_id).unwrap();
                self.combatants[i].set_stunned(false);
                proof {
                    self.lemma_after_combatant_step(before, i as int);
                }
                (true, no_events)
            },
            _ => (true, no_events),
        }
    }

    /// Simulates the start of a combatant's stun: a ball it holds is dropped.
    fn simulate_stun_start(&mut self, event: &PendingSimulationEvent, within_reach: bool) -> (r: (
        bool,
        Vec<PendingSimulationEvent>,
    ))
        requires
            old(self).well_formed(),
            event_applicable(old(self)@, event.0),
            event.0 matches SimulationEvent::CombatantStunned { start: true, .. },
        ensures
            final(self).well_formed(),
            final(self)@ == event_outcome(old(self)@, event.0, within_reach).0,
            r.0 == event_outcome(old(self)@, event.0, within_reach).1,
            unwrapped(r.1@) == event_outcome(old(self)@, event.0, within_reach).2,
    {
        let ghost g0 = self@;
        let no_events: Vec<PendingSimulationEvent> = Vec::new();
        proof {
            assert(unwrapped(no_events@) =~= Seq::<SimulationEvent>::empty());
        }
        match event.0 {
            SimulationEvent::CombatantStunned { combatant_id, .. } => {
                let i = self.find_combatant(combatant_id).unwrap();
                proof {
                    lemma_combatant_index(g0, i as int);
                    assert(g0.combatants[i as int] == self.combatants@[i as int]@);
                }
                match self.ball_held_at(i) {
                    None => (true, no_events),
                    Some(ball_id) => {
                        let bi = self.find_ball(ball_id).unwrap();
                        proof {
                            assert(g0.balls[bi as int].id == ball_id);
                        }
                        self.hand_ball(i, bi, None);
                        let ghost middle: GameState<S> = *self;
                        let test = SatisfiableBelief::HeldBall().combatant_id(
                            SatisfiableField::Exactly(combatant_id),
                        );
                        self.combatants[i].forget_beliefs(&test);
                        proof {
                            self.lemma_after_combatant_step(middle, i as int);
                            lemma_ball_index(g0, bi as int);
                            let c = combatant_of(g0, combatant_id);
                            let g1 = with_combatant(g0, combatant_id, with_holding(c, None));
                            assert(middle@ == with_ball(g1, ball_id, with_holder(g0.balls[bi as int], None, g0.current_tick)));
                            assert(middle@.combatants == g1.combatants);
                            lemma_combatant_index(middle@, i as int);
                            assert(middle@.combatants[i as int].id == combatant_id);
                            assert(index_of_combatant(g1.combatants, combatant_id) == i);
                            assert(self@.combatants =~= g0.combatants.update(i as int, self.combatants@[i as int]@));
                            assert(self@.balls == middle@.balls);
                        }
                        let mut events: Vec<PendingSimulationEvent> = Vec::new();
                        events.push(
                            PendingSimulationEvent(
                                SimulationEvent::CombatantDroppedBall { combatant_id, ball_id },
                            ),
                        );
                        proof {
                            assert(unwrapped(events@) =~= seq![
                                SimulationEvent::CombatantDroppedBall { combatant_id, ball_id },
                            ]);
                        }
                        (true, events)
                    },
                }
            },
            _ => (true, no_events),
        }
    }

    /// Simulates an event in the game. Returns whether the event took effect and the events it
    /// sets off. `within_reach` tells whether a combatant picking up or catching a ball is close
    /// enough to it; the caller measures that in the physics world and performs the physical
    /// part of each event.
    pub fn simulate_event(
        &mut self,
        event: &PendingSimulationEvent,
        within_reach: bool,
    ) -> (r: (bool, Vec<PendingSimulationEvent>))
        requires
            old(self).well_formed(),
            event_applicable(old(self)@, event.0),
        ensures
            final(self).well_formed(),
            final(self)@ == event_outcome(old(self)@, event.0, within_reach).0,
            r.0 == event_outcome(old(self)@, event.0, within_reach).1,
            unwrapped(r.1@) == event_outcome(old(self)@, event.0, within_reach).2,
    {
        match event.0 {
            SimulationEvent::CombatantOnPlate { .. }
            | SimulationEvent::CombatantOffPlate { .. }
            | SimulationEvent::BallExplosionForceApplied { .. }
            | SimulationEvent::CombatantShoveForceApplied { .. } => self.simulate_combatant_event(
                event,
                within_reach,
            ),
            SimulationEvent::CombatantPickedUpBall { .. }
            | SimulationEvent::ThrownBallCaught { .. } => self.simulate_pick_up(event, within_reach),
            SimulationEvent::CombatantDroppedBall { .. } => self.simulate_drop(event, within_reach),
            SimulationEvent::BallThrownAtEnemy { .. }
            | SimulationEvent::BallThrownAtTeammate { .. } => self.simulate_throw(event, within_reach),
            SimulationEvent::BallCollisionArena { .. }
            | SimulationEvent::BallExplosion { .. }
            | SimulationEvent::PointsScoredByCombatant { .. }
            | SimulationEvent::BroadcastBelief { .. } => self.simulate_ball_or_score_event(
                event,
                within_reach,
            ),
            SimulationEvent::CombatantStunned { start: false, .. } => self.simulate_stun_end(
                event,
                within_reach,
            ),
            SimulationEvent::CombatantStunned { start: true, .. } => self.simulate_stun_start(
                event,
                within_reach,
            ),
            _ => {
                let no_events: Vec<PendingSimulationEvent> = Vec::new();
                proof {
                    assert(unwrapped(no_events@) =~= Seq::<SimulationEvent>::empty());
                }
                (true, no_events)
            },
        }
    }
}

/// The ids of the combatants of a team, in order.
pub open spec fn team_ids<S>(cs: Seq<CombatantView<S>>, team: TeamAlignment) -> Seq<CombatantId>
    decreases cs.len(),
{
    if cs.len() == 0 {
        seq![]
    } else {
        let rest = team_ids(cs.drop_last(), team);
        if cs.last().team == team {
            rest.push(cs.last().id)
        } else {
            rest
        }
    }
}

impl<S: Strategy> GameState<S> {
    /// The ids of the combatants, in order.
    pub fn combatant_ids(&self) -> (r: Vec<CombatantId>)
        ensures
            r@ == self@.combatants.map_values(|c: CombatantView<S>| c.id),
    {
        let mut out: Vec<CombatantId> = Vec::new();
        let mut i: usize = 0;
        while i < self.combatants.len()
            invariant
                i <= self.combatants.len(),
                out@ == self@.combatants.take(i as int).map_values(|c: CombatantView<S>| c.id),
            decreases self.combatants.len() - i,
        {
            out.push(self.combatants[i].id());
            i = i + 1;
            assert(out@ =~= self@.combatants.take(i as int).map_values(|c: CombatantView<S>| c.id));
        }
        assert(self@.combatants.take(self.combatants.len() as int) =~= self@.combatants);
        out
    }

    /// The ids of the combatants of a team, in order.
    pub fn team_combatants(&self, team: TeamAlignment) -> (r: Vec<CombatantId>)
        ensures
            r@ == team_ids(self@.combatants, team),
    {
        let mut out: Vec<CombatantId> = Vec::new();
        let mut i: usize = 0;
        while i < self.combatants.len()
            invariant
                i <= self.combatants.len(),
                out@ == team_ids(self@.combatants.take(i as int), team),
            decreases self.combatants.len() - i,
        {
            proof {
                assert(self@.combatants.take(i + 1).drop_last() =~= self@.combatants.take(i as int));
            }
            if self.combatants[i].team() == team {
                out.push(self.combatants[i].id());
            }
            i = i + 1;
        }
        assert(self@.combatants.take(self.combatants.len() as int) =~= self@.combatants);
        out
    }

    /// The balls, in order.
    pub fn balls(&self) -> (r: Vec<BallObject>)
        ensures
            r@ == self@.balls,
    {
        let mut out: Vec<BallObject> = Vec::new();
        let mut i: usize = 0;
        while i < self.balls.len()
            invariant
                i <= self.balls.len(),
                out@ == self@.balls.take(i as int),
            decreases self.balls.len() - i,
        {
            out.push(self.balls[i]);
            i = i + 1;
            assert(out@ =~= self@.balls.take(i as int));
        }
        assert(self@.balls.take(self.balls.len() as int) =~= self@.balls);
        out
    }

    /// Takes the combatant with an id out of the game (to run its tick).
    pub fn remove_combatant(&mut self, id: CombatantId) -> (r: Option<CombatantObject<S>>)
        requires
            old(self).well_formed(),
        ensures
            final(self).well_formed(),
            r is Some <==> has_combatant(old(self)@, id),
            r matches Some(c) ==> c.well_formed() && c@ == combatant_of(old(self)@, id)
                && final(self)@ == (GameView {
                combatants: old(self)@.combatants.remove(combatant_index(old(self)@, id)),
                ..old(self)@
            }),
            r is None ==> final(self)@ == old(self)@,
    {
        match self.find_combatant(id) {
            None => None,
            Some(i) => {
                let ghost g0 = self@;
                let ghost before = self.combatants@;
                let c = self.combatants.remove(i);
                proof {
                    lemma_combatant_index(g0, i as int);
                    assert(combatant_views(self.combatants@) =~= g0.combatants.remove(i as int));
                    assert(c.well_formed());
                    assert forall|j: int| 0 <= j < self.combatants.len() implies (
                    #[trigger] self.combatants@[j]).well_formed() by {
                        if j < i {
                            assert(self.combatants@[j] == before[j]);
                        } else {
                            assert(self.combatants@[j] == before[j + 1]);
                        }
                    }
                    assert forall|a: int, b: int|
                        0 <= a < self@.combatants.len() && 0 <= b < self@.combatants.len() && a != b implies (
                        #[trigger] self@.combatants[a]).id != (#[trigger] self@.combatants[b]).id by {
                        let a0 = if a < i { a } else { a + 1 };
                        let b0 = if b < i { b } else { b + 1 };
                        assert(g0.combatants[a0].id != g0.combatants[b0].id);
                    }
                }
                Some(c)
            },
        }
    }

    /// Puts a combatant into the game, after the others; refused (`false`, the game unchanged)
    /// when a combatant with its id is already there.
    pub fn insert_combatant(&mut self, combatant: CombatantObject<S>) -> (r: bool)
        requires
            old(self).well_formed(),
            combatant.well_formed(),
        ensures
            final(self).well_formed(),
            r == !has_combatant(old(self)@, combatant@.id),
            r ==> final(self)@ == (GameView {
                combatants: old(self)@.combatants.push(combatant@),
                ..old(self)@
            }),
            !r ==> final(self)@ == old(self)@,
    {
        let id = combatant.id();
        match self.find_combatant(id) {
            Some(_) => false,
            None => {
                let ghost g0 = self@;
                let ghost before = self.combatants@;
                self.combatants.push(combatant);
                proof {
                    assert(combatant_views(self.combatants@) =~= g0.combatants.push(combatant@));
                    assert forall|j: int| 0 <= j < self.combatants.len() implies (
                    #[trigger] self.combatants@[j]).well_formed() by {
                        if j < before.len() {
                            assert(self.combatants@[j] == before[j]);
                        }
                    }
                    assert forall|a: int, b: int|
                        0 <= a < self@.combatants.len() && 0 <= b < self@.combatants.len() && a != b implies (
                        #[trigger] self@.combatants[a]).id != (#[trigger] self@.combatants[b]).id by {
                        if a < g0.combatants.len() && b < g0.combatants.len() {
                            assert(g0.combatants[a].id != g0.combatants[b].id);
                        } else if a < g0.combatants.len() {
                            assert(g0.combatants[a].id != id);
                        } else if b < g0.combatants.len() {
                            assert(g0.combatants[b].id != id);
                        }
                    }
                }
                true
            },
        }
    }

    /// Sets the charge (bits of an `f32`) of the ball with an id, if there is one.
    pub fn set_ball_charge(&mut self, id: BallId, charge: u32)
        requires
            old(self).well_formed(),
        ensures
            final(self).well_formed(),
            has_ball(old(self)@, id) ==> final(self)@ == with_ball(
                old(self)@,
                id,
                BallObject { charge, ..ball_of(old(self)@, id) },
            ),
            !has_ball(old(self)@, id) ==> final(self)@ == old(self)@,
    {
        match self.find_ball(id) {
            None => {},
            Some(i) => {
                let ghost before: GameState<S> = *self;
                let mut b = self.balls[i];
                b.charge = charge;
                self.balls.set(i, b);
                proof {
                    self.lemma_after_ball_step(before, i as int);
                }
            },
        }
    }

    /// Moves the game to its next tick.
    pub fn advance_tick(&mut self)
        requires
            old(self).well_formed(),
            old(self)@.current_tick < u32::MAX,
        ensures
            final(self).well_formed(),
            final(self)@ == (GameView { current_tick: (old(self)@.current_tick + 1) as u32, ..old(self)@ }),
    {
        self.current_tick = self.current_tick + 1;
    }
}

/// Simulates the follow-up events of an event, in order, each within reach; those that cannot
/// be simulated or do not take effect are dropped. (Follow-up events set off nothing further.)
pub open spec fn commit_follow_ups<S>(g: GameView<S>, events: Seq<SimulationEvent>) -> (GameView<S>, Seq<SimulationEvent>)
    decreases events.len(),
{
    if events.len() == 0 {
        (g, seq![])
    } else {
        let (g1, committed) = commit_follow_ups(g, events.drop_last());
        let e = events.last();
        if !event_applicable(g1, e) {
            (g1, committed)
        } else {
            let out = event_outcome(g1, e, true);
            (out.0, if out.1 { committed.push(e) } else { committed })
        }
    }
}

/// Simulates one pending event: when it can be simulated and takes effect, it is committed,
/// followed by its follow-up events.
pub open spec fn commit_one<S>(g: GameView<S>, e: SimulationEvent, within_reach: bool) -> (GameView<S>, Seq<SimulationEvent>) {
    if !event_applicable(g, e) {
        (g, seq![])
    } else {
        let out = event_outcome(g, e, within_reach);
        if !out.1 {
            (out.0, seq![])
        } else {
            let (g2, follow) = commit_follow_ups(out.0, out.2);
            (g2, seq![e] + follow)
        }
    }
}

/// Simulates the pending events of a tick in order; the result is the game after them and the
/// events that were committed.
pub open spec fn commit_all<S>(g: GameView<S>, pending: Seq<SimulationEvent>, reach: Seq<bool>) -> (GameView<S>, Seq<SimulationEvent>)
    decreases pending.len(),
{
    if pending.len() == 0 {
        (g, seq![])
    } else {
        let (g1, committed) = commit_all(g, pending.drop_last(), reach.drop_last());
        let (g2, more) = commit_one(g1, pending.last(), reach.last());
        (g2, committed + more)
    }
}

impl<S: Strategy> GameState<S> {
    /// Whether an event can be simulated in the game now.
    pub fn event_is_applicable(&self, event: &SimulationEvent) -> (r: bool)
        requires
            self.well_formed(),
        ensures
            r == event_applicable(self@, *event),
    {
        match *event {
            SimulationEvent::CombatantOnPlate { combatant_id, .. }
            | SimulationEvent::CombatantOffPlate { combatant_id, .. }
            | SimulationEvent::BallExplosionForceApplied { combatant_id, .. }
            | SimulationEvent::CombatantShoveForceApplied { recipient_target_id: combatant_id, .. } => self.find_combatant(
                combatant_id,
            ).is_some(),
            SimulationEvent::CombatantPickedUpBall { combatant_id, ball_id }
            | SimulationEvent::ThrownBallCaught { catcher_id: combatant_id, ball_id, .. }
            | SimulationEvent::CombatantDroppedBall { combatant_id, ball_id }
            | SimulationEvent::BallThrownAtEnemy { thrower_id: combatant_id, ball_id, .. }
            | SimulationEvent::BallThrownAtTeammate { thrower_id: combatant_id, ball_id, .. } => self.find_combatant(
                combatant_id,
            ).is_some() && self.find_ball(ball_id).is_some(),
            SimulationEvent::BallCollisionArena { ball_id, .. }
            | SimulationEvent::BallExplosion { ball_id, .. } => self.find_ball(ball_id).is_some(),
            SimulationEvent::PointsScoredByCombatant { combatant_id, points, .. } => {
                match self.find_combatant(combatant_id) {
                    None => false,
                    Some(i) => {
                        proof {
                            lemma_combatant_index(self@, i as int);
                            assert(self@.combatants[i as int] == self.combatants@[i as int]@);
                        }
                        if self.team_at(i) == TeamAlignment::Home {
                            self.home_points as u32 + points as u32 <= u16::MAX as u32
                        } else {
                            self.away_points as u32 + points as u32 <= u16::MAX as u32
                        }
                    },
                }
            },
            SimulationEvent::CombatantStunned { combatant_id, start } => {
                match self.find_combatant(combatant_id) {
                    None => false,
                    Some(i) => {
                        proof {
                            lemma_combatant_index(self@, i as int);
                            assert(self@.combatants[i as int] == self.combatants@[i as int]@);
                        }
                        if !start {
                            true
                        } else {
                            match self.ball_held_at(i) {
                                None => true,
                                Some(b) => self.find_ball(b).is_some(),
                            }
                        }
                    },
                }
            },
            SimulationEvent::BroadcastBelief { .. } => self.current_tick <= u32::MAX - 12,
            _ => true,
        }
    }

    fn commit_follow_up_events(&mut self, events: &Vec<PendingSimulationEvent>) -> (r: Vec<SimulationEvent>)
        requires
            old(self).well_formed(),
        ensures
            final(self).well_formed(),
            final(self)@ == commit_follow_ups(old(self)@, unwrapped(events@)).0,
            r@ == commit_follow_ups(old(self)@, unwrapped(events@)).1,
    {
        let mut committed: Vec<SimulationEvent> = Vec::new();
        let mut i: usize = 0;
        let ghost g0 = self@;
        while i < events.len()
            invariant
                i <= events.len(),
                self.well_formed(),
                g0 == old(self)@,
                self@ == commit_follow_ups(g0, unwrapped(events@).take(i as int)).0,
                committed@ == commit_follow_ups(g0, unwrapped(events@).take(i as int)).1,
            decreases events.len() - i,
        {
            proof {
                assert(unwrapped(events@).take(i + 1).drop_last() =~= unwrapped(events@).take(i as int));
                assert(unwrapped(events@).take(i + 1).last() == events@[i as int].0);
            }
            let e = events[i];
            if self.event_is_applicable(&e.0) {
                let (ok, _follow) = self.simulate_event(&e, true);
                if ok {
                    committed.push(e.0);
                }
            }
            i = i + 1;
        }
        assert(unwrapped(events@).take(events.len() as int) =~= unwrapped(events@));
        committed
    }

    /// Simulates the pending events of a tick, in order, and returns those that were committed:
    /// an event is committed when it can be simulated and takes effect, and is followed by its
    /// follow-up events. `within_reach` gives, for each pending event, whether the combatant of a
    /// pick-up or a catch is close enough to the ball (missing entries count as out of reach).
    pub fn commit_events(&mut self, pending: &Vec<PendingSimulationEvent>, within_reach: &Vec<bool>) -> (r: Vec<SimulationEvent>)
        requires
            old(self).well_formed(),
            within_reach.len() == pending.len(),
        ensures
            final(self).well_formed(),
            final(self)@ == commit_all(old(self)@, unwrapped(pending@), within_reach@).0,
            r@ == commit_all(old(self)@, unwrapped(pending@), within_reach@).1,
    {
        let mut committed: Vec<SimulationEvent> = Vec::new();
        let mut i: usize = 0;
        let ghost g0 = self@;
        while i < pending.len()
            invariant
                i <= pending.len(),
                within_reach.len() == pending.len(),
                self.well_formed(),
                g0 == old(self)@,
                self@ == commit_all(g0, unwrapped(pending@).take(i as int), within_reach@.take(i as int)).0,
                committed@ == commit_all(g0, unwrapped(pending@).take(i as int), within_reach@.take(i as int)).1,
            decreases pending.len() - i,
        {
            proof {
                assert(unwrapped(pending@).take(i + 1).drop_last() =~= unwrapped(pending@).take(i as int));
                assert(unwrapped(pending@).take(i + 1).last() == pending@[i as int].0);
                assert(within_reach@.take(i + 1).drop_last() =~= within_reach@.take(i as int));
            }
            let e = pending[i];
            let reach = within_reach[i];
            if self.event_is_applicable(&e.0) {
                let (ok, follow) = self.simulate_event(&e, reach);
                if ok {
                    committed.push(e.0);
                    let mut more = self.commit_follow_up_events(&follow);
                    let ghost before = committed@;
                    let ghost m = more@;
                    committed.append(&mut more);
                    proof {
                        assert(committed@ =~= before + m);
                    }
                }
            }
            proof {
                let prev = commit_all(g0, unwrapped(pending@).take(i as int), within_reach@.take(i as int));
                let one = commit_one(prev.0, pending@[i as int].0, within_reach@[i as int]);
                assert(committed@ =~= prev.1 + one.1);
            }
            i = i + 1;
        }
        assert(unwrapped(pending@).take(pending.len() as int) =~= unwrapped(pending@));
        assert(within_reach@.take(pending.len() as int) =~= within_reach@);
        committed
    }
}

impl<S: Strategy> GameState<S> {
    /// Moves the ball with an id to a new state at the current tick.
    pub fn set_ball_state(&mut self, id: BallId, state: BallState)
        requires
            old(self).well_formed(),
            has_ball(old(self)@, id),
        ensures
            final(self).well_formed(),
            final(self)@ == with_ball(old(self)@, id, with_state(ball_of(old(self)@, id), old(self)@.current_tick, state)),
    {
        let i = self.find_ball(id).unwrap();
        let ghost before: GameState<S> = *self;
        let tick = self.current_tick;
        self.balls[i].change_state(tick, state);
        proof {
            self.lemma_after_ball_step(before, i as int);
        }
    }
}

/// A force applied to a combatant (a shove's or an explosion's) stuns it: afterwards it is
/// stunned, keeping its id and team, while every other combatant, every ball, the scores and
/// the tick stay as they were; the event takes effect and sets nothing off.
pub proof fn law_forced_combatant_is_stunned<S>(
    g: GameView<S>,
    e: SimulationEvent,
    target: CombatantId,
    within_reach: bool,
)
    requires
        ids_distinct(g),
        has_combatant(g, target),
        (e matches SimulationEvent::CombatantShoveForceApplied { recipient_target_id, .. } && recipient_target_id == target)
            || (e matches SimulationEvent::BallExplosionForceApplied { combatant_id, .. } && combatant_id == target),
    ensures
        event_outcome(g, e, within_reach).1,
        event_outcome(g, e, within_reach).2 == Seq::<SimulationEvent>::empty(),
        event_outcome(g, e, within_reach).0.combatants.len() == g.combatants.len(),
        forall|i: int|
            0 <= i < g.combatants.len() ==> if (#[trigger] g.combatants[i]).id == target {
                &&& event_outcome(g, e, within_reach).0.combatants[i].stunned
                &&& event_outcome(g, e, within_reach).0.combatants[i].id == target
                &&& event_outcome(g, e, within_reach).0.combatants[i].team == g.combatants[i].team
            } else {
                event_outcome(g, e, within_reach).0.combatants[i] == g.combatants[i]
            },
        event_outcome(g, e, within_reach).0.balls == g.balls,
        event_outcome(g, e, within_reach).0.home_points == g.home_points,
        event_outcome(g, e, within_reach).0.away_points == g.away_points,
        event_outcome(g, e, within_reach).0.current_tick == g.current_tick,
{
    let ci = combatant_index(g, target);
    assert(0 <= ci < g.combatants.len() && g.combatants[ci].id == target);
    let out = event_outcome(g, e, within_reach).0;
    assert(out.combatants == g.combatants.update(ci, with_stun(g.combatants[ci], true)));
    assert forall|i: int| 0 <= i < g.combatants.len() implies if (#[trigger] g.combatants[i]).id == target {
        &&& out.combatants[i].stunned
        &&& out.combatants[i].id == target
        &&& out.combatants[i].team == g.combatants[i].team
    } else {
        out.combatants[i] == g.combatants[i]
    } by {
        if g.combatants[i].id == target {
            lemma_combatant_index(g, i);
        }
    }
}

/// A stunned combatant picks up or catches nothing: the event is refused and the game is
/// unchanged.
pub proof fn law_stunned_combatant_cannot_pick_up<S>(
    g: GameView<S>,
    combatant_id: CombatantId,
    ball_id: BallId,
    within_reach: bool,
)
    requires
        has_combatant(g, combatant_id),
        combatant_of(g, combatant_id).stunned,
    ensures
        event_outcome(g, SimulationEvent::CombatantPickedUpBall { combatant_id, ball_id }, within_reach) == (
            g,
            false,
            Seq::<SimulationEvent>::empty(),
        ),
{
}

/// No event lowers a score.
pub proof fn law_scores_never_decrease<S>(g: GameView<S>, e: SimulationEvent, within_reach: bool)
    requires
        event_applicable(g, e),
    ensures
        event_outcome(g, e, within_reach).0.home_points >= g.home_points,
        event_outcome(g, e, within_reach).0.away_points >= g.away_points,
{
}

/// Only points scored by a combatant change a score, and only that combatant's team's score,
/// by the points scored.
pub proof fn law_points_go_to_the_scorers_team<S>(g: GameView<S>, e: SimulationEvent, within_reach: bool)
    requires
        event_applicable(g, e),
    ensures
        match e {
            SimulationEvent::PointsScoredByCombatant { combatant_id, points, .. } => if combatant_of(
                g,
                combatant_id,
            ).team == TeamAlignment::Home {
                event_outcome(g, e, within_reach).0.home_points == g.home_points + points
                    && event_outcome(g, e, within_reach).0.away_points == g.away_points
            } else {
                event_outcome(g, e, within_reach).0.away_points == g.away_points + points
                    && event_outcome(g, e, within_reach).0.home_points == g.home_points
            },
            _ => event_outcome(g, e, within_reach).0.home_points == g.home_points
                && event_outcome(g, e, within_reach).0.away_points == g.away_points,
        },
{
}

/// The start of a stun makes a combatant let go of its ball: it holds none afterwards and no
/// longer believes it holds one, and the drop is set off.
pub proof fn law_stun_drops_ball<S>(g: GameView<S>, combatant_id: CombatantId, within_reach: bool)
    requires
        ids_distinct(g),
        event_applicable(g, SimulationEvent::CombatantStunned { combatant_id, start: true }),
        combatant_of(g, combatant_id).holding_ball is Some,
    ensures
        ({
            let after = event_outcome(g, SimulationEvent::CombatantStunned { combatant_id, start: true }, within_reach);
            &&& combatant_of(after.0, combatant_id).holding_ball is None
            &&& !spec_can_satisfy(combatant_of(after.0, combatant_id).beliefs, holds_ball_test(combatant_id))
            &&& after.2 == seq![
                SimulationEvent::CombatantDroppedBall {
                    combatant_id,
                    ball_id: combatant_of(g, combatant_id).holding_ball->0,
                },
            ]
        }),
{
    let c = combatant_of(g, combatant_id);
    let ball_id = c.holding_ball->0;
    let i = combatant_index(g, combatant_id);
    let after = event_outcome(g, SimulationEvent::CombatantStunned { combatant_id, start: true }, within_reach);
    law_removed_beliefs_fail_test(c.beliefs, holds_ball_test(combatant_id));
    let g1 = with_combatant(g, combatant_id, CombatantView {
        holding_ball: None,
        beliefs: set_remove_passing(c.beliefs, holds_ball_test(combatant_id)),
        ..c
    });
    assert(g1.combatants[i].id == combatant_id);
    assert(after.0.combatants == g1.combatants);
    assert forall|j: int| 0 <= j < after.0.combatants.len() && after.0.combatants[j].id == combatant_id implies j == i by {
        if j != i {
            assert(g.combatants[j].id == after.0.combatants[j].id);
        }
    }
    assert(combatant_index(after.0, combatant_id) == i);
}

/// A shared belief reaches every combatant but its sender, whose beliefs are unchanged.
pub proof fn law_broadcast_skips_sender<S>(g: GameView<S>, from_combatant_id: CombatantId, belief: Belief, within_reach: bool)
    ensures
        ({
            let after = event_outcome(g, SimulationEvent::BroadcastBelief { from_combatant_id, belief }, within_reach).0;
            &&& after.combatants.len() == g.combatants.len()
            &&& forall|i: int| 0 <= i < g.combatants.len() ==> (#[trigger] after.combatants[i]) == if g.combatants[i].id
                == from_combatant_id {
                g.combatants[i]
            } else {
                with_shared_belief(g.combatants[i], belief, g.current_tick)
            }
        }),
{
}

/// A ball that is not idle keeps its holder and its state, whoever it is handed to.
pub proof fn law_busy_ball_keeps_holder(b: BallObject, holder: Option<CombatantId>, tick: GameTickNumber)
    requires
        b.state != BallState::Idle,
    ensures
        with_holder(b, holder, tick) == b,
{
}

} // verus!
