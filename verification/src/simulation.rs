use vstd::prelude::*;
use crate::ball::BallState;
use crate::belief::{BallId, CombatantId, GameTickNumber, PlateId};
use crate::config::{SimulationConfig, SimulationConfigView, ticks_in_game};
use crate::game_object::{GameObjectType, TeamAlignment};
use crate::game_state::{GameState, GameView, ball_of, combatant_of, has_ball, has_combatant};
use crate::simulation_event::SimulationEvent;
use crate::strategy::Strategy;

verus! {

/// Points a combatant earns on a plate each scoring tick.
pub const PLATE_POINTS_PER_TICK: u8 = 1;

/// Multiplier of the points earned on a plate that one team owns.
pub const OWNED_PLATE_MULTIPLIER: u8 = 2;

/// What a collision between two colliders leads to.
#[derive(Debug, Clone, Copy, PartialEq, Eq, Structural)]
pub enum CollisionOutcome {
    /// Nothing happens.
    Ignored,
    /// An event is proposed to the simulation.
    Event(SimulationEvent),
    /// A combatant that ran into a barrier takes damage (measured in the physics world).
    Damage(CombatantId),
}

/// Whether a collision can be classified in a game: the ball it involves exists, and so do the
/// combatants whose teams decide a hit.
pub open spec fn collision_known<S>(
    g: GameView<S>,
    first: GameObjectType,
    second: GameObjectType,
    started: bool,
) -> bool {
    match (first, second) {
        (GameObjectType::Invalid, _) | (_, GameObjectType::Invalid) => true,
        (GameObjectType::Ball(b), GameObjectType::Barrier)
        | (GameObjectType::Barrier, GameObjectType::Ball(b)) => started ==> has_ball(g, b),
        (GameObjectType::Plate(_), _) | (_, GameObjectType::Plate(_)) => true,
        (GameObjectType::BallSpawn, _) | (_, GameObjectType::BallSpawn) => true,
        (GameObjectType::Ball(b), GameObjectType::Combatant(c))
        | (GameObjectType::Combatant(c), GameObjectType::Ball(b)) => started ==> {
            &&& has_ball(g, b)
            &&& has_combatant(g, c)
            &&& (ball_of(g, b).state matches BallState::ThrownAtTarget { thrower_id, .. }
                ==> has_combatant(g, thrower_id))
        },
        _ => true,
    }
}

/// What a collision that starts (`started`) or stops between two colliders leads to:
/// - a flying ball hitting the arena defuses against it;
/// - a combatant stepping on or off a plate is recorded;
/// - a combatant running into a barrier takes damage;
/// - a flying ball hitting a combatant of the thrower's opposing team is a hit;
/// everything else is ignored.
pub open spec fn collision_outcome<S>(
    g: GameView<S>,
    first: GameObjectType,
    second: GameObjectType,
    started: bool,
) -> CollisionOutcome {
    match (first, second) {
        (GameObjectType::Invalid, _) | (_, GameObjectType::Invalid) => CollisionOutcome::Ignored,
        (GameObjectType::Ball(ball_id), GameObjectType::Barrier)
        | (GameObjectType::Barrier, GameObjectType::Ball(ball_id)) => if !started {
            CollisionOutcome::Ignored
        } else {
            match ball_of(g, ball_id).state {
                BallState::ThrownAtTarget { thrower_id, target_id, .. } => CollisionOutcome::Event(
                    SimulationEvent::BallCollisionArena {
                        thrower_id,
                        original_target_id: target_id,
                        ball_id,
                    },
                ),
                _ => CollisionOutcome::Ignored,
            }
        },
        (GameObjectType::Plate(plate_id), GameObjectType::Combatant(combatant_id))
        | (GameObjectType::Combatant(combatant_id), GameObjectType::Plate(plate_id)) => if started {
            CollisionOutcome::Event(SimulationEvent::CombatantOnPlate { combatant_id, plate_id })
        } else {
            CollisionOutcome::Event(SimulationEvent::CombatantOffPlate { combatant_id, plate_id })
        },
        (GameObjectType::Plate(_), _) | (_, GameObjectType::Plate(_)) => CollisionOutcome::Ignored,
        (GameObjectType::BallSpawn, _) | (_, GameObjectType::BallSpawn) => CollisionOutcome::Ignored,
        (GameObjectType::Barrier, GameObjectType::Combatant(combatant_id))
        | (GameObjectType::Combatant(combatant_id), GameObjectType::Barrier) => if started {
            CollisionOutcome::Damage(combatant_id)
        } else {
            CollisionOutcome::Ignored
        },
        (GameObjectType::Ball(ball_id), GameObjectType::Combatant(combatant_id))
        | (GameObjectType::Combatant(combatant_id), GameObjectType::Ball(ball_id)) => if !started {
            CollisionOutcome::Ignored
        } else {
            match ball_of(g, ball_id).state {
                BallState::ThrownAtTarget { thrower_id, .. } => if combatant_of(g, thrower_id).team
                    != combatant_of(g, combatant_id).team {
                    CollisionOutcome::Event(
                        SimulationEvent::BallCollisionEnemy { thrower_id, enemy_id: combatant_id, ball_id },
                    )
                } else {
                    CollisionOutcome::Ignored
                },
                _ => CollisionOutcome::Ignored,
            }
        },
        _ => CollisionOutcome::Ignored,
    }
}

/// What a collision reported by the physics world leads to.
pub fn classify_collision<S: Strategy>(
    game: &GameState<S>,
    first: GameObjectType,
    second: GameObjectType,
    started: bool,
) -> (r: CollisionOutcome)
    requires
        game.well_formed(),
        collision_known(game@, first, second, started),
    ensures
        r == collision_outcome(game@, first, second, started),
{
    match (first, second) {
        (GameObjectType::Invalid, _) | (_, GameObjectType::Invalid) => CollisionOutcome::Ignored,
        (GameObjectType::Ball(ball_id), GameObjectType::Barrier)
        | (GameObjectType::Barrier, GameObjectType::Ball(ball_id)) => {
            if !started {
                return CollisionOutcome::Ignored;
            }
            let ball = game.ball(ball_id).unwrap();
            match ball.state {
                BallState::ThrownAtTarget { thrower_id, target_id, .. } => CollisionOutcome::Event(
                    SimulationEvent::BallCollisionArena {
                        thrower_id,
                        original_target_id: target_id,
                        ball_id,
                    },
                ),
                _ => CollisionOutcome::Ignored,
            }
        },
        (GameObjectType::Plate(plate_id), GameObjectType::Combatant(combatant_id))
        | (GameObjectType::Combatant(combatant_id), GameObjectType::Plate(plate_id)) => {
            if started {
                CollisionOutcome::Event(SimulationEvent::CombatantOnPlate { combatant_id, plate_id })
            } else {
                CollisionOutcome::Event(SimulationEvent::CombatantOffPlate { combatant_id, plate_id })
            }
        },
        (GameObjectType::Plate(_), _) | (_, GameObjectType::Plate(_)) => CollisionOutcome::Ignored,
        (GameObjectType::BallSpawn, _) | (_, GameObjectType::BallSpawn) => CollisionOutcome::Ignored,
        (GameObjectType::Barrier, GameObjectType::Combatant(combatant_id))
        | (GameObjectType::Combatant(combatant_id), GameObjectType::Barrier) => {
            if started {
                CollisionOutcome::Damage(combatant_id)
            } else {
                CollisionOutcome::Ignored
            }
        },
        (GameObjectType::Ball(ball_id), GameObjectType::Combatant(combatant_id))
        | (GameObjectType::Combatant(combatant_id), GameObjectType::Ball(ball_id)) => {
            if !started {
                return CollisionOutcome::Ignored;
            }
            let ball = game.ball(ball_id).unwrap();
            match ball.state {
                BallState::ThrownAtTarget { thrower_id, .. } => {
                    let thrower_team = game.combatant(thrower_id).unwrap().team();
                    let hit_team = game.combatant(combatant_id).unwrap().team();
                    if thrower_team != hit_team {
                        CollisionOutcome::Event(
                            SimulationEvent::BallCollisionEnemy {
                                thrower_id,
                                enemy_id: combatant_id,
                                ball_id,
                            },
                        )
                    } else {
                        CollisionOutcome::Ignored
                    }
                },
                _ => CollisionOutcome::Ignored,
            }
        },
        _ => CollisionOutcome::Ignored,
    }
}

/// A collision reported by the physics world: the kinds of the two colliders (when known) and
/// whether it started or stopped.
#[derive(Debug, Clone, Copy, PartialEq, Eq, Structural)]
pub struct Collision {
    pub first: Option<GameObjectType>,
    pub second: Option<GameObjectType>,
    pub started: bool,
}

/// What a reported collision leads to; one whose colliders are not both known is ignored.
pub open spec fn reported_outcome<S>(g: GameView<S>, c: Collision) -> CollisionOutcome {
    match (c.first, c.second) {
        (Some(a), Some(b)) => collision_outcome(g, a, b, c.started),
        _ => CollisionOutcome::Ignored,
    }
}

/// Whether a reported collision can be classified.
pub open spec fn reported_known<S>(g: GameView<S>, c: Collision) -> bool {
    match (c.first, c.second) {
        (Some(a), Some(b)) => collision_known(g, a, b, c.started),
        _ => true,
    }
}

/// What each collision of a tick leads to, in order.
pub fn handle_collision_events<S: Strategy>(game: &GameState<S>, collisions: &Vec<Collision>) -> (r:
    Vec<CollisionOutcome>)
    requires
        game.well_formed(),
        forall|i: int| 0 <= i < collisions.len() ==> reported_known(game@, #[trigger] collisions@[i]),
    ensures
        r@ == collisions@.map_values(|c: Collision| reported_outcome(game@, c)),
{
    let mut out: Vec<CollisionOutcome> = Vec::new();
    let mut i: usize = 0;
    while i < collisions.len()
        invariant
            i <= collisions.len(),
            game.well_formed(),
            forall|j: int| 0 <= j < collisions.len() ==> reported_known(game@, #[trigger] collisions@[j]),
            out@ == collisions@.take(i as int).map_values(|c: Collision| reported_outcome(game@, c)),
        decreases collisions.len() - i,
    {
        let c = collisions[i];
        assert(reported_known(game@, collisions@[i as int]));
        let outcome = match (c.first, c.second) {
            (Some(a), Some(b)) => classify_collision(game, a, b, c.started),
            _ => CollisionOutcome::Ignored,
        };
        out.push(outcome);
        i = i + 1;
        assert(out@ =~= collisions@.take(i as int).map_values(|c: Collision| reported_outcome(game@, c)));
    }
    assert(collisions@.take(collisions.len() as int) =~= collisions@);
    out
}

/// Whether every combatant on a plate belongs to one team (also when there is none): that team
/// owns the plate.
pub open spec fn one_team_owns(occupants: Seq<(CombatantId, TeamAlignment)>) -> bool {
    (forall|i: int| 0 <= i < occupants.len() ==> (#[trigger] occupants[i]).1 == TeamAlignment::Home)
        || (forall|i: int| 0 <= i < occupants.len() ==> (#[trigger] occupants[i]).1 == TeamAlignment::Away)
}

/// The points each combatant on a plate earns this scoring tick: doubled when one team owns
/// the plate.
pub open spec fn plate_points(occupants: Seq<(CombatantId, TeamAlignment)>) -> u8 {
    if one_team_owns(occupants) {
        2
    } else {
        1
    }
}

/// The scoring events of a plate: each combatant on it, in order, scores the plate's points.
pub open spec fn plate_events(plate_id: PlateId, occupants: Seq<(CombatantId, TeamAlignment)>) -> Seq<
    SimulationEvent,
> {
    occupants.map_values(
        |o: (CombatantId, TeamAlignment)|
            SimulationEvent::PointsScoredByCombatant {
                plate_id,
                combatant_id: o.0,
                points: plate_points(occupants),
            },
    )
}

/// The scoring events of a plate given the combatants standing on it, with their teams.
pub fn plate_scoring_events(plate_id: PlateId, occupants: &Vec<(CombatantId, TeamAlignment)>) -> (r:
    Vec<SimulationEvent>)
    ensures
        r@ == plate_events(plate_id, occupants@),
{
    let mut home_owns = true;
    let mut away_owns = true;
    let mut i: usize = 0;
    while i < occupants.len()
        invariant
            i <= occupants.len(),
            home_owns == forall|j: int| 0 <= j < i ==> (#[trigger] occupants@[j]).1 == TeamAlignment::Home,
            away_owns == forall|j: int| 0 <= j < i ==> (#[trigger] occupants@[j]).1 == TeamAlignment::Away,
        decreases occupants.len() - i,
    {
        match occupants[i].1 {
            TeamAlignment::Home => {
                away_owns = false;
            },
            TeamAlignment::Away => {
                home_owns = false;
            },
        }
        i = i + 1;
    }
    let points: u8 = if home_owns || away_owns {
        PLATE_POINTS_PER_TICK * OWNED_PLATE_MULTIPLIER
    } else {
        PLATE_POINTS_PER_TICK
    };
    assert(points == plate_points(occupants@));
    let mut events: Vec<SimulationEvent> = Vec::new();
    let mut k: usize = 0;
    while k < occupants.len()
        invariant
            k <= occupants.len(),
            points == plate_points(occupants@),
            events@ == plate_events(plate_id, occupants@).take(k as int),
        decreases occupants.len() - k,
    {
        events.push(
            SimulationEvent::PointsScoredByCombatant { plate_id, combatant_id: occupants[k].0, points },
        );
        k = k + 1;
        assert(events@ =~= plate_events(plate_id, occupants@).take(k as int));
    }
    assert(plate_events(plate_id, occupants@).take(occupants.len() as int) =~= plate_events(
        plate_id,
        occupants@,
    ));
    events
}

/// The combatants among the colliders on a plate, with their teams: colliders that are not
/// combatants of the game are left out.
pub open spec fn occupants_of<S>(g: GameView<S>, colliders: Seq<GameObjectType>) -> Seq<(CombatantId, TeamAlignment)>
    decreases colliders.len(),
{
    if colliders.len() == 0 {
        seq![]
    } else {
        let rest = occupants_of(g, colliders.drop_last());
        match colliders.last() {
            GameObjectType::Combatant(id) => if has_combatant(g, id) {
                rest.push((id, combatant_of(g, id).team))
            } else {
                rest
            },
            _ => rest,
        }
    }
}

/// The combatants standing on a plate, from the colliders the physics world finds on it.
pub fn plate_occupants<S: Strategy>(game: &GameState<S>, colliders: &Vec<GameObjectType>) -> (r: Vec<
    (CombatantId, TeamAlignment),
>)
    requires
        game.well_formed(),
    ensures
        r@ == occupants_of(game@, colliders@),
{
    let mut out: Vec<(CombatantId, TeamAlignment)> = Vec::new();
    let mut i: usize = 0;
    while i < colliders.len()
        invariant
            i <= colliders.len(),
            game.well_formed(),
            out@ == occupants_of(game@, colliders@.take(i as int)),
        decreases colliders.len() - i,
    {
        proof {
            assert(colliders@.take(i + 1).drop_last() =~= colliders@.take(i as int));
        }
        match colliders[i] {
            GameObjectType::Combatant(id) => {
                match game.combatant(id) {
                    Some(c) => {
                        out.push((id, c.team()));
                    },
                    None => {},
                }
            },
            _ => {},
        }
        i = i + 1;
    }
    assert(colliders@.take(colliders.len() as int) =~= colliders@);
    out
}

/// What a tick is: the half-time (halfway through the game's ticks), the end of the game (its
/// last tick, or a score reaching the conclusion score when there is one), and a scoring tick
/// (one that closes a second).
#[derive(Debug, Clone, Copy, PartialEq, Eq, Structural)]
pub struct TickStatus {
    pub is_halftime: bool,
    pub is_end_of_game: bool,
    pub is_scoring_tick: bool,
}

/// The number of ticks of a game (zero periods count as one).
pub open spec fn game_ticks(c: SimulationConfigView) -> int {
    ticks_in_game(c)
}

/// What the tick numbered `tick` is, given the higher of the two scores.
pub open spec fn status_of(c: SimulationConfigView, tick: GameTickNumber, highest_score: u16) -> TickStatus {
    TickStatus {
        is_halftime: tick == game_ticks(c) / 2,
        is_end_of_game: tick == game_ticks(c) || (c.game_conclusion_score != 0 && highest_score
            >= c.game_conclusion_score),
        is_scoring_tick: tick % c.ticks_per_second == 0,
    }
}

/// What the current tick of a game is.
pub fn tick_status(config: &SimulationConfig, current_tick: GameTickNumber, home_points: u16, away_points: u16) -> (r:
    TickStatus)
    requires
        config@.ticks_per_second != 0,
        game_ticks(config@) <= u32::MAX,
    ensures
        r == status_of(config@, current_tick, if home_points >= away_points { home_points } else { away_points }),
{
    let highest_score = if home_points >= away_points { home_points } else { away_points };
    let ticks_per_game = config.ticks_per_game();
    let conclusion = config.game_conclusion_score();
    TickStatus {
        is_halftime: current_tick == ticks_per_game / 2,
        is_end_of_game: current_tick == ticks_per_game || (conclusion != 0 && highest_score >= conclusion),
        is_scoring_tick: current_tick % config.ticks_per_second() == 0,
    }
}

/// A flying ball touching a combatant (named in either order) is a hit exactly when the
/// combatant plays for another team than the thrower: then the hit names the thrower, the
/// combatant and the ball; a combatant of the thrower's own team is ignored.
pub proof fn law_hit_only_across_teams<S>(
    g: GameView<S>,
    ball_id: BallId,
    combatant_id: CombatantId,
    thrower_id: CombatantId,
)
    requires
        ball_of(g, ball_id).state matches BallState::ThrownAtTarget { thrower_id: t, .. } && t == thrower_id,
    ensures
        combatant_of(g, thrower_id).team != combatant_of(g, combatant_id).team ==> {
            &&& collision_outcome(g, GameObjectType::Ball(ball_id), GameObjectType::Combatant(combatant_id), true)
                == CollisionOutcome::Event(SimulationEvent::BallCollisionEnemy { thrower_id, enemy_id: combatant_id, ball_id })
            &&& collision_outcome(g, GameObjectType::Combatant(combatant_id), GameObjectType::Ball(ball_id), true)
                == CollisionOutcome::Event(SimulationEvent::BallCollisionEnemy { thrower_id, enemy_id: combatant_id, ball_id })
        },
        combatant_of(g, thrower_id).team == combatant_of(g, combatant_id).team ==> {
            &&& collision_outcome(g, GameObjectType::Ball(ball_id), GameObjectType::Combatant(combatant_id), true)
                == CollisionOutcome::Ignored
            &&& collision_outcome(g, GameObjectType::Combatant(combatant_id), GameObjectType::Ball(ball_id), true)
                == CollisionOutcome::Ignored
        },
{
}

/// Every occupant of a plate with its team exchanged (home for away and away for home).
pub open spec fn with_teams_swapped(occupants: Seq<(CombatantId, TeamAlignment)>) -> Seq<(CombatantId, TeamAlignment)> {
    occupants.map_values(
        |o: (CombatantId, TeamAlignment)|
            (o.0, if o.1 == TeamAlignment::Home { TeamAlignment::Away } else { TeamAlignment::Home }),
    )
}

/// Plate ownership: when every occupant plays for the same team (whichever it is), each scores
/// the owned-plate points; when two occupants play for different teams, each scores the plain
/// points; and exchanging every occupant's team changes no event.
pub proof fn law_plate_ownership(plate_id: PlateId, occupants: Seq<(CombatantId, TeamAlignment)>, team: TeamAlignment)
    ensures
        (forall|i: int| 0 <= i < occupants.len() ==> (#[trigger] occupants[i]).1 == team) ==> forall|i: int|
            0 <= i < occupants.len() ==> #[trigger] plate_events(plate_id, occupants)[i]
                == (SimulationEvent::PointsScoredByCombatant {
                plate_id,
                combatant_id: occupants[i].0,
                points: (PLATE_POINTS_PER_TICK * OWNED_PLATE_MULTIPLIER) as u8,
            }),
        (exists|i: int, j: int|
            0 <= i < occupants.len() && 0 <= j < occupants.len() && (#[trigger] occupants[i]).1 != (
            #[trigger] occupants[j]).1) ==> forall|i: int|
            0 <= i < occupants.len() ==> #[trigger] plate_events(plate_id, occupants)[i]
                == (SimulationEvent::PointsScoredByCombatant {
                plate_id,
                combatant_id: occupants[i].0,
                points: PLATE_POINTS_PER_TICK,
            }),
        plate_events(plate_id, with_teams_swapped(occupants)) == plate_events(plate_id, occupants),
{
    let sw = with_teams_swapped(occupants);
    if forall|i: int| 0 <= i < occupants.len() ==> (#[trigger] occupants[i]).1 == team {
        if team == TeamAlignment::Home {
            assert(forall|i: int| 0 <= i < occupants.len() ==> (#[trigger] occupants[i]).1 == TeamAlignment::Home);
        } else {
            assert(forall|i: int| 0 <= i < occupants.len() ==> (#[trigger] occupants[i]).1 == TeamAlignment::Away);
        }
        assert(one_team_owns(occupants));
    }
    if exists|i: int, j: int|
        0 <= i < occupants.len() && 0 <= j < occupants.len() && (#[trigger] occupants[i]).1 != (
        #[trigger] occupants[j]).1 {
        let (i, j) = choose|i: int, j: int|
            0 <= i < occupants.len() && 0 <= j < occupants.len() && (#[trigger] occupants[i]).1 != (
            #[trigger] occupants[j]).1;
        assert(!one_team_owns(occupants)) by {
            if forall|k: int| 0 <= k < occupants.len() ==> (#[trigger] occupants[k]).1 == TeamAlignment::Home {
                assert(occupants[i].1 == TeamAlignment::Home);
                assert(occupants[j].1 == TeamAlignment::Home);
            }
            if forall|k: int| 0 <= k < occupants.len() ==> (#[trigger] occupants[k]).1 == TeamAlignment::Away {
                assert(occupants[i].1 == TeamAlignment::Away);
                assert(occupants[j].1 == TeamAlignment::Away);
            }
        }
    }
    assert forall|k: int| 0 <= k < occupants.len() implies (#[trigger] sw[k]).0 == occupants[k].0 && (sw[k].1
        == TeamAlignment::Home <==> occupants[k].1 == TeamAlignment::Away) && (sw[k].1 == TeamAlignment::Away
        <==> occupants[k].1 == TeamAlignment::Home) by {}
    assert(one_team_owns(sw) == one_team_owns(occupants)) by {
        if forall|k: int| 0 <= k < occupants.len() ==> (#[trigger] occupants[k]).1 == TeamAlignment::Home {
            assert(forall|k: int| 0 <= k < sw.len() ==> (#[trigger] sw[k]).1 == TeamAlignment::Away);
        }
        if forall|k: int| 0 <= k < occupants.len() ==> (#[trigger] occupants[k]).1 == TeamAlignment::Away {
            assert(forall|k: int| 0 <= k < sw.len() ==> (#[trigger] sw[k]).1 == TeamAlignment::Home);
        }
        if forall|k: int| 0 <= k < sw.len() ==> (#[trigger] sw[k]).1 == TeamAlignment::Home {
            assert forall|k: int| 0 <= k < occupants.len() implies (#[trigger] occupants[k]).1 == TeamAlignment::Away by {
                assert(sw[k].1 == TeamAlignment::Home);
            }
        }
        if forall|k: int| 0 <= k < sw.len() ==> (#[trigger] sw[k]).1 == TeamAlignment::Away {
            assert forall|k: int| 0 <= k < occupants.len() implies (#[trigger] occupants[k]).1 == TeamAlignment::Home by {
                assert(sw[k].1 == TeamAlignment::Away);
            }
        }
    }
    assert(plate_events(plate_id, sw) =~= plate_events(plate_id, occupants));
}

/// A collision leads to the same outcome whichever of its two colliders is named first.
pub proof fn law_collision_symmetric<S>(g: GameView<S>, first: GameObjectType, second: GameObjectType, started: bool)
    ensures
        collision_outcome(g, first, second, started) == collision_outcome(g, second, first, started),
        collision_known(g, first, second, started) == collision_known(g, second, first, started),
{
}

/// Every combatant on a plate scores, in the order given, and all score alike: twice the
/// points per tick when one team owns the plate, the points per tick otherwise.
pub proof fn law_plate_points_shared(plate_id: PlateId, occupants: Seq<(CombatantId, TeamAlignment)>)
    ensures
        plate_events(plate_id, occupants).len() == occupants.len(),
        forall|i: int| 0 <= i < occupants.len() ==> #[trigger] plate_events(plate_id, occupants)[i]
            == (SimulationEvent::PointsScoredByCombatant {
            plate_id,
            combatant_id: occupants[i].0,
            points: if one_team_owns(occupants) {
                (PLATE_POINTS_PER_TICK * OWNED_PLATE_MULTIPLIER) as u8
            } else {
                PLATE_POINTS_PER_TICK
            },
        }),
{
}

} // verus!
