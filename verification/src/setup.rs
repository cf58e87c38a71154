use vstd::prelude::*;
use crate::ball::BallObject;
use crate::belief::{BallId, CombatantId, GameTickNumber};
use crate::combatant::{CombatantObject, CombatantView};
use crate::config::SimulationConfig;
use crate::game_object::{GameObjectType, TeamAlignment};
use crate::belief::PlateId;
use crate::game_state::{GameState, GameView, combatant_views, ids_distinct};
use crate::strategy::Strategy;

verus! {

/// A combatant placed on a start of the arena: its id, its team and the position, in its team's
/// roster, of the combatant taken.
#[derive(Debug, Clone, Copy, PartialEq, Eq, Structural)]
pub struct StartAssignment {
    pub combatant_id: CombatantId,
    pub team: TeamAlignment,
    pub roster_index: usize,
}

/// The combatants placed on the starts after those already handled: the start at position `k`
/// (counting from zero) gets id `k + 1`, and takes the last combatant not yet taken from its
/// team's roster; a start whose team has no combatant left stays empty.
pub open spec fn assignments_from(
    starts: Seq<bool>,
    k: nat,
    home_left: nat,
    away_left: nat,
) -> Seq<StartAssignment>
    decreases starts.len() - k,
{
    if k >= starts.len() {
        seq![]
    } else if starts[k as int] {
        if home_left == 0 {
            assignments_from(starts, k + 1, home_left, away_left)
        } else {
            seq![
                StartAssignment {
                    combatant_id: (k + 1) as u64,
                    team: TeamAlignment::Home,
                    roster_index: (home_left - 1) as usize,
                },
            ] + assignments_from(starts, k + 1, (home_left - 1) as nat, away_left)
        }
    } else {
        if away_left == 0 {
            assignments_from(starts, k + 1, home_left, away_left)
        } else {
            seq![
                StartAssignment {
                    combatant_id: (k + 1) as u64,
                    team: TeamAlignment::Away,
                    roster_index: (away_left - 1) as usize,
                },
            ] + assignments_from(starts, k + 1, home_left, (away_left - 1) as nat)
        }
    }
}

/// The ids of the assignments from position `k` on exceed `k`, and increase.
proof fn lemma_assignment_ids(starts: Seq<bool>, k: nat, home_left: nat, away_left: nat)
    requires
        starts.len() < u64::MAX,
    ensures
        forall|i: int|
            0 <= i < assignments_from(starts, k, home_left, away_left).len() ==> (#[trigger] assignments_from(
                starts,
                k,
                home_left,
                away_left,
            )[i]).combatant_id > k,
        forall|i: int, j: int|
            0 <= i < j < assignments_from(starts, k, home_left, away_left).len() ==> (#[trigger] assignments_from(
                starts,
                k,
                home_left,
                away_left,
            )[i]).combatant_id < (#[trigger] assignments_from(starts, k, home_left, away_left)[j]).combatant_id,
    decreases starts.len() - k,
{
    if k < starts.len() {
        let here = assignments_from(starts, k, home_left, away_left);
        let takes = if starts[k as int] { home_left > 0 } else { away_left > 0 };
        let h1: nat = if starts[k as int] && home_left > 0 { (home_left - 1) as nat } else { home_left };
        let a1: nat = if !starts[k as int] && away_left > 0 { (away_left - 1) as nat } else { away_left };
        let rest = assignments_from(starts, k + 1, h1, a1);
        lemma_assignment_ids(starts, k + 1, h1, a1);
        if takes {
            assert(here == seq![here[0]] + rest);
            assert(here[0].combatant_id == k + 1);
            assert forall|i: int| 0 <= i < here.len() implies (#[trigger] here[i]).combatant_id > k by {
                if i > 0 {
                    assert(here[i] == rest[i - 1]);
                }
            }
            assert forall|i: int, j: int| 0 <= i < j < here.len() implies (#[trigger] here[i]).combatant_id
                < (#[trigger] here[j]).combatant_id by {
                assert(here[j] == rest[j - 1]);
                if i > 0 {
                    assert(here[i] == rest[i - 1]);
                }
            }
        } else {
            assert(here == rest);
        }
    }
}

/// Places the combatants of the two rosters on the starts of the arena (`true` for a start of
/// the home team), in order.
pub fn assign_starts(home_team_starts: &Vec<bool>, home_count: usize, away_count: usize) -> (r: Vec<
    StartAssignment,
>)
    requires
        home_team_starts.len() < u64::MAX,
    ensures
        r@ == assignments_from(home_team_starts@, 0, home_count as nat, away_count as nat),
{
    let mut out: Vec<StartAssignment> = Vec::new();
    let mut home_left = home_count;
    let mut away_left = away_count;
    let mut k: usize = 0;
    while k < home_team_starts.len()
        invariant
            k <= home_team_starts.len(),
            home_team_starts.len() < u64::MAX,
            out@ + assignments_from(home_team_starts@, k as nat, home_left as nat, away_left as nat)
                == assignments_from(home_team_starts@, 0, home_count as nat, away_count as nat),
        decreases home_team_starts.len() - k,
    {
        let ghost before = out@;
        let ghost h0 = home_left as nat;
        let ghost a0 = away_left as nat;
        let id: u64 = k as u64 + 1;
        if home_team_starts[k] {
            if home_left > 0 {
                home_left = home_left - 1;
                out.push(StartAssignment { combatant_id: id, team: TeamAlignment::Home, roster_index: home_left });
            }
        } else {
            if away_left > 0 {
                away_left = away_left - 1;
                out.push(StartAssignment { combatant_id: id, team: TeamAlignment::Away, roster_index: away_left });
            }
        }
        proof {
            let rest = assignments_from(home_team_starts@, (k + 1) as nat, home_left as nat, away_left as nat);
            let here = assignments_from(home_team_starts@, k as nat, h0, a0);
            if out@.len() > before.len() {
                assert(here == seq![out@.last()] + rest);
                assert(out@ + rest =~= before + here);
            } else {
                assert(here == rest);
                assert(out@ == before);
            }
        }
        k = k + 1;
    }
    assert(assignments_from(home_team_starts@, k as nat, home_left as nat, away_left as nat) =~= Seq::<StartAssignment>::empty());
    assert(out@ + Seq::<StartAssignment>::empty() =~= out@);
    out
}

/// The model of a combatant at the start of a game.
pub open spec fn fresh_combatant<S>(id: CombatantId, team: TeamAlignment) -> CombatantView<S> {
    CombatantView {
        id,
        team,
        completed_action: None,
        current_action: None,
        plan: seq![],
        beliefs: crate::belief_set::BeliefSetView { unsourced: seq![], sourced: seq![] },
        on_plate: None,
        holding_ball: None,
        stunned: false,
    }
}

/// The balls of a new game: one per ball spawn, numbered from 1, created at tick zero.
pub open spec fn fresh_balls(count: nat) -> Seq<BallObject> {
    Seq::new(count, |i: int| BallObject {
        id: (i + 1) as u16,
        state: crate::ball::BallState::Idle,
        state_tick_stamp: 0,
        charge: 0,
        is_dirty: false,
        held_by: None,
    })
}

impl<S: Strategy> GameState<S> {
    /// A new game on an arena: a ball on each ball spawn and the combatants of the two rosters
    /// on the starts (`true` for a start of the home team). Returns the game and where each
    /// combatant was placed.
    pub fn from_arena(
        ball_spawn_count: u16,
        home_team_starts: &Vec<bool>,
        home_count: usize,
        away_count: usize,
    ) -> (r: (GameState<S>, Vec<StartAssignment>))
        requires
            ball_spawn_count < u16::MAX,
            home_team_starts.len() < u64::MAX,
        ensures
            r.0.well_formed(),
            r.1@ == assignments_from(home_team_starts@, 0, home_count as nat, away_count as nat),
            r.0@ == (GameView {
                combatants: r.1@.map_values(|a: StartAssignment| fresh_combatant::<S>(a.combatant_id, a.team)),
                balls: fresh_balls(ball_spawn_count as nat),
                home_points: 0,
                away_points: 0,
                current_tick: 0,
            }),
    {
        let assignments = assign_starts(home_team_starts, home_count, away_count);
        proof {
            lemma_assignment_ids(home_team_starts@, 0, home_count as nat, away_count as nat);
        }
        let mut balls: Vec<BallObject> = Vec::new();
        let mut ball_id: u16 = 0;
        while ball_id < ball_spawn_count
            invariant
                ball_id <= ball_spawn_count,
                balls@ == fresh_balls(ball_id as nat),
            decreases ball_spawn_count - ball_id,
        {
            ball_id = ball_id + 1;
            balls.push(BallObject::new(ball_id, 0));
            assert(balls@ =~= fresh_balls(ball_id as nat));
        }
        let mut combatants: Vec<CombatantObject<S>> = Vec::new();
        let mut i: usize = 0;
        while i < assignments.len()
            invariant
                i <= assignments.len(),
                forall|j: int| 0 <= j < combatants.len() ==> (#[trigger] combatants@[j]).well_formed(),
                combatant_views(combatants@) == assignments@.take(i as int).map_values(
                    |a: StartAssignment| fresh_combatant::<S>(a.combatant_id, a.team),
                ),
            decreases assignments.len() - i,
        {
            let a = assignments[i];
            let c = CombatantObject::<S>::new(a.combatant_id, a.team);
            assert(c@ =~= fresh_combatant::<S>(a.combatant_id, a.team));
            let ghost before = combatants@;
            combatants.push(c);
            proof {
                assert(combatant_views(combatants@) =~= combatant_views(before).push(c@));
                assert(assignments@.take(i + 1).map_values(
                    |a: StartAssignment| fresh_combatant::<S>(a.combatant_id, a.team),
                ) =~= assignments@.take(i as int).map_values(
                    |a: StartAssignment| fresh_combatant::<S>(a.combatant_id, a.team),
                ).push(fresh_combatant::<S>(a.combatant_id, a.team)));
                assert forall|j: int| 0 <= j < combatants.len() implies (#[trigger] combatants@[j]).well_formed() by {
                    if j < before.len() {
                        assert(combatants@[j] == before[j]);
                    }
                }
            }
            i = i + 1;
        }
        assert(assignments@.take(assignments.len() as int) =~= assignments@);
        let ghost view = GameView {
            combatants: combatant_views(combatants@),
            balls: balls@,
            home_points: 0,
            away_points: 0,
            current_tick: 0,
        };
        proof {
            assert forall|a: int, b: int| 0 <= a < view.combatants.len() && 0 <= b < view.combatants.len() && a != b implies
                (#[trigger] view.combatants[a]).id != (#[trigger] view.combatants[b]).id by {
                if a < b {
                    assert(assignments@[a].combatant_id < assignments@[b].combatant_id);
                } else {
                    assert(assignments@[b].combatant_id < assignments@[a].combatant_id);
                }
            }
            assert forall|a: int, b: int| 0 <= a < view.balls.len() && 0 <= b < view.balls.len() && a != b implies
                (#[trigger] view.balls[a]).id != (#[trigger] view.balls[b]).id by {}
        }
        let game = GameState::new(combatants, balls);
        (game, assignments)
    }
}

/// How navigation paths treat a barrier.
#[derive(Debug, Clone, Copy, PartialEq, Eq, Structural)]
pub enum NavmeshPathingType {
    Generate,
    Skip,
    Block,
}

/// The kinds of features an arena is built of.
#[derive(Debug, Clone, Copy, PartialEq, Eq, Structural)]
pub enum ArenaFeatureKind {
    Barrier(NavmeshPathingType),
    BallSpawn,
    Plate(PlateId),
    Other,
}

/// The number by which a game's first tick tells clients what an arena object is: 1, 0 and 2
/// for barriers whose paths are generated, skipped and blocked, 3 for ball spawns, 4 for
/// plates, 0 for anything else.
pub open spec fn object_type_number(kind: ArenaFeatureKind) -> u32 {
    match kind {
        ArenaFeatureKind::Barrier(NavmeshPathingType::Generate) => 1,
        ArenaFeatureKind::Barrier(NavmeshPathingType::Skip) => 0,
        ArenaFeatureKind::Barrier(NavmeshPathingType::Block) => 2,
        ArenaFeatureKind::BallSpawn => 3,
        ArenaFeatureKind::Plate(_) => 4,
        ArenaFeatureKind::Other => 0,
    }
}

/// The number by which clients know an arena object.
pub fn object_type_id(kind: ArenaFeatureKind) -> (r: u32)
    ensures
        r == object_type_number(kind),
{
    match kind {
        ArenaFeatureKind::Barrier(NavmeshPathingType::Generate) => 1,
        ArenaFeatureKind::Barrier(NavmeshPathingType::Skip) => 0,
        ArenaFeatureKind::Barrier(NavmeshPathingType::Block) => 2,
        ArenaFeatureKind::BallSpawn => 3,
        ArenaFeatureKind::Plate(_) => 4,
        ArenaFeatureKind::Other => 0,
    }
}

/// What the collider of an arena feature belongs to; only barriers, ball spawns and plates have
/// colliders in a game.
pub fn game_object_type_from_feature(kind: ArenaFeatureKind) -> (r: GameObjectType)
    requires
        kind != ArenaFeatureKind::Other,
    ensures
        r == match kind {
            ArenaFeatureKind::Barrier(_) => GameObjectType::Barrier,
            ArenaFeatureKind::BallSpawn => GameObjectType::BallSpawn,
            ArenaFeatureKind::Plate(id) => GameObjectType::Plate(id),
            ArenaFeatureKind::Other => GameObjectType::Invalid,
        },
{
    match kind {
        ArenaFeatureKind::Barrier(_) => GameObjectType::Barrier,
        ArenaFeatureKind::BallSpawn => GameObjectType::BallSpawn,
        ArenaFeatureKind::Plate(id) => GameObjectType::Plate(id),
        ArenaFeatureKind::Other => GameObjectType::Invalid,
    }
}

} // verus!
