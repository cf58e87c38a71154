use vstd::prelude::*;
use crate::ball::BallState;
use crate::belief::{Belief, CombatantId, ExpiringBelief, GameTickNumber, Vector3Bits};
use crate::game_object::GameObjectType;
use crate::game_state::{GameState, GameView, ball_of, combatant_of, has_ball, has_combatant};
use crate::strategy::Strategy;

verus! {

/// An object met by a ray of sight, with its position and its velocity in the physics world.
#[derive(Debug, Clone, Copy, PartialEq, Eq, Structural)]
pub struct SeenObject {
    pub kind: GameObjectType,
    pub position: Vector3Bits,
    pub velocity: Vector3Bits,
}

/// A belief expiring at a tick.
pub open spec fn expiring(belief: Belief, tick: int) -> ExpiringBelief {
    ExpiringBelief { belief, expires_on_tick: Some(tick as u32) }
}

/// Whether the balls and combatants met by the rays exist in the game.
pub open spec fn sightings_known<S>(g: GameView<S>, rays: Seq<Seq<SeenObject>>) -> bool {
    forall|i: int, j: int|
        0 <= i < rays.len() && 0 <= j < rays[i].len() ==> match (#[trigger] rays[i][j]).kind {
            GameObjectType::Ball(b) => has_ball(g, b),
            GameObjectType::Combatant(c) => has_combatant(g, c),
            _ => true,
        }
}

/// What the owner learns from one object met by a ray, `line_of_sight` telling whether no
/// barrier stood before it: a ball's position (for twelve ticks), who holds it and whether it
/// flies (for four); a combatant's position (for twelve ticks), the ball it holds, the plate it
/// stands on and, in direct line of sight, that the owner sees it (for one tick).
pub open spec fn seen_beliefs<S>(
    g: GameView<S>,
    owner: CombatantId,
    o: SeenObject,
    tick: GameTickNumber,
    line_of_sight: bool,
) -> Seq<ExpiringBelief> {
    match o.kind {
        GameObjectType::Ball(ball_id) => {
            let b = ball_of(g, ball_id);
            seq![expiring(Belief::BallPosition { ball_id, position: o.position, trajectory: o.velocity }, tick + 12)]
                + match b.held_by {
                Some(c) => seq![expiring(Belief::HeldBall { ball_id, combatant_id: c }, tick + 4)],
                None => seq![],
            } + if b.state is ThrownAtTarget {
                seq![expiring(Belief::BallIsFlying { ball_id }, tick + 4)]
            } else {
                seq![]
            }
        },
        GameObjectType::Combatant(combatant_id) => {
            let c = combatant_of(g, combatant_id);
            seq![expiring(Belief::CombatantPosition { combatant_id, position: o.position }, tick + 12)]
                + match c.holding_ball {
                Some(b) => seq![expiring(Belief::HeldBall { ball_id: b, combatant_id }, tick + 1)],
                None => seq![],
            } + match c.on_plate {
                Some(p) => seq![expiring(Belief::OnPlate { plate_id: p, combatant_id }, tick + 1)],
                None => seq![],
            } + if line_of_sight {
                seq![
                    expiring(
                        Belief::DirectLineOfSightToCombatant {
                            self_combatant_id: owner,
                            other_combatant_id: combatant_id,
                        },
                        tick + 1,
                    ),
                ]
            } else {
                seq![]
            }
        },
        _ => seq![],
    }
}

/// What the owner learns from the objects met by one ray, nearest first; behind a barrier,
/// combatants are no longer in direct line of sight.
pub open spec fn ray_beliefs<S>(
    g: GameView<S>,
    owner: CombatantId,
    hits: Seq<SeenObject>,
    tick: GameTickNumber,
    line_of_sight: bool,
) -> Seq<ExpiringBelief>
    decreases hits.len(),
{
    if hits.len() == 0 {
        seq![]
    } else {
        seen_beliefs(g, owner, hits[0], tick, line_of_sight) + ray_beliefs(
            g,
            owner,
            hits.drop_first(),
            tick,
            line_of_sight && hits[0].kind != GameObjectType::Barrier,
        )
    }
}

/// What the owner learns from all its rays of sight, ray by ray.
pub open spec fn sight_beliefs<S>(
    g: GameView<S>,
    owner: CombatantId,
    rays: Seq<Seq<SeenObject>>,
    tick: GameTickNumber,
) -> Seq<ExpiringBelief>
    decreases rays.len(),
{
    if rays.len() == 0 {
        seq![]
    } else {
        sight_beliefs(g, owner, rays.drop_last(), tick) + ray_beliefs(g, owner, rays.last(), tick, true)
    }
}

fn seen<S: Strategy>(
    game: &GameState<S>,
    owner: CombatantId,
    o: SeenObject,
    tick: GameTickNumber,
    line_of_sight: bool,
    out: &mut Vec<ExpiringBelief>,
)
    requires
        game.well_formed(),
        tick + 12 <= u32::MAX,
        match o.kind {
            GameObjectType::Ball(b) => has_ball(game@, b),
            GameObjectType::Combatant(c) => has_combatant(game@, c),
            _ => true,
        },
    ensures
        final(out)@ == old(out)@ + seen_beliefs(game@, owner, o, tick, line_of_sight),
{
    let ghost start = out@;
    match o.kind {
        GameObjectType::Ball(ball_id) => {
            let b = game.ball(ball_id).unwrap();
            out.push(ExpiringBelief {
                belief: Belief::BallPosition { ball_id, position: o.position, trajectory: o.velocity },
                expires_on_tick: Some(tick + 12),
            });
            match b.held_by {
                Some(c) => {
                    out.push(ExpiringBelief {
                        belief: Belief::HeldBall { ball_id, combatant_id: c },
                        expires_on_tick: Some(tick + 4),
                    });
                },
                None => {},
            }
            match b.state {
                BallState::ThrownAtTarget { .. } => {
                    out.push(ExpiringBelief {
                        belief: Belief::BallIsFlying { ball_id },
                        expires_on_tick: Some(tick + 4),
                    });
                },
                _ => {},
            }
            assert(out@ =~= start + seen_beliefs(game@, owner, o, tick, line_of_sight));
        },
        GameObjectType::Combatant(combatant_id) => {
            let c = game.combatant(combatant_id).unwrap();
            out.push(ExpiringBelief {
                belief: Belief::CombatantPosition { combatant_id, position: o.position },
                expires_on_tick: Some(tick + 12),
            });
            match c.ball() {
                Some(b) => {
                    out.push(ExpiringBelief {
                        belief: Belief::HeldBall { ball_id: b, combatant_id },
                        expires_on_tick: Some(tick + 1),
                    });
                },
                None => {},
            }
            match c.plate() {
                Some(p) => {
                    out.push(ExpiringBelief {
                        belief: Belief::OnPlate { plate_id: p, combatant_id },
                        expires_on_tick: Some(tick + 1),
                    });
                },
                None => {},
            }
            if line_of_sight {
                out.push(ExpiringBelief {
                    belief: Belief::DirectLineOfSightToCombatant {
                        self_combatant_id: owner,
                        other_combatant_id: combatant_id,
                    },
                    expires_on_tick: Some(tick + 1),
                });
            }
            assert(out@ =~= start + seen_beliefs(game@, owner, o, tick, line_of_sight));
        },
        _ => {
            assert(out@ =~= start + seen_beliefs(game@, owner, o, tick, line_of_sight));
        },
    }
}

/// What a combatant learns from its field of view: `rays` holds, for each object within sight,
/// the objects met on the way to it, nearest first (as the physics world finds them).
pub fn field_of_view_beliefs<S: Strategy>(
    game: &GameState<S>,
    owner: CombatantId,
    rays: &Vec<Vec<SeenObject>>,
    current_tick: GameTickNumber,
) -> (r: Vec<ExpiringBelief>)
    requires
        game.well_formed(),
        current_tick + 12 <= u32::MAX,
        sightings_known(game@, rays@.map_values(|r: Vec<SeenObject>| r@)),
    ensures
        r@ == sight_beliefs(game@, owner, rays@.map_values(|r: Vec<SeenObject>| r@), current_tick),
{
    let ghost all = rays@.map_values(|r: Vec<SeenObject>| r@);
    let mut out: Vec<ExpiringBelief> = Vec::new();
    let mut i: usize = 0;
    while i < rays.len()
        invariant
            i <= rays.len(),
            game.well_formed(),
            current_tick + 12 <= u32::MAX,
            all == rays@.map_values(|r: Vec<SeenObject>| r@),
            sightings_known(game@, all),
            out@ == sight_beliefs(game@, owner, all.take(i as int), current_tick),
        decreases rays.len() - i,
    {
        let hits = &rays[i];
        let ghost front = out@;
        let mut line_of_sight = true;
        let mut j: usize = 0;
        assert(hits@.skip(0) =~= hits@);
        assert(all[i as int] == hits@);
        while j < hits.len()
            invariant
                j <= hits.len(),
                game.well_formed(),
                current_tick + 12 <= u32::MAX,
                all[i as int] == hits@,
                i < all.len(),
                sightings_known(game@, all),
                out@ + ray_beliefs(game@, owner, hits@.skip(j as int), current_tick, line_of_sight) == front
                    + ray_beliefs(game@, owner, hits@, current_tick, true),
            decreases hits.len() - j,
        {
            let o = hits[j];
            proof {
                assert(hits@.skip(j as int).drop_first() =~= hits@.skip(j + 1));
                assert(hits@.skip(j as int)[0] == o);
                assert(all[i as int][j as int] == o);
            }
            let ghost before = out@;
            seen(game, owner, o, current_tick, line_of_sight, &mut out);
            let ghost los_before = line_of_sight;
            if o.kind == GameObjectType::Barrier {
                line_of_sight = false;
            }
            proof {
                let rest = ray_beliefs(game@, owner, hits@.skip(j + 1), current_tick, line_of_sight);
                assert(ray_beliefs(game@, owner, hits@.skip(j as int), current_tick, los_before) == seen_beliefs(
                    game@,
                    owner,
                    o,
                    current_tick,
                    los_before,
                ) + rest);
                assert(out@ + rest =~= before + (seen_beliefs(game@, owner, o, current_tick, los_before) + rest));
            }
            j = j + 1;
        }
        proof {
            assert(hits@.skip(hits.len() as int) =~= Seq::<SeenObject>::empty());
            assert(out@ + Seq::<ExpiringBelief>::empty() =~= out@);
            assert(all.take(i + 1).drop_last() =~= all.take(i as int));
        }
        i = i + 1;
    }
    assert(all.take(rays.len() as int) =~= all);
    out
}

/// What the owner learns from the objects within its reach: each ball there is within pick-up
/// range (for twelve ticks), each combatant there can be reached (for one tick).
pub open spec fn proximity_from(owner: CombatantId, objects: Seq<GameObjectType>, tick: GameTickNumber) -> Seq<ExpiringBelief>
    decreases objects.len(),
{
    if objects.len() == 0 {
        seq![]
    } else {
        proximity_from(owner, objects.drop_last(), tick) + match objects.last() {
            GameObjectType::Ball(ball_id) => seq![
                expiring(Belief::InBallPickupRange { ball_id, combatant_id: owner }, tick + 12),
            ],
            GameObjectType::Combatant(c) => seq![
                expiring(Belief::CanReachCombatant { self_combatant_id: owner, target_combatant_id: c }, tick + 1),
            ],
            _ => seq![],
        }
    }
}

/// What a combatant learns from the objects within its reach, as the physics world finds them.
pub fn proximity_beliefs(owner: CombatantId, objects: &Vec<GameObjectType>, current_tick: GameTickNumber) -> (r: Vec<
    ExpiringBelief,
>)
    requires
        current_tick + 12 <= u32::MAX,
    ensures
        r@ == proximity_from(owner, objects@, current_tick),
{
    let mut out: Vec<ExpiringBelief> = Vec::new();
    let mut i: usize = 0;
    while i < objects.len()
        invariant
            i <= objects.len(),
            current_tick + 12 <= u32::MAX,
            out@ == proximity_from(owner, objects@.take(i as int), current_tick),
        decreases objects.len() - i,
    {
        proof {
            assert(objects@.take(i + 1).drop_last() =~= objects@.take(i as int));
        }
        match objects[i] {
            GameObjectType::Ball(ball_id) => {
                out.push(ExpiringBelief {
                    belief: Belief::InBallPickupRange { ball_id, combatant_id: owner },
                    expires_on_tick: Some(current_tick + 12),
                });
            },
            GameObjectType::Combatant(c) => {
                out.push(ExpiringBelief {
                    belief: Belief::CanReachCombatant { self_combatant_id: owner, target_combatant_id: c },
                    expires_on_tick: Some(current_tick + 1),
                });
            },
            _ => {},
        }
        i = i + 1;
        assert(out@ =~= proximity_from(owner, objects@.take(i as int), current_tick));
    }
    assert(objects@.take(objects.len() as int) =~= objects@);
    out
}

/// Whether no belief of a list says the owner sees a combatant directly.
pub open spec fn no_sight_of(beliefs: Seq<ExpiringBelief>, owner: CombatantId, c: CombatantId) -> bool {
    forall|i: int| 0 <= i < beliefs.len() ==> (#[trigger] beliefs[i]).belief != (Belief::DirectLineOfSightToCombatant {
        self_combatant_id: owner,
        other_combatant_id: c,
    })
}

/// Nothing is seen directly through a barrier: when a combatant is met by a ray only behind a
/// barrier, the ray gives no belief that the owner sees it directly.
pub proof fn law_no_sight_through_barrier<S>(
    g: GameView<S>,
    owner: CombatantId,
    hits: Seq<SeenObject>,
    tick: GameTickNumber,
    line_of_sight: bool,
    c: CombatantId,
    barrier: int,
)
    requires
        0 <= barrier < hits.len(),
        hits[barrier].kind == GameObjectType::Barrier,
        forall|j: int| 0 <= j <= barrier ==> (#[trigger] hits[j]).kind != GameObjectType::Combatant(c),
    ensures
        no_sight_of(ray_beliefs(g, owner, hits, tick, line_of_sight), owner, c),
    decreases hits.len(),
{
    let first = seen_beliefs(g, owner, hits[0], tick, line_of_sight);
    let rest_los = line_of_sight && hits[0].kind != GameObjectType::Barrier;
    let rest = ray_beliefs(g, owner, hits.drop_first(), tick, rest_los);
    assert(no_sight_of(first, owner, c)) by {
        assert(hits[0].kind != GameObjectType::Combatant(c));
    }
    if barrier == 0 {
        lemma_blind_after_barrier(g, owner, hits.drop_first(), tick, c);
    } else {
        assert forall|j: int| 0 <= j <= barrier - 1 implies (#[trigger] hits.drop_first()[j]).kind
            != GameObjectType::Combatant(c) by {
            assert(hits.drop_first()[j] == hits[j + 1]);
        }
        law_no_sight_through_barrier(g, owner, hits.drop_first(), tick, rest_los, c, barrier - 1);
    }
    assert(ray_beliefs(g, owner, hits, tick, line_of_sight) == first + rest);
    assert forall|i: int| 0 <= i < (first + rest).len() implies (#[trigger] (first + rest)[i]).belief
        != (Belief::DirectLineOfSightToCombatant { self_combatant_id: owner, other_combatant_id: c }) by {
        if i >= first.len() {
            assert((first + rest)[i] == rest[i - first.len()]);
        }
    }
}

/// Without line of sight, a ray gives no belief that the owner sees anyone directly.
proof fn lemma_blind_after_barrier<S>(
    g: GameView<S>,
    owner: CombatantId,
    hits: Seq<SeenObject>,
    tick: GameTickNumber,
    c: CombatantId,
)
    ensures
        no_sight_of(ray_beliefs(g, owner, hits, tick, false), owner, c),
    decreases hits.len(),
{
    if hits.len() > 0 {
        let first = seen_beliefs(g, owner, hits[0], tick, false);
        let rest = ray_beliefs(g, owner, hits.drop_first(), tick, false);
        lemma_blind_after_barrier(g, owner, hits.drop_first(), tick, c);
        assert(ray_beliefs(g, owner, hits, tick, false) == first + rest);
        assert forall|i: int| 0 <= i < (first + rest).len() implies (#[trigger] (first + rest)[i]).belief
            != (Belief::DirectLineOfSightToCombatant { self_combatant_id: owner, other_combatant_id: c }) by {
            if i >= first.len() {
                assert((first + rest)[i] == rest[i - first.len()]);
            }
        }
    }
}

} // verus!
