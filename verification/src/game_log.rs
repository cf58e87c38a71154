use vstd::prelude::*;
use crate::belief::{CombatantId, GameTickNumber};
use crate::game_stat::points_for;
use crate::simulation_event::SimulationEvent;

use vstd::arithmetic::div_mod::lemma_add_mod_noop;
use vstd::arithmetic::div_mod::lemma_small_mod;

verus! {

/// One simulated tick: its number, the events committed during it, and whether it is the
/// half-time or the last tick of the game.
pub struct GameTick {
    pub tick_number: GameTickNumber,
    pub simulation_events: Vec<SimulationEvent>,
    pub is_halftime: bool,
    pub is_end_of_game: bool,
}

/// The model of a [`GameTick`].
pub struct GameTickView {
    pub tick_number: GameTickNumber,
    pub simulation_events: Seq<SimulationEvent>,
    pub is_halftime: bool,
    pub is_end_of_game: bool,
}

impl View for GameTick {
    type V = GameTickView;

    open spec fn view(&self) -> GameTickView {
        GameTickView {
            tick_number: self.tick_number,
            simulation_events: self.simulation_events@,
            is_halftime: self.is_halftime,
            is_end_of_game: self.is_end_of_game,
        }
    }
}

impl GameTick {
    pub fn is_end_of_game(&self) -> (r: bool)
        ensures
            r == self.is_end_of_game,
    {
        self.is_end_of_game
    }
}

/// The models of a list of ticks.
pub open spec fn ticks_view(ticks: Seq<GameTick>) -> Seq<GameTickView> {
    ticks.map_values(|t: GameTick| t@)
}

/// The record of a simulated game: its final score, its ticks and its combatants.
pub struct GameLog {
    game_id: u64,
    seed: [u8; 32],
    home_score: u16,
    away_score: u16,
    ticks: Vec<GameTick>,
    combatants: Vec<CombatantId>,
}

/// The model of a [`GameLog`].
pub struct GameLogView {
    pub game_id: u64,
    pub seed: [u8; 32],
    pub home_score: u16,
    pub away_score: u16,
    pub ticks: Seq<GameTickView>,
    pub combatants: Seq<CombatantId>,
}

impl View for GameLog {
    type V = GameLogView;

    closed spec fn view(&self) -> GameLogView {
        GameLogView {
            game_id: self.game_id,
            seed: self.seed,
            home_score: self.home_score,
            away_score: self.away_score,
            ticks: ticks_view(self.ticks@),
            combatants: self.combatants@,
        }
    }
}

impl GameLog {
    /// The log of a finished game.
    pub fn from_ticks(
        ticks: Vec<GameTick>,
        game_id: u64,
        seed: [u8; 32],
        home_score: u16,
        away_score: u16,
        combatants: Vec<CombatantId>,
    ) -> (r: GameLog)
        ensures
            r@ == (GameLogView {
                game_id,
                seed,
                home_score,
                away_score,
                ticks: ticks_view(ticks@),
                combatants: combatants@,
            }),
    {
        GameLog { game_id, seed, home_score, away_score, ticks, combatants }
    }

    pub fn home_score(&self) -> (r: u16)
        ensures
            r == self@.home_score,
    {
        self.home_score
    }

    pub fn away_score(&self) -> (r: u16)
        ensures
            r == self@.away_score,
    {
        self.away_score
    }

    pub fn game_id(&self) -> (r: u64)
        ensures
            r == self@.game_id,
    {
        self.game_id
    }

    pub fn ticks(&self) -> (r: &Vec<GameTick>)
        ensures
            ticks_view(r@) == self@.ticks,
    {
        &self.ticks
    }

    pub fn seed(&self) -> (r: [u8; 32])
        ensures
            r == self@.seed,
    {
        self.seed
    }

    pub fn combatants(&self) -> (r: &Vec<CombatantId>)
        ensures
            r@ == self@.combatants,
    {
        &self.combatants
    }
}

/// The events of the ticks numbered at most `through`, tick by tick.
pub open spec fn events_through(ticks: Seq<GameTickView>, through: GameTickNumber) -> Seq<SimulationEvent>
    decreases ticks.len(),
{
    if ticks.len() == 0 {
        seq![]
    } else {
        events_through(ticks.drop_last(), through) + if ticks.last().tick_number <= through {
            ticks.last().simulation_events
        } else {
            seq![]
        }
    }
}

/// The number of events satisfying a predicate.
pub open spec fn count_events(events: Seq<SimulationEvent>, p: spec_fn(SimulationEvent) -> bool) -> nat
    decreases events.len(),
{
    if events.len() == 0 {
        0
    } else {
        count_events(events.drop_last(), p) + if p(events.last()) {
            1nat
        } else {
            0nat
        }
    }
}

/// The total points a list of events awards a combatant.
pub open spec fn points_total(combatant_id: CombatantId, events: Seq<SimulationEvent>) -> nat
    decreases events.len(),
{
    if events.len() == 0 {
        0
    } else {
        points_total(combatant_id, events.drop_last()) + points_for(combatant_id, events.last())
    }
}

/// Whether an event is a ball thrown at an enemy by the combatant.
pub open spec fn throws_by(combatant_id: CombatantId) -> spec_fn(SimulationEvent) -> bool {
    |e: SimulationEvent| e matches SimulationEvent::BallThrownAtEnemy { thrower_id, .. } && thrower_id == combatant_id
}

/// Whether an event is a hit on an enemy by a ball the combatant threw.
pub open spec fn hits_by(combatant_id: CombatantId) -> spec_fn(SimulationEvent) -> bool {
    |e: SimulationEvent| e matches SimulationEvent::BallCollisionEnemy { thrower_id, .. } && thrower_id == combatant_id
}

/// Whether an event is a shove by the combatant.
pub open spec fn shoves_by(combatant_id: CombatantId) -> spec_fn(SimulationEvent) -> bool {
    |e: SimulationEvent| e matches SimulationEvent::CombatantShoveForceApplied { shover_combatant_id, .. } && shover_combatant_id
        == combatant_id
}

/// A combatant's statistics over a game.
#[derive(Debug, Clone, Copy, PartialEq, Eq, Structural)]
pub struct CombatantStatline {
    pub combatant_id: CombatantId,
    pub points_scored: u8,
    pub balls_thrown: u16,
    pub throws_hit: u16,
    pub combatants_shoved: u16,
}

/// A combatant's statistics over the ticks numbered at most `through`: its points, and the
/// numbers (kept to 16 bits) of its throws at enemies, of its hits and of its shoves.
pub open spec fn statline(combatant_id: CombatantId, events: Seq<SimulationEvent>) -> CombatantStatline {
    CombatantStatline {
        combatant_id,
        points_scored: points_total(combatant_id, events) as u8,
        balls_thrown: (count_events(events, throws_by(combatant_id)) % 65536) as u16,
        throws_hit: (count_events(events, hits_by(combatant_id)) % 65536) as u16,
        combatants_shoved: (count_events(events, shoves_by(combatant_id)) % 65536) as u16,
    }
}

fn add_count(n: u16, yes: bool) -> (r: u16)
    ensures
        r == (n + if yes { 1int } else { 0int }) % 65536,
{
    if yes {
        if n == u16::MAX {
            0
        } else {
            n + 1
        }
    } else {
        n
    }
}

/// The counts of a prefix of a list of events never exceed those of the whole list.
proof fn lemma_points_prefix(combatant_id: CombatantId, events: Seq<SimulationEvent>, k: int)
    requires
        0 <= k <= events.len(),
    ensures
        points_total(combatant_id, events.take(k)) <= points_total(combatant_id, events),
    decreases events.len() - k,
{
    if k < events.len() {
        lemma_points_prefix(combatant_id, events, k + 1);
        assert(events.take(k + 1).drop_last() =~= events.take(k));
    } else {
        assert(events.take(k) =~= events);
    }
}

/// A combatant's statline over no events counts nothing.
pub proof fn law_statline_of_no_events(combatant_id: CombatantId)
    ensures
        statline(combatant_id, Seq::<SimulationEvent>::empty()).balls_thrown == 0,
        statline(combatant_id, Seq::<SimulationEvent>::empty()).throws_hit == 0,
        statline(combatant_id, Seq::<SimulationEvent>::empty()).combatants_shoved == 0,
        statline(combatant_id, Seq::<SimulationEvent>::empty()).points_scored == 0,
{
}

/// One more event moves a combatant's counts (each kept to 16 bits) only when the combatant is
/// its actor: a throw at an enemy by it adds a ball thrown, an enemy hit by a ball it threw
/// adds a hit (being the one hit adds nothing), a shove by it adds a shove.
pub proof fn law_statline_counts_its_own_acts(combatant_id: CombatantId, events: Seq<SimulationEvent>, e: SimulationEvent)
    ensures
        statline(combatant_id, events.push(e)).balls_thrown == (statline(combatant_id, events).balls_thrown + if e matches SimulationEvent::BallThrownAtEnemy { thrower_id, .. } && thrower_id == combatant_id { 1int } else { 0int }) % 65536,
        statline(combatant_id, events.push(e)).throws_hit == (statline(combatant_id, events).throws_hit + if e matches SimulationEvent::BallCollisionEnemy { thrower_id, .. } && thrower_id == combatant_id { 1int } else { 0int }) % 65536,
        statline(combatant_id, events.push(e)).combatants_shoved == (statline(combatant_id, events).combatants_shoved + if e matches SimulationEvent::CombatantShoveForceApplied { shover_combatant_id, .. } && shover_combatant_id == combatant_id { 1int } else { 0int }) % 65536,
{
    let after = events.push(e);
    assert(after.drop_last() =~= events);
    assert(after.last() == e);
    let t = count_events(events, throws_by(combatant_id)) as int;
    let h = count_events(events, hits_by(combatant_id)) as int;
    let s = count_events(events, shoves_by(combatant_id)) as int;
    let bt: int = if throws_by(combatant_id)(e) { 1 } else { 0 };
    let bh: int = if hits_by(combatant_id)(e) { 1 } else { 0 };
    let bs: int = if shoves_by(combatant_id)(e) { 1 } else { 0 };
    lemma_add_mod_noop(t, bt, 65536);
    lemma_add_mod_noop(h, bh, 65536);
    lemma_add_mod_noop(s, bs, 65536);
    lemma_small_mod(bt as nat, 65536);
    lemma_small_mod(bh as nat, 65536);
    lemma_small_mod(bs as nat, 65536);
}

/// A combatant's statistics from a list of events.
pub fn statline_from_events(combatant_id: CombatantId, events: &Vec<SimulationEvent>) -> (r:
    CombatantStatline)
    requires
        points_total(combatant_id, events@) <= u8::MAX,
    ensures
        r == statline(combatant_id, events@),
{
    let mut points: u8 = 0;
    let mut thrown: u16 = 0;
    let mut hit: u16 = 0;
    let mut shoved: u16 = 0;
    let mut i: usize = 0;
    while i < events.len()
        invariant
            i <= events.len(),
            points_total(combatant_id, events@) <= u8::MAX,
            points == points_total(combatant_id, events@.take(i as int)),
            thrown == count_events(events@.take(i as int), throws_by(combatant_id)) % 65536,
            hit == count_events(events@.take(i as int), hits_by(combatant_id)) % 65536,
            shoved == count_events(events@.take(i as int), shoves_by(combatant_id)) % 65536,
        decreases events.len() - i,
    {
        let e = events[i];
        proof {
            assert(events@.take(i + 1).drop_last() =~= events@.take(i as int));
            assert(events@.take(i + 1).last() == e);
            lemma_points_prefix(combatant_id, events@, i + 1);
        }
        match e {
            SimulationEvent::PointsScoredByCombatant { combatant_id: cid, points: p, .. } => {
                if cid == combatant_id {
                    points = points + p;
                }
            },
            _ => {},
        }
        let is_throw = match e {
            SimulationEvent::BallThrownAtEnemy { thrower_id, .. } => thrower_id == combatant_id,
            _ => false,
        };
        let is_hit = match e {
            SimulationEvent::BallCollisionEnemy { thrower_id, .. } => thrower_id == combatant_id,
            _ => false,
        };
        let is_shove = match e {
            SimulationEvent::CombatantShoveForceApplied { shover_combatant_id, .. } => shover_combatant_id
                == combatant_id,
            _ => false,
        };
        thrown = add_count(thrown, is_throw);
        hit = add_count(hit, is_hit);
        shoved = add_count(shoved, is_shove);
        proof {
            assert(is_throw == throws_by(combatant_id)(e));
            assert(is_hit == hits_by(combatant_id)(e));
            assert(is_shove == shoves_by(combatant_id)(e));
        }
        i = i + 1;
    }
    assert(events@.take(events.len() as int) =~= events@);
    CombatantStatline {
        combatant_id,
        points_scored: points,
        balls_thrown: thrown,
        throws_hit: hit,
        combatants_shoved: shoved,
    }
}

/// The events of the ticks numbered at most `through`.
pub fn collect_events(ticks: &Vec<GameTick>, through: GameTickNumber) -> (r: Vec<SimulationEvent>)
    ensures
        r@ == events_through(ticks_view(ticks@), through),
{
    let mut out: Vec<SimulationEvent> = Vec::new();
    let mut i: usize = 0;
    while i < ticks.len()
        invariant
            i <= ticks.len(),
            out@ == events_through(ticks_view(ticks@.take(i as int)), through),
        decreases ticks.len() - i,
    {
        proof {
            assert(ticks_view(ticks@.take(i + 1)).drop_last() =~= ticks_view(ticks@.take(i as int)));
            assert(ticks_view(ticks@.take(i + 1)).last() == ticks@[i as int]@);
        }
        if ticks[i].tick_number <= through {
            let evs = &ticks[i].simulation_events;
            let mut k: usize = 0;
            let ghost front = out@;
            while k < evs.len()
                invariant
                    k <= evs.len(),
                    out@ == front + evs@.take(k as int),
                decreases evs.len() - k,
            {
                out.push(evs[k]);
                k = k + 1;
                assert(out@ =~= front + evs@.take(k as int));
            }
            assert(evs@.take(evs.len() as int) =~= evs@);
        } else {
            assert(out@ =~= out@ + Seq::<SimulationEvent>::empty());
        }
        i = i + 1;
    }
    assert(ticks@.take(ticks.len() as int) =~= ticks@);
    out
}

impl CombatantStatline {
    /// A combatant's statistics over the ticks of a log numbered at most `through_tick` (all of
    /// them when it is `None`).
    pub fn combatant_statline_from_game_log(
        game_log: &GameLog,
        combatant_id: CombatantId,
        through_tick: Option<GameTickNumber>,
    ) -> (r: CombatantStatline)
        requires
            points_total(
                combatant_id,
                events_through(
                    game_log@.ticks,
                    match through_tick {
                        Some(t) => t,
                        None => u32::MAX,
                    },
                ),
            ) <= u8::MAX,
        ensures
            r == statline(
                combatant_id,
                events_through(
                    game_log@.ticks,
                    match through_tick {
                        Some(t) => t,
                        None => u32::MAX,
                    },
                ),
            ),
    {
        let through = match through_tick {
            Some(t) => t,
            None => u32::MAX,
        };
        let events = collect_events(game_log.ticks(), through);
        statline_from_events(combatant_id, &events)
    }
}

/// The statistics of the combatants of a log, in the log's order, over the ticks numbered at
/// most `through`.
pub open spec fn statlines(log: GameLogView, through: GameTickNumber) -> Seq<CombatantStatline> {
    log.combatants.map_values(|c: CombatantId| statline(c, events_through(log.ticks, through)))
}

/// Whether every combatant of a log scored few enough points over those ticks for the count
/// to fit in a byte.
pub open spec fn points_fit(log: GameLogView, through: GameTickNumber) -> bool {
    forall|i: int| 0 <= i < log.combatants.len() ==> points_total(
        #[trigger] log.combatants[i],
        events_through(log.ticks, through),
    ) <= u8::MAX
}

impl CombatantStatline {
    fn statlines_through(game_log: &GameLog, through: GameTickNumber) -> (r: Vec<CombatantStatline>)
        requires
            points_fit(game_log@, through),
        ensures
            r@ == statlines(game_log@, through),
    {
        let events = collect_events(game_log.ticks(), through);
        let ids = game_log.combatants();
        let mut out: Vec<CombatantStatline> = Vec::new();
        let mut i: usize = 0;
        while i < ids.len()
            invariant
                i <= ids.len(),
                ids@ == game_log@.combatants,
                events@ == events_through(game_log@.ticks, through),
                points_fit(game_log@, through),
                out@ == statlines(game_log@, through).take(i as int),
            decreases ids.len() - i,
        {
            assert(points_total(ids@[i as int], events@) <= u8::MAX);
            out.push(statline_from_events(ids[i], &events));
            i = i + 1;
            assert(out@ =~= statlines(game_log@, through).take(i as int));
        }
        assert(statlines(game_log@, through).take(ids.len() as int) =~= statlines(game_log@, through));
        out
    }

    /// Statlines for all combatants in a game log.
    pub fn from_game_log(game_log: &GameLog) -> (r: Vec<CombatantStatline>)
        requires
            points_fit(game_log@, u32::MAX),
        ensures
            r@ == statlines(game_log@, u32::MAX),
    {
        Self::statlines_through(game_log, u32::MAX)
    }

    /// Statlines for all combatants in a game log, counting only the ticks up to and including
    /// `through_tick`.
    pub fn from_game_log_through_tick(game_log: &GameLog, through_tick: GameTickNumber) -> (r: Vec<
        CombatantStatline,
    >)
        requires
            points_fit(game_log@, through_tick),
        ensures
            r@ == statlines(game_log@, through_tick),
    {
        Self::statlines_through(game_log, through_tick)
    }
}

} // verus!
