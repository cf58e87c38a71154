use vstd::prelude::*;

verus! {

/// Whether the `f32` with these bits is a non-negative number: positive zero up to positive
/// infinity, or negative zero; no negative number and no NaN.
pub open spec fn f32_bits_non_negative(bits: u32) -> bool {
    bits <= 0x7f80_0000 || bits == 0x8000_0000
}

/// Settings of a simulation. Charges are held as the bit patterns of their `f32` values.
pub struct SimulationConfig {
    /// Number of ticks per one second of simulation time.
    ticks_per_second: u32,
    /// Number of periods in a game; zero counts as a single period. Cannot be zero if
    /// `game_conclusion_score` is zero.
    periods_per_game: u32,
    /// Number of seconds per period; must be non-zero if `periods_per_game` is set (non-zero).
    seconds_per_period: u32,
    /// The charge a flying ball gains per tick (may be negative).
    ball_charge_increase_per_tick: u32,
    /// The maximum charge of a ball; must be a non-negative number (not a NaN).
    ball_charge_maximum: u32,
    /// Reaching this score ends the game; zero means only time ends it.
    game_conclusion_score: u16,
}

/// The model of a [`SimulationConfig`].
pub struct SimulationConfigView {
    pub ticks_per_second: u32,
    pub periods_per_game: u32,
    pub seconds_per_period: u32,
    pub ball_charge_increase_per_tick: u32,
    pub ball_charge_maximum: u32,
    pub game_conclusion_score: u16,
}

impl View for SimulationConfig {
    type V = SimulationConfigView;

    closed spec fn view(&self) -> SimulationConfigView {
        SimulationConfigView {
            ticks_per_second: self.ticks_per_second,
            periods_per_game: self.periods_per_game,
            seconds_per_period: self.seconds_per_period,
            ball_charge_increase_per_tick: self.ball_charge_increase_per_tick,
            ball_charge_maximum: self.ball_charge_maximum,
            game_conclusion_score: self.game_conclusion_score,
        }
    }
}

/// Whether a configuration can run a game: at least one tick per second, some way for the game
/// to end, a length for periods whenever periods are set, and a charge maximum that is a
/// non-negative number.
pub open spec fn config_valid(c: SimulationConfigView) -> bool {
    &&& c.ticks_per_second != 0
    &&& !(c.game_conclusion_score == 0 && c.periods_per_game == 0)
    &&& !(c.periods_per_game != 0 && c.seconds_per_period == 0)
    &&& f32_bits_non_negative(c.ball_charge_maximum)
}

/// The number of periods a game has: zero periods count as one.
pub open spec fn periods_counted(c: SimulationConfigView) -> nat {
    if c.periods_per_game == 0 {
        1
    } else {
        c.periods_per_game as nat
    }
}

/// The number of ticks in a whole game: ticks per second, times seconds per period, times the
/// periods counted.
pub open spec fn ticks_in_game(c: SimulationConfigView) -> int {
    c.ticks_per_second * c.seconds_per_period * periods_counted(c)
}

impl Default for SimulationConfig {
    /// Ten ticks per second, two periods of sixty seconds, charge rising by 5.0 a tick up to
    /// 100.0, and the game ending at 150 points.
    fn default() -> (r: Self)
        ensures
            r@ == (SimulationConfigView {
                ticks_per_second: 10,
                periods_per_game: 2,
                seconds_per_period: 60,
                ball_charge_increase_per_tick: 0x40a0_0000,
                ball_charge_maximum: 0x42c8_0000,
                game_conclusion_score: 150,
            }),
    {
        SimulationConfig {
            ticks_per_second: 10,
            seconds_per_period: 60,
            periods_per_game: 2,
            ball_charge_increase_per_tick: 0x40a0_0000,
            ball_charge_maximum: 0x42c8_0000,
            game_conclusion_score: 150,
        }
    }
}

impl SimulationConfig {
    /// A configuration with the given settings.
    pub fn new(
        ticks_per_second: u32,
        periods_per_game: u32,
        seconds_per_period: u32,
        ball_charge_increase_per_tick: u32,
        ball_charge_maximum: u32,
        game_conclusion_score: u16,
    ) -> (r: Self)
        ensures
            r@ == (SimulationConfigView {
                ticks_per_second,
                periods_per_game,
                seconds_per_period,
                ball_charge_increase_per_tick,
                ball_charge_maximum,
                game_conclusion_score,
            }),
    {
        SimulationConfig {
            ticks_per_second,
            periods_per_game,
            seconds_per_period,
            ball_charge_increase_per_tick,
            ball_charge_maximum,
            game_conclusion_score,
        }
    }

    /// Checks that the config is valid.
    pub fn is_valid(&self) -> (r: bool)
        ensures
            r == config_valid(self@),
    {
        if self.ticks_per_second == 0 {
            return false;
        }
        if self.game_conclusion_score == 0 && self.periods_per_game == 0 {
            return false;
        }
        if self.periods_per_game != 0 && self.seconds_per_period == 0 {
            return false;
        }
        if !(self.ball_charge_maximum <= 0x7f80_0000 || self.ball_charge_maximum == 0x8000_0000) {
            return false;
        }
        true
    }

    pub fn ticks_per_second(&self) -> (r: u32)
        ensures
            r == self@.ticks_per_second,
    {
        self.ticks_per_second
    }

    pub fn seconds_per_period(&self) -> (r: u32)
        ensures
            r == self@.seconds_per_period,
    {
        self.seconds_per_period
    }

    pub fn periods_per_game(&self) -> (r: u32)
        ensures
            r == self@.periods_per_game,
    {
        self.periods_per_game
    }

    /// The number of ticks in one period.
    pub fn ticks_per_period(&self) -> (r: u32)
        requires
            self@.ticks_per_second * self@.seconds_per_period <= u32::MAX,
        ensures
            r == self@.ticks_per_second * self@.seconds_per_period,
    {
        self.ticks_per_second * self.seconds_per_period
    }

    /// The number of ticks in a whole game; no periods count as a single period.
    pub fn ticks_per_game(&self) -> (r: u32)
        requires
            ticks_in_game(self@) <= u32::MAX,
        ensures
            r == ticks_in_game(self@),
    {
        let periods: u32 = if self.periods_per_game == 0 { 1 } else { self.periods_per_game };
        proof {
            let a = self@.ticks_per_second * self@.seconds_per_period;
            assert(a <= a * periods) by (nonlinear_arith)
                requires
                    a >= 0,
                    periods >= 1,
            ;
            assert(ticks_in_game(self@) == a * periods);
        }
        self.ticks_per_period() * periods
    }

    /// The bits of the charge a flying ball gains per tick.
    pub fn ball_charge_increase_per_tick(&self) -> (r: u32)
        ensures
            r == self@.ball_charge_increase_per_tick,
    {
        self.ball_charge_increase_per_tick
    }

    /// The bits of the maximum charge of a ball.
    pub fn ball_charge_maximum(&self) -> (r: u32)
        ensures
            r == self@.ball_charge_maximum,
    {
        self.ball_charge_maximum
    }

    pub fn game_conclusion_score(&self) -> (r: u16)
        ensures
            r == self@.game_conclusion_score,
    {
        self.game_conclusion_score
    }
}

} // verus!
