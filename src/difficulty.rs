use vstd::prelude::*;
use vstd::arithmetic::div_mod::lemma_fundamental_div_mod;

verus! {

/// The shortest step interval, in microseconds: the snake never gets faster.
pub const MIN_COOLDOWN_US: u64 = 50_000;

/// Points for one food before the difficulty multiplier.
pub const BASE_POINTS: u32 = 10;

/// The largest number of points one food can be worth.
pub const MAX_FOOD_POINTS: u32 = 30;

/// A difficulty level, chosen in the menu.
#[derive(Clone, Copy, Debug, PartialEq, Eq, Structural)]
pub enum Difficulty {
    Easy,
    Medium,
    Hard,
    Expert,
}

/// What a difficulty level sets: the step interval a game starts with, and
/// the factor that each food's points are multiplied by.
#[derive(Clone, Copy, Debug, PartialEq, Eq, Structural)]
pub struct DifficultyInfo {
    /// Starting step interval, in microseconds.
    pub step_interval_us: u64,
    /// Score multiplier, in tenths (15 stands for 1.5).
    pub score_multiplier_tenths: u64,
}

/// How the step interval shrinks as the snake eats.
#[derive(Clone, Copy, Debug, PartialEq, Eq, Structural)]
pub enum SpeedPolicy {
    /// `interval = max(initial - score * rate, MIN_COOLDOWN_US)`, with the rate
    /// given in microseconds per point.
    Linear(u64),
    /// `interval = max(interval * 0.95, MIN_COOLDOWN_US)` after each food,
    /// rounded down to whole microseconds.
    Decay,
}

pub open spec fn start_interval(d: Difficulty) -> u64 {
    match d {
        Difficulty::Easy => 200_000,
        Difficulty::Medium => 150_000,
        Difficulty::Hard => 100_000,
        Difficulty::Expert => 70_000,
    }
}

pub open spec fn multiplier_tenths(d: Difficulty) -> u64 {
    match d {
        Difficulty::Easy => 10,
        Difficulty::Medium => 15,
        Difficulty::Hard => 20,
        Difficulty::Expert => 30,
    }
}

/// Points for one food at difficulty `d`: the base value times the multiplier.
pub open spec fn food_points(d: Difficulty) -> int {
    BASE_POINTS * multiplier_tenths(d) / 10
}

/// The level below `d` in the menu's cycle (Easy wraps to Expert).
pub open spec fn level_before(d: Difficulty) -> Difficulty {
    match d {
        Difficulty::Easy => Difficulty::Expert,
        Difficulty::Medium => Difficulty::Easy,
        Difficulty::Hard => Difficulty::Medium,
        Difficulty::Expert => Difficulty::Hard,
    }
}

/// The level above `d` in the menu's cycle (Expert wraps to Easy).
pub open spec fn level_after(d: Difficulty) -> Difficulty {
    match d {
        Difficulty::Easy => Difficulty::Medium,
        Difficulty::Medium => Difficulty::Hard,
        Difficulty::Hard => Difficulty::Expert,
        Difficulty::Expert => Difficulty::Easy,
    }
}

pub open spec fn at_least_floor(v: int) -> int {
    if v < MIN_COOLDOWN_US {
        MIN_COOLDOWN_US as int
    } else {
        v
    }
}

/// The step interval after a food is eaten, given the game's starting
/// interval, the interval before the food, and the score after it.
pub open spec fn cooldown_after(policy: SpeedPolicy, initial: u64, current: u64, score: int) -> int {
    match policy {
        SpeedPolicy::Linear(rate) => at_least_floor(initial - score * rate),
        SpeedPolicy::Decay => at_least_floor(current * 95 / 100),
    }
}

impl Difficulty {
    /// The step interval and score multiplier of this level.
    pub fn get_info(&self) -> (r: DifficultyInfo)
        ensures
            r.step_interval_us == start_interval(*self),
            r.score_multiplier_tenths == multiplier_tenths(*self),
    {
        match self {
            Difficulty::Easy => DifficultyInfo { step_interval_us: 200_000, score_multiplier_tenths: 10 },
            Difficulty::Medium => DifficultyInfo {
                step_interval_us: 150_000,
                score_multiplier_tenths: 15,
            },
            Difficulty::Hard => DifficultyInfo { step_interval_us: 100_000, score_multiplier_tenths: 20 },
            Difficulty::Expert => DifficultyInfo {
                step_interval_us: 70_000,
                score_multiplier_tenths: 30,
            },
        }
    }

    /// Points that one food is worth at this level.
    pub fn food_points(&self) -> (r: u32)
        ensures
            r == food_points(*self),
            0 < r <= MAX_FOOD_POINTS,
    {
        let info = self.get_info();
        (BASE_POINTS as u64 * info.score_multiplier_tenths / 10) as u32
    }

    /// The previous level in the menu's cycle.
    pub fn previous(&self) -> (r: Difficulty)
        ensures
            r == level_before(*self),
    {
        match self {
            Difficulty::Easy => Difficulty::Expert,
            Difficulty::Medium => Difficulty::Easy,
            Difficulty::Hard => Difficulty::Medium,
            Difficulty::Expert => Difficulty::Hard,
        }
    }

    /// The next level in the menu's cycle.
    pub fn next(&self) -> (r: Difficulty)
        ensures
            r == level_after(*self),
    {
        match self {
            Difficulty::Easy => Difficulty::Medium,
            Difficulty::Medium => Difficulty::Hard,
            Difficulty::Hard => Difficulty::Expert,
            Difficulty::Expert => Difficulty::Easy,
        }
    }
}

/// Steps per second for a step interval, in hundredths: `1 / interval` as
/// shown to the player.
pub fn rate_hundredths(interval_us: u64) -> (r: u64)
    requires
        interval_us > 0,
    ensures
        r == 100_000_000int / interval_us as int,
{
    100_000_000 / interval_us
}

/// The step interval after a food is eaten under `policy`. `initial` is the
/// interval the game started with, `current` the one before the food, and
/// `score` the score after it.
pub fn next_cooldown(policy: SpeedPolicy, initial: u64, current: u64, score: u32) -> (r: u64)
    requires
        initial >= MIN_COOLDOWN_US,
    ensures
        r == cooldown_after(policy, initial, current, score as int),
        r >= MIN_COOLDOWN_US,
{
    match policy {
        SpeedPolicy::Linear(rate) => {
            let room = initial - MIN_COOLDOWN_US;
            if rate == 0 {
                initial
            } else if score as u64 > room / rate {
                proof {
                    lemma_fundamental_div_mod(room as int, rate as int);
                    let q = room as int / rate as int;
                    assert(score * rate >= (q + 1) * rate) by (nonlinear_arith)
                        requires
                            score >= q + 1,
                            rate > 0,
                    ;
                    assert((q + 1) * rate == q * rate + rate) by (nonlinear_arith);
                }
                MIN_COOLDOWN_US
            } else {
                proof {
                    lemma_fundamental_div_mod(room as int, rate as int);
                    let q = room as int / rate as int;
                    assert(score * rate <= q * rate) by (nonlinear_arith)
                        requires
                            score <= q,
                            rate > 0,
                    ;
                    assert(q * rate == rate * q) by (nonlinear_arith);
                }
                initial - score as u64 * rate
            }
        },
        SpeedPolicy::Decay => {
            let decayed = current / 100 * 95 + current % 100 * 95 / 100;
            proof {
                lemma_fundamental_div_mod(current as int, 100);
                let q = current as int / 100;
                let m = current as int % 100;
                assert(current * 95 == q * 95 * 100 + m * 95) by (nonlinear_arith)
                    requires
                        current == 100 * q + m,
                ;
                assert((q * 95 * 100 + m * 95) / 100 == q * 95 + m * 95 / 100) by (nonlinear_arith)
                    requires
                        0 <= m < 100,
                        q >= 0,
                ;
            }
            if decayed < MIN_COOLDOWN_US {
                MIN_COOLDOWN_US
            } else {
                decayed
            }
        },
    }
}

/// Whatever the policy and however high the score, the step interval after a
/// food is at least `MIN_COOLDOWN_US`.
pub proof fn lemma_cooldown_after_floor(policy: SpeedPolicy, initial: u64, current: u64, score: int)
    ensures
        cooldown_after(policy, initial, current, score) >= MIN_COOLDOWN_US,
{
}

} // verus!
