//! Mouse-wheel acceleration.

use vstd::prelude::*;

verus! {

/// Which way the wheel turns.
#[derive(Clone, Copy, Debug, PartialEq, Eq, Structural)]
pub enum MouseScrollDirection {
    Up,
    Down,
}

/// How many rows one turn of the wheel scrolls without acceleration.
pub const BASE_SCROLL_ROWS: usize = 3;

/// After this many milliseconds half of the acceleration is left.
pub const SCROLL_ACCELERATION_HALF_LIFE_MS: usize = 150;

/// After more than this many nanoseconds nothing of the acceleration is left.
pub const SCROLL_ACCELERATION_RESET_AFTER_NANOS: u64 = 250_000_000;

/// How much one turn of the wheel adds to the multiplier, in thousandths.
pub const SCROLL_ACCELERATION_BOOST_PER_MILLE: usize = 400;

/// The largest multiplier, in thousandths.
pub const MAX_SCROLL_MULTIPLIER_PER_MILLE: usize = 5_000;

/// The multiplier of one, in thousandths.
pub const PER_MILLE: usize = 1_000;

const NANOS_PER_MILLI: u64 = 1_000_000;

/// A scroll multiplier that grows while the wheel keeps turning one way, and decays with time.
/// Times are nanoseconds since some fixed moment.
#[derive(Debug)]
pub struct ScrollAcceleration {
    direction: Option<MouseScrollDirection>,
    last_at: Option<u64>,
    multiplier_per_mille: usize,
}

/// The part of a quantity that is left after some milliseconds.
pub open spec fn decayed(amount: int, elapsed_ms: int) -> int {
    amount * SCROLL_ACCELERATION_HALF_LIFE_MS / (SCROLL_ACCELERATION_HALF_LIFE_MS + elapsed_ms)
}

/// The multiplier after one more turn of the wheel the same way.
pub open spec fn accelerated(multiplier: int, elapsed_ms: int) -> int {
    let next = PER_MILLE + decayed(multiplier - PER_MILLE, elapsed_ms) + decayed(
        SCROLL_ACCELERATION_BOOST_PER_MILLE as int,
        elapsed_ms,
    );
    if next <= MAX_SCROLL_MULTIPLIER_PER_MILLE {
        next
    } else {
        MAX_SCROLL_MULTIPLIER_PER_MILLE as int
    }
}

/// Whether a turn of the wheel goes on from the last one.
pub open spec fn goes_on(
    last_direction: Option<MouseScrollDirection>,
    last_at: Option<u64>,
    direction: MouseScrollDirection,
    now: u64,
) -> bool {
    &&& last_direction == Some(direction)
    &&& last_at matches Some(last) && last <= now && now - last
        <= SCROLL_ACCELERATION_RESET_AFTER_NANOS
}

/// The number of rows for a multiplier, rounded to the nearest.
pub open spec fn rows_for(multiplier: int) -> int {
    (BASE_SCROLL_ROWS * multiplier + PER_MILLE / 2) / (PER_MILLE as int)
}

impl Default for ScrollAcceleration {
    fn default() -> (r: Self)
        ensures
            r.last_direction() is None,
            r.last_time() is None,
            r.multiplier() == PER_MILLE,
    {
        ScrollAcceleration { direction: None, last_at: None, multiplier_per_mille: PER_MILLE }
    }
}

impl ScrollAcceleration {
    #[verifier::type_invariant]
    spec fn well_formed(self) -> bool {
        PER_MILLE <= self.multiplier_per_mille <= MAX_SCROLL_MULTIPLIER_PER_MILLE
    }

    /// The way of the last turn.
    pub closed spec fn last_direction(self) -> Option<MouseScrollDirection> {
        self.direction
    }

    /// The time of the last turn.
    pub closed spec fn last_time(self) -> Option<u64> {
        self.last_at
    }

    /// The multiplier, in thousandths.
    pub closed spec fn multiplier(self) -> int {
        self.multiplier_per_mille as int
    }

    /// Whether no turn is remembered.
    pub open spec fn at_rest(self) -> bool {
        &&& self.last_direction() is None
        &&& self.last_time() is None
        &&& self.multiplier() == PER_MILLE
    }

    /// The multiplier, in thousandths.
    pub fn multiplier_per_mille(&self) -> (r: usize)
        ensures
            r == self.multiplier(),
            PER_MILLE <= r <= MAX_SCROLL_MULTIPLIER_PER_MILLE,
    {
        proof {
            use_type_invariant(self);
        }
        self.multiplier_per_mille
    }

    /// How many rows a turn of the wheel scrolls.
    pub fn rows_at(&mut self, direction: MouseScrollDirection, now: u64) -> (rows: usize)
        ensures
            final(self).last_direction() == Some(direction),
            final(self).last_time() == Some(now),
            final(self).multiplier() == (if goes_on(
                old(self).last_direction(),
                old(self).last_time(),
                direction,
                now,
            ) {
                accelerated(
                    old(self).multiplier(),
                    (now - old(self).last_time()->0) / 1_000_000,
                )
            } else {
                PER_MILLE as int
            }),
            rows == rows_for(final(self).multiplier()),
            BASE_SCROLL_ROWS <= rows <= 15,
    {
        proof {
            use_type_invariant(&*self);
        }
        let mut multiplier: usize = PER_MILLE;
        if let Some(last) = self.last_at {
            if self.direction == Some(direction) && last <= now && now - last
                <= SCROLL_ACCELERATION_RESET_AFTER_NANOS {
                let elapsed_ms: usize = ((now - last) / NANOS_PER_MILLI) as usize;
                let denominator: usize = SCROLL_ACCELERATION_HALF_LIFE_MS + elapsed_ms;
                let excess: usize = self.multiplier_per_mille - PER_MILLE;
                let retained: usize = excess * SCROLL_ACCELERATION_HALF_LIFE_MS / denominator;
                let boost: usize = SCROLL_ACCELERATION_BOOST_PER_MILLE
                    * SCROLL_ACCELERATION_HALF_LIFE_MS / denominator;
                assert(retained <= excess * SCROLL_ACCELERATION_HALF_LIFE_MS) by (nonlinear_arith)
                    requires
                        denominator >= 1,
                        retained == (excess * SCROLL_ACCELERATION_HALF_LIFE_MS) as int
                            / denominator as int,
                ;
                assert(boost <= 60_000) by (nonlinear_arith)
                    requires
                        denominator >= 1,
                        boost == 60_000int / denominator as int,
                ;
                let next: usize = PER_MILLE + retained + boost;
                multiplier = if next <= MAX_SCROLL_MULTIPLIER_PER_MILLE {
                    next
                } else {
                    MAX_SCROLL_MULTIPLIER_PER_MILLE
                };
            }
        }
        self.multiplier_per_mille = multiplier;
        self.direction = Some(direction);
        self.last_at = Some(now);
        (BASE_SCROLL_ROWS * multiplier + PER_MILLE / 2) / PER_MILLE
    }

    /// Forgets the acceleration.
    pub fn reset(&mut self)
        ensures
            final(self).last_direction() is None,
            final(self).last_time() is None,
            final(self).multiplier() == PER_MILLE,
    {
        self.multiplier_per_mille = PER_MILLE;
        self.direction = None;
        self.last_at = None;
    }
}

/// A pause after which nothing of the acceleration is left, or a turn the other way, scrolls as
/// slowly as the first turn.
pub proof fn pause_or_reversal_resets(
    last_direction: Option<MouseScrollDirection>,
    last_at: u64,
    direction: MouseScrollDirection,
    now: u64,
)
    requires
        last_direction != Some(direction) || now - last_at > SCROLL_ACCELERATION_RESET_AFTER_NANOS,
    ensures
        !goes_on(last_direction, Some(last_at), direction, now),
        rows_for(PER_MILLE as int) == BASE_SCROLL_ROWS,
{
}

/// After the half-life, half of the acceleration is left.
pub proof fn half_life_halves(amount: int)
    requires
        0 <= amount,
    ensures
        decayed(amount, SCROLL_ACCELERATION_HALF_LIFE_MS as int) == amount / 2,
{
    assert((amount * 150) / 300 == amount / 2) by (nonlinear_arith);
}

/// A longer pause between two turns never makes the second one scroll further.
pub proof fn longer_pause_is_no_faster(multiplier: int, shorter_ms: int, longer_ms: int)
    requires
        PER_MILLE <= multiplier <= MAX_SCROLL_MULTIPLIER_PER_MILLE,
        0 <= shorter_ms <= longer_ms,
    ensures
        accelerated(multiplier, longer_ms) <= accelerated(multiplier, shorter_ms),
        rows_for(accelerated(multiplier, longer_ms)) <= rows_for(
            accelerated(multiplier, shorter_ms),
        ),
{
    lemma_decayed_antitone(multiplier - PER_MILLE, shorter_ms, longer_ms);
    lemma_decayed_antitone(SCROLL_ACCELERATION_BOOST_PER_MILLE as int, shorter_ms, longer_ms);
}

proof fn lemma_decayed_antitone(amount: int, shorter_ms: int, longer_ms: int)
    requires
        0 <= amount,
        0 <= shorter_ms <= longer_ms,
    ensures
        0 <= decayed(amount, longer_ms) <= decayed(amount, shorter_ms),
{
    let n = amount * SCROLL_ACCELERATION_HALF_LIFE_MS;
    assert(0 <= n) by (nonlinear_arith)
        requires
            0 <= amount,
            n == amount * 150,
    ;
    assert(0 <= n / (150 + longer_ms) <= n / (150 + shorter_ms)) by (nonlinear_arith)
        requires
            0 <= n,
            0 <= shorter_ms <= longer_ms,
    ;
}

/// A turn at once after another one adds the whole boost, up to the largest multiplier. At any
/// later time the multiplier stays between one and the largest one, and a turn never slows the
/// wheel below the first turn.
pub proof fn turns_in_a_row_speed_up(multiplier: int, elapsed_ms: int)
    requires
        PER_MILLE <= multiplier <= MAX_SCROLL_MULTIPLIER_PER_MILLE,
        0 <= elapsed_ms,
    ensures
        accelerated(multiplier, 0) == (if multiplier + 400 <= 5_000 {
            multiplier + 400
        } else {
            5_000
        }),
        PER_MILLE <= accelerated(multiplier, elapsed_ms) <= accelerated(multiplier, 0),
        rows_for(1_000) == 3,
        rows_for(5_000) == 15,
        rows_for(multiplier) >= 3,
{
    longer_pause_is_no_faster(multiplier, 0, elapsed_ms);
    let excess = multiplier - 1_000;
    assert((excess * 150) / 150 == excess) by (nonlinear_arith);
    lemma_decayed_antitone(excess, 0, elapsed_ms);
    lemma_decayed_antitone(400, 0, elapsed_ms);
}

/// Turns of the wheel go on from each other where they go the same way and follow within the time
/// after which nothing of the acceleration is left.
pub proof fn quick_turns_go_on(
    last_direction: Option<MouseScrollDirection>,
    last_at: u64,
    direction: MouseScrollDirection,
    now: u64,
)
    requires
        last_at <= now,
    ensures
        goes_on(last_direction, Some(last_at), direction, now) <==> last_direction == Some(
            direction,
        ) && now - last_at <= 250_000_000,
        !goes_on(last_direction, None, direction, now),
{
}

} // verus!
