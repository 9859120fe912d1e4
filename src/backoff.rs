//! Jittered exponential delays between retries.
use std::time::Duration;
use vstd::arithmetic::power2::{lemma2_to64, lemma_pow2_strictly_increases, lemma_pow2_unfold, pow2};
use vstd::prelude::*;

verus! {

/// Delay before the first retry, in milliseconds.
pub const INITIAL_DELAY_MS: u64 = 200;

/// Jitter factors are drawn in parts per million from `[JITTER_MIN_PPM, JITTER_MAX_PPM)`.
pub const JITTER_MIN_PPM: u64 = 900_000;

/// Exclusive upper end of the jitter factor, in parts per million.
pub const JITTER_MAX_PPM: u64 = 1_100_000;

/// One in parts per million.
pub const PPM: u64 = 1_000_000;

/// `x`, or `u64::MAX` where `x` exceeds it.
pub open spec fn saturate(x: int) -> int {
    if x > u64::MAX {
        u64::MAX as int
    } else {
        x
    }
}

/// How many times the delay has doubled by the given attempt: attempts 0
/// and 1 both use the initial delay.
pub open spec fn growth_exponent(attempt: nat) -> nat {
    if attempt == 0 {
        0
    } else {
        (attempt - 1) as nat
    }
}

/// The delay for an attempt before jitter, saturated at `u64::MAX`.
pub open spec fn base_delay(attempt: nat) -> int {
    saturate(INITIAL_DELAY_MS * pow2(growth_exponent(attempt)))
}

/// The delay for an attempt scaled by a jitter factor in parts per million,
/// rounded down and saturated at `u64::MAX`.
pub open spec fn jittered_delay(attempt: nat, jitter_ppm: nat) -> int {
    saturate(base_delay(attempt) * jitter_ppm / PPM as int)
}

/// A jitter factor that the backoff may draw.
pub open spec fn valid_jitter(jitter_ppm: nat) -> bool {
    JITTER_MIN_PPM <= jitter_ppm < JITTER_MAX_PPM
}

/// Jitter keeps every delay within ten percent of the delay before jitter,
/// and never lets it reach zero.
pub proof fn lemma_delay_within_jitter(attempt: nat, jitter_ppm: nat)
    requires
        valid_jitter(jitter_ppm),
    ensures
        base_delay(attempt) * 9 / 10 <= jittered_delay(attempt, jitter_ppm) <= base_delay(attempt)
            * 11 / 10,
        jittered_delay(attempt, jitter_ppm) > 0,
{
    let b = base_delay(attempt);
    assert(INITIAL_DELAY_MS * pow2(growth_exponent(attempt)) >= INITIAL_DELAY_MS) by {
        vstd::arithmetic::power2::lemma_pow2_pos(growth_exponent(attempt));
    }
    assert(200 <= b <= u64::MAX);
    assert(b * 9 / 10 <= b * jitter_ppm / 1_000_000 <= b * 11 / 10) by (nonlinear_arith)
        requires
            900_000 <= jitter_ppm < 1_100_000,
            b >= 0,
    ;
    assert(b * jitter_ppm / 1_000_000 >= 180) by (nonlinear_arith)
        requires
            900_000 <= jitter_ppm,
            b >= 200,
    ;
}

/// The first delays: 180 to 220 ms for attempts 0 and 1, 360 to 440 ms for
/// attempt 2 and 720 to 880 ms for attempt 3.
pub proof fn lemma_first_delays(jitter_ppm: nat)
    requires
        valid_jitter(jitter_ppm),
    ensures
        180 <= jittered_delay(0, jitter_ppm) <= 220,
        180 <= jittered_delay(1, jitter_ppm) <= 220,
        360 <= jittered_delay(2, jitter_ppm) <= 440,
        720 <= jittered_delay(3, jitter_ppm) <= 880,
{
    lemma2_to64();
    lemma_delay_within_jitter(0, jitter_ppm);
    lemma_delay_within_jitter(1, jitter_ppm);
    lemma_delay_within_jitter(2, jitter_ppm);
    lemma_delay_within_jitter(3, jitter_ppm);
    assert(base_delay(0) == 200 && base_delay(1) == 200);
    assert(base_delay(2) == 400);
    assert(base_delay(3) == 800);
}

/// The whole milliseconds of a duration, as `Duration::as_millis` counts them.
pub uninterp spec fn duration_millis(d: Duration) -> u128;

/// Relies on `Duration::from_millis`: the duration of exactly that many milliseconds.
pub assume_specification[ Duration::from_millis ](millis: u64) -> (d: Duration)
    ensures
        duration_millis(d) == millis as u128,
;

/// Relies on `rand::rng` and `Rng::random_range`: a value drawn from `[low, high)`,
/// which must not be empty.
#[verifier::external_body]
fn random_between(low: u64, high: u64) -> (r: u64)
    requires
        low < high,
    ensures
        low <= r < high,
{
    rand::Rng::random_range(&mut rand::rng(), low..high)
}

/// The delay for an attempt before jitter, in milliseconds.
pub fn base_delay_ms(attempt: u64) -> (r: u64)
    ensures
        r == base_delay(attempt as nat),
        r >= INITIAL_DELAY_MS,
{
    let exponent: u64 = if attempt == 0 {
        0
    } else {
        attempt - 1
    };
    let mut delay: u64 = INITIAL_DELAY_MS;
    let mut i: u64 = 0;
    proof {
        lemma2_to64();
    }
    while i < exponent && delay < u64::MAX
        invariant
            i <= exponent,
            exponent == growth_exponent(attempt as nat),
            delay == saturate(INITIAL_DELAY_MS * pow2(i as nat)),
            delay >= INITIAL_DELAY_MS,
        decreases exponent - i,
    {
        proof {
            lemma_pow2_unfold((i + 1) as nat);
        }
        if delay > u64::MAX / 2 {
            delay = u64::MAX;
        } else {
            delay = delay * 2;
        }
        i += 1;
    }
    proof {
        if i < exponent {
            lemma_pow2_strictly_increases(i as nat, exponent as nat);
        }
    }
    delay
}

/// The delay for an attempt under a given jitter factor, in milliseconds.
pub fn backoff_delay_ms(attempt: u64, jitter_ppm: u64) -> (r: u64)
    requires
        valid_jitter(jitter_ppm as nat),
    ensures
        r == jittered_delay(attempt as nat, jitter_ppm as nat),
        r > 0,
{
    let base = base_delay_ms(attempt);
    assert((base as nat) * (jitter_ppm as nat) <= (u64::MAX as nat) * (JITTER_MAX_PPM as nat))
        by (nonlinear_arith)
        requires
            base <= u64::MAX,
            jitter_ppm < JITTER_MAX_PPM,
    ;
    assert((base as nat) * (jitter_ppm as nat) >= (INITIAL_DELAY_MS as nat) * (JITTER_MIN_PPM as nat))
        by (nonlinear_arith)
        requires
            base >= INITIAL_DELAY_MS,
            jitter_ppm >= JITTER_MIN_PPM,
    ;
    let product: u128 = (base as u128) * (jitter_ppm as u128);
    assert(product / (PPM as u128) >= 180) by (nonlinear_arith)
        requires
            product >= 180_000_000,
    ;
    let scaled: u128 = product / (PPM as u128);
    if scaled > u64::MAX as u128 {
        u64::MAX
    } else {
        scaled as u64
    }
}

/// The delay before retry number `attempt`: the initial delay doubled once
/// per attempt after the first, scaled by a random factor in `[0.9, 1.1)`.
pub fn backoff(attempt: u64) -> (r: Duration)
    ensures
        duration_millis(r) > 0,
        exists|j: nat|
            valid_jitter(j) && duration_millis(r) == jittered_delay(attempt as nat, j),
{
    let jitter = random_between(JITTER_MIN_PPM, JITTER_MAX_PPM);
    let millis = backoff_delay_ms(attempt, jitter);
    let r = Duration::from_millis(millis);
    assert(valid_jitter(jitter as nat) && duration_millis(r) == jittered_delay(attempt as nat, jitter as nat));
    r
}

} // verus!
