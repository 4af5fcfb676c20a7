//! Token-bucket admission.

use vstd::arithmetic::div_mod::{lemma_div_is_ordered, lemma_fundamental_div_mod};
use vstd::prelude::*;

use crate::common::{LockedTokenState, Policy, TokenState};

verus! {

pub const NANOS_PER_SEC: u64 = 1_000_000_000;

/// The smaller of two numbers.
pub open spec fn min_int(a: int, b: int) -> int {
    if a <= b {
        a
    } else {
        b
    }
}

/// Nanoseconds it takes to earn one token at `rate` tokens per second; no less
/// than one.
pub open spec fn nanos_per_token(rate: u64) -> int {
    NANOS_PER_SEC as int / min_int(rate as int, NANOS_PER_SEC as int)
}

/// Tokens earned between the last refill and `now`.
pub open spec fn earned_tokens(now: u64, policy: Policy, state: TokenState) -> int {
    if now <= state.last_refill_ns {
        0
    } else {
        (now - state.last_refill_ns) / nanos_per_token(policy.rate_tokens_per_sec)
    }
}

/// The bucket after the tokens earned until `now` were added, up to the burst.
/// Time that earned no whole token is not used up.
pub open spec fn refilled(now: u64, policy: Policy, state: TokenState) -> TokenState {
    if policy.rate_tokens_per_sec == 0 {
        TokenState { last_refill_ns: now, ..state }
    } else {
        let earned = earned_tokens(now, policy, state);
        if earned == 0 {
            state
        } else {
            TokenState {
                tokens: min_int(state.tokens + earned, policy.burst_tokens as int) as u64,
                last_refill_ns: now,
            }
        }
    }
}

/// The bucket clipped to the burst and refilled, as it is when one packet asks
/// for a token at `now`.
pub open spec fn offered(now: u64, policy: Policy, state: TokenState) -> TokenState {
    refilled(
        now,
        policy,
        TokenState {
            tokens: min_int(state.tokens as int, policy.burst_tokens as int) as u64,
            ..state
        },
    )
}

/// Whether a packet at `now` is admitted, and the bucket after it. A disabled
/// policy admits everything, a burst of zero nothing.
pub open spec fn bucket_step(now: u64, policy: Policy, state: TokenState) -> (bool, TokenState) {
    if policy.enabled == 0 {
        (true, TokenState { last_refill_ns: now, ..state })
    } else if policy.burst_tokens == 0 {
        (false, TokenState { tokens: 0, last_refill_ns: now })
    } else {
        let bucket = offered(now, policy, state);
        if bucket.tokens == 0 {
            (false, bucket)
        } else {
            (true, TokenState { tokens: (bucket.tokens - 1) as u64, ..bucket })
        }
    }
}

/// Earning a token takes between one nanosecond and one second.
pub proof fn nanos_per_token_is_positive(rate: u64)
    requires
        rate > 0,
    ensures
        1 <= nanos_per_token(rate) <= NANOS_PER_SEC,
{
    let effective = min_int(rate as int, NANOS_PER_SEC as int);
    assert(1 <= NANOS_PER_SEC as int / effective <= NANOS_PER_SEC as int) by (nonlinear_arith)
        requires
            1 <= effective <= NANOS_PER_SEC as int,
    ;
}

/// The time that one token takes is the longest whole number of nanoseconds at
/// which the tokens of one second fit into it; above one token per nanosecond the
/// rate is cut to that.
pub proof fn time_per_token_follows_the_rate(rate: u64)
    requires
        rate > 0,
    ensures
        rate <= 1_000_000_000 ==> rate * nanos_per_token(rate) <= 1_000_000_000 < rate * (
        nanos_per_token(rate) + 1),
        rate >= 1_000_000_000 ==> nanos_per_token(rate) == 1,
{
    let effective = min_int(rate as int, NANOS_PER_SEC as int);
    lemma_fundamental_div_mod(NANOS_PER_SEC as int, effective);
    let d = nanos_per_token(rate);
    assert(effective * d <= 1_000_000_000 < effective * (d + 1)) by (nonlinear_arith)
        requires
            effective > 0,
            1_000_000_000 == effective * d + 1_000_000_000int % effective,
            0 <= 1_000_000_000int % effective < effective,
    ;
    if rate >= 1_000_000_000 {
        assert(d == 1) by (nonlinear_arith)
            requires
                1_000_000_000 * d <= 1_000_000_000 < 1_000_000_000 * (d + 1),
        ;
    }
}

/// There is one time per token: the longest at which the tokens of one second fit
/// into it.
proof fn time_per_token_is(rate: u64, d: int)
    requires
        rate > 0,
        rate <= 1_000_000_000 ==> rate * d <= 1_000_000_000 < rate * (d + 1),
        rate > 1_000_000_000 ==> d == 1,
    ensures
        nanos_per_token(rate) == d,
{
    time_per_token_follows_the_rate(rate);
    let own = nanos_per_token(rate);
    if rate <= 1_000_000_000 {
        assert(own == d) by (nonlinear_arith)
            requires
                rate > 0,
                rate * d <= 1_000_000_000 < rate * (d + 1),
                rate * own <= 1_000_000_000 < rate * (own + 1),
        ;
    }
}

/// There is one number of whole periods of `d` in a time.
proof fn whole_periods(time: int, d: int, count: int)
    requires
        d > 0,
        time >= 0,
        count * d <= time < (count + 1) * d,
    ensures
        time / d == count,
{
    lemma_fundamental_div_mod(time, d);
    assert(time / d == count) by (nonlinear_arith)
        requires
            d > 0,
            count * d <= time < (count + 1) * d,
            time == d * (time / d) + time % d,
            0 <= time % d < d,
    ;
}

/// A refill adds the whole tokens of the time that passed: `d` nanoseconds a token,
/// of which one second holds `rate`. It stops at the burst, and time that earned no
/// whole token still counts for the next refill.
pub proof fn refill_earns_at_the_rate(
    now: u64,
    policy: Policy,
    state: TokenState,
    d: int,
    earned: int,
)
    requires
        policy.rate_tokens_per_sec > 0,
        policy.rate_tokens_per_sec <= 1_000_000_000 ==> policy.rate_tokens_per_sec * d
            <= 1_000_000_000 < policy.rate_tokens_per_sec * (d + 1),
        policy.rate_tokens_per_sec > 1_000_000_000 ==> d == 1,
        state.last_refill_ns <= now,
        earned * d <= now - state.last_refill_ns < (earned + 1) * d,
    ensures
        earned == 0 ==> refilled(now, policy, state) == state,
        earned > 0 ==> refilled(now, policy, state).last_refill_ns == now,
        earned > 0 && state.tokens + earned <= policy.burst_tokens ==> refilled(
            now,
            policy,
            state,
        ).tokens == state.tokens + earned,
        earned > 0 && state.tokens + earned > policy.burst_tokens ==> refilled(
            now,
            policy,
            state,
        ).tokens == policy.burst_tokens,
{
    nanos_per_token_is_positive(policy.rate_tokens_per_sec);
    time_per_token_is(policy.rate_tokens_per_sec, d);
    whole_periods(now - state.last_refill_ns, d, earned);
    if now == state.last_refill_ns {
        assert(earned == 0) by (nonlinear_arith)
            requires
                d > 0,
                earned * d <= 0 < (earned + 1) * d,
        ;
    }
}

/// A refill earns nothing without a rate, and nothing while the clock is behind the
/// last refill.
pub proof fn refill_earns_nothing_without_time_or_rate(
    now: u64,
    policy: Policy,
    state: TokenState,
)
    ensures
        policy.rate_tokens_per_sec == 0 ==> refilled(now, policy, state).tokens == state.tokens
            && refilled(now, policy, state).last_refill_ns == now,
        policy.rate_tokens_per_sec > 0 && now <= state.last_refill_ns ==> refilled(
            now,
            policy,
            state,
        ) == state,
{
}

/// One second earns the rate: a bucket that rested for a second gained `rate` tokens
/// at least, as far as its burst takes them.
pub proof fn one_second_earns_the_rate(now: u64, policy: Policy, state: TokenState)
    requires
        policy.rate_tokens_per_sec <= 1_000_000_000,
        now - state.last_refill_ns >= 1_000_000_000,
    ensures
        state.tokens + policy.rate_tokens_per_sec <= policy.burst_tokens ==> refilled(
            now,
            policy,
            state,
        ).tokens >= state.tokens + policy.rate_tokens_per_sec,
        policy.rate_tokens_per_sec > 0 && state.tokens + policy.rate_tokens_per_sec
            >= policy.burst_tokens ==> refilled(now, policy, state).tokens == policy.burst_tokens,
        policy.enabled != 0 && 0 < policy.rate_tokens_per_sec <= policy.burst_tokens
            ==> bucket_step(now, policy, state).0 && bucket_step(now, policy, state).1.tokens
            >= policy.rate_tokens_per_sec - 1,
{
    let rate = policy.rate_tokens_per_sec;
    if rate > 0 {
        let d = nanos_per_token(rate);
        let elapsed = now - state.last_refill_ns;
        nanos_per_token_is_positive(rate);
        time_per_token_follows_the_rate(rate);
        lemma_fundamental_div_mod(elapsed, d);
        assert(elapsed / d >= rate) by (nonlinear_arith)
            requires
                d > 0,
                elapsed >= 1_000_000_000,
                rate * d <= 1_000_000_000,
                elapsed == d * (elapsed / d) + elapsed % d,
                0 <= elapsed % d < d,
        ;
    }
}

/// What a packet meets under an enabled policy with a burst: the bucket holds what it
/// held, clipped to the burst, and the `earned` tokens of the time since the last
/// refill, up to the burst again. The packet passes exactly if that is a token at
/// least, and a packet that passes takes one.
pub proof fn a_packet_takes_one_token(
    now: u64,
    policy: Policy,
    state: TokenState,
    d: int,
    earned: int,
    held: int,
)
    requires
        policy.enabled != 0,
        policy.burst_tokens > 0,
        policy.rate_tokens_per_sec > 0,
        policy.rate_tokens_per_sec <= 1_000_000_000 ==> policy.rate_tokens_per_sec * d
            <= 1_000_000_000 < policy.rate_tokens_per_sec * (d + 1),
        policy.rate_tokens_per_sec > 1_000_000_000 ==> d == 1,
        state.last_refill_ns <= now,
        earned * d <= now - state.last_refill_ns < (earned + 1) * d,
        state.tokens <= policy.burst_tokens ==> held == state.tokens,
        state.tokens > policy.burst_tokens ==> held == policy.burst_tokens,
    ensures
        bucket_step(now, policy, state).0 == (held + earned > 0),
        held + earned == 0 ==> bucket_step(now, policy, state).1.tokens == 0,
        0 < held + earned <= policy.burst_tokens ==> bucket_step(now, policy, state).1.tokens
            == held + earned - 1,
        held + earned > policy.burst_tokens ==> bucket_step(now, policy, state).1.tokens
            == policy.burst_tokens - 1,
        earned == 0 ==> bucket_step(now, policy, state).1.last_refill_ns == state.last_refill_ns,
        earned > 0 ==> bucket_step(now, policy, state).1.last_refill_ns == now,
{
    let clipped = TokenState { tokens: held as u64, ..state };
    refill_earns_at_the_rate(now, policy, clipped, d, earned);
    nanos_per_token_is_positive(policy.rate_tokens_per_sec);
    time_per_token_is(policy.rate_tokens_per_sec, d);
    assert(earned >= 0) by (nonlinear_arith)
        requires
            d > 0,
            0 < (earned + 1) * d,
    ;
}

/// What a packet meets where no token is earned, for want of a rate or of time: it
/// passes exactly if the bucket holds a token, and takes it.
pub proof fn a_packet_lives_on_what_is_held(now: u64, policy: Policy, state: TokenState)
    requires
        policy.enabled != 0,
        policy.burst_tokens > 0,
        policy.rate_tokens_per_sec == 0 || now <= state.last_refill_ns,
    ensures
        bucket_step(now, policy, state).0 == (state.tokens > 0),
        0 < state.tokens <= policy.burst_tokens ==> bucket_step(now, policy, state).1.tokens
            == state.tokens - 1,
        state.tokens > policy.burst_tokens ==> bucket_step(now, policy, state).1.tokens
            == policy.burst_tokens - 1,
        state.tokens == 0 ==> bucket_step(now, policy, state).1.tokens == 0,
        bucket_step(now, policy, state).1.last_refill_ns == (if policy.rate_tokens_per_sec == 0 {
            now
        } else {
            state.last_refill_ns
        }),
{
}

/// Adds the tokens earned since the last refill.
pub fn refill_tokens(now_ns: u64, policy: &Policy, state: &mut TokenState)
    ensures
        *final(state) == refilled(now_ns, *policy, *old(state)),
{
    if policy.rate_tokens_per_sec == 0 {
        state.last_refill_ns = now_ns;
        return;
    }
    let effective_rate: u64 = if policy.rate_tokens_per_sec < NANOS_PER_SEC {
        policy.rate_tokens_per_sec
    } else {
        NANOS_PER_SEC
    };
    let nanos_per_token: u64 = NANOS_PER_SEC / effective_rate;
    proof {
        nanos_per_token_is_positive(policy.rate_tokens_per_sec);
    }
    let elapsed_ns: u64 = now_ns.saturating_sub(state.last_refill_ns);
    let earned: u64 = elapsed_ns / nanos_per_token;
    if earned == 0 {
        return;
    }
    let sum: u64 = state.tokens.saturating_add(earned);
    state.tokens = if sum < policy.burst_tokens {
        sum
    } else {
        policy.burst_tokens
    };
    state.last_refill_ns = now_ns;
}

/// Decides one packet against the bucket and charges it for an admission.
pub fn apply_token_bucket(now_ns: u64, policy: &Policy, state: &mut TokenState) -> (passed: bool)
    ensures
        (passed, *final(state)) == bucket_step(now_ns, *policy, *old(state)),
{
    if policy.enabled == 0 {
        state.last_refill_ns = now_ns;
        return true;
    }
    if policy.burst_tokens == 0 {
        state.last_refill_ns = now_ns;
        state.tokens = 0;
        return false;
    }
    if state.tokens > policy.burst_tokens {
        state.tokens = policy.burst_tokens;
    }
    refill_tokens(now_ns, policy, state);
    if state.tokens == 0 {
        return false;
    }
    state.tokens = state.tokens - 1;
    true
}

/// A full bucket.
pub open spec fn full_bucket(policy: Policy, now: u64) -> TokenState {
    TokenState { tokens: policy.burst_tokens, last_refill_ns: now }
}

/// The bucket of a flow that is seen for the first time.
pub fn initial_state(policy: &Policy, now_ns: u64) -> (state: TokenState)
    ensures
        state == full_bucket(*policy, now_ns),
        state.tokens == policy.burst_tokens,
        state.last_refill_ns == now_ns,
{
    TokenState { tokens: policy.burst_tokens, last_refill_ns: now_ns }
}

/// The bucket of a flow that is seen for the first time, with a released lock.
pub fn initial_locked_state(policy: &Policy, now_ns: u64) -> (locked: LockedTokenState)
    ensures
        locked.state == full_bucket(*policy, now_ns),
        locked.state.tokens == policy.burst_tokens,
        locked.state.last_refill_ns == now_ns,
        locked.lock.val == 0,
        locked._pad == 0,
{
    LockedTokenState::from_state(initial_state(policy, now_ns))
}

/// The bucket after packets at `times`, in that order.
pub open spec fn bucket_after(policy: Policy, state: TokenState, times: Seq<u64>) -> TokenState
    decreases times.len(),
{
    if times.len() == 0 {
        state
    } else {
        bucket_step(times.last(), policy, bucket_after(policy, state, times.drop_last())).1
    }
}

/// How many of the packets at `times` are admitted.
pub open spec fn admitted(policy: Policy, state: TokenState, times: Seq<u64>) -> nat
    decreases times.len(),
{
    if times.len() == 0 {
        0
    } else {
        let before = bucket_after(policy, state, times.drop_last());
        admitted(policy, state, times.drop_last()) + if bucket_step(
            times.last(),
            policy,
            before,
        ).0 {
            1nat
        } else {
            0nat
        }
    }
}

/// While its policy is enabled, a bucket never holds more than the burst after
/// a packet was decided.
pub proof fn tokens_never_exceed_burst(now: u64, policy: Policy, state: TokenState)
    requires
        policy.enabled != 0,
    ensures
        bucket_step(now, policy, state).1.tokens <= policy.burst_tokens,
{
    if policy.rate_tokens_per_sec > 0 && state.last_refill_ns < now {
        nanos_per_token_is_positive(policy.rate_tokens_per_sec);
        lemma_div_is_ordered(
            0,
            now - state.last_refill_ns,
            nanos_per_token(policy.rate_tokens_per_sec),
        );
    }
}

/// A bucket recovers: an enabled policy with a rate and a burst admits a packet
/// that comes at least as long after the last refill as one token takes, and a
/// bucket that rested for as long as its burst takes is full again when the packet
/// comes.
pub proof fn a_rested_bucket_admits(now: u64, policy: Policy, state: TokenState)
    requires
        policy.enabled != 0,
        policy.burst_tokens > 0,
        policy.rate_tokens_per_sec > 0,
        now - state.last_refill_ns >= nanos_per_token(policy.rate_tokens_per_sec),
    ensures
        bucket_step(now, policy, state).0,
        now - state.last_refill_ns >= policy.burst_tokens * nanos_per_token(
            policy.rate_tokens_per_sec,
        ) ==> bucket_step(now, policy, state).1 == (TokenState {
            tokens: (policy.burst_tokens - 1) as u64,
            last_refill_ns: now,
        }),
{
    let d = nanos_per_token(policy.rate_tokens_per_sec);
    let elapsed = now - state.last_refill_ns;
    nanos_per_token_is_positive(policy.rate_tokens_per_sec);
    lemma_fundamental_div_mod(elapsed, d);
    assert(elapsed / d >= 1) by (nonlinear_arith)
        requires
            d > 0,
            elapsed >= d,
            elapsed == d * (elapsed / d) + elapsed % d,
            0 <= elapsed % d < d,
    ;
    if elapsed >= policy.burst_tokens * d {
        assert(elapsed / d >= policy.burst_tokens) by (nonlinear_arith)
            requires
                d > 0,
                elapsed >= policy.burst_tokens * d,
                elapsed == d * (elapsed / d) + elapsed % d,
                0 <= elapsed % d < d,
        ;
    }
}

/// A disabled policy admits every packet and spends no token.
pub proof fn disabled_policy_admits_all(now: u64, policy: Policy, state: TokenState)
    requires
        policy.enabled == 0,
    ensures
        bucket_step(now, policy, state).0,
        bucket_step(now, policy, state).1.tokens == state.tokens,
        bucket_step(now, policy, state).1.last_refill_ns == now,
{
}

/// An enabled policy with a burst of zero drops the packet and empties the bucket.
pub proof fn zero_burst_empties_the_bucket(now: u64, policy: Policy, state: TokenState)
    requires
        policy.enabled != 0,
        policy.burst_tokens == 0,
    ensures
        !bucket_step(now, policy, state).0,
        bucket_step(now, policy, state).1.tokens == 0,
        bucket_step(now, policy, state).1.last_refill_ns == now,
{
}

/// Tokens that a bucket can still hand out until `end`.
spec fn credit(policy: Policy, state: TokenState, end: int) -> int {
    min_int(state.tokens as int, policy.burst_tokens as int) + if policy.rate_tokens_per_sec == 0 {
        0
    } else {
        (end - state.last_refill_ns) / nanos_per_token(policy.rate_tokens_per_sec)
    }
}

proof fn div_splits(a: int, b: int, d: int)
    requires
        a >= 0,
        b >= 0,
        d > 0,
    ensures
        a / d + b / d <= (a + b) / d,
{
    lemma_fundamental_div_mod(a, d);
    lemma_fundamental_div_mod(b, d);
    lemma_fundamental_div_mod(a + b, d);
    assert(a / d + b / d <= (a + b) / d) by (nonlinear_arith)
        requires
            d > 0,
            a == d * (a / d) + a % d,
            b == d * (b / d) + b % d,
            a + b == d * ((a + b) / d) + (a + b) % d,
            0 <= a % d,
            0 <= b % d,
            (a + b) % d < d,
    ;
}

/// Deciding a packet uses up a token of credit exactly when it is admitted, and
/// never creates any.
proof fn step_spends_credit(now: u64, policy: Policy, state: TokenState, end: int)
    requires
        policy.enabled != 0,
        policy.burst_tokens > 0,
        now <= end,
        state.last_refill_ns <= end,
    ensures
        ({
            let (passed, after) = bucket_step(now, policy, state);
            &&& after.last_refill_ns <= end
            &&& credit(policy, after, end) + (if passed {
                1int
            } else {
                0
            }) <= credit(policy, state, end)
            &&& credit(policy, after, end) >= 0
        }),
{
    if policy.rate_tokens_per_sec > 0 {
        let d = nanos_per_token(policy.rate_tokens_per_sec);
        nanos_per_token_is_positive(policy.rate_tokens_per_sec);
        let after = bucket_step(now, policy, state).1;
        lemma_div_is_ordered(0, end - after.last_refill_ns, d);
        if state.last_refill_ns <= now {
            div_splits(now - state.last_refill_ns, end - now, d);
            lemma_div_is_ordered(0, end - now, d);
            lemma_div_is_ordered(0, now - state.last_refill_ns, d);
        }
    }
}

proof fn run_spends_credit(policy: Policy, state: TokenState, times: Seq<u64>, end: int)
    requires
        policy.enabled != 0,
        policy.burst_tokens > 0,
        state.last_refill_ns <= end,
        forall|i: int| 0 <= i < times.len() ==> times[i] <= end,
    ensures
        bucket_after(policy, state, times).last_refill_ns <= end,
        credit(policy, bucket_after(policy, state, times), end) + admitted(policy, state, times)
            <= credit(policy, state, end),
        credit(policy, bucket_after(policy, state, times), end) >= 0,
    decreases times.len(),
{
    if times.len() == 0 {
        if policy.rate_tokens_per_sec > 0 {
            nanos_per_token_is_positive(policy.rate_tokens_per_sec);
            lemma_div_is_ordered(
                0,
                end - state.last_refill_ns,
                nanos_per_token(policy.rate_tokens_per_sec),
            );
        }
    } else {
        run_spends_credit(policy, state, times.drop_last(), end);
        step_spends_credit(
            times.last(),
            policy,
            bucket_after(policy, state, times.drop_last()),
            end,
        );
    }
}

/// Over any run of packets until `end`, in any order of their times, an enabled
/// policy admits at most the tokens the bucket held, up to the burst, plus those
/// that its rate earns between the last refill and `end`.
pub proof fn admissions_are_bounded(
    policy: Policy,
    state: TokenState,
    times: Seq<u64>,
    end: int,
)
    requires
        policy.enabled != 0,
        state.last_refill_ns <= end,
        forall|i: int| 0 <= i < times.len() ==> times[i] <= end,
    ensures
        admitted(policy, state, times) <= min_int(
            state.tokens as int,
            policy.burst_tokens as int,
        ) + if policy.rate_tokens_per_sec == 0 {
            0
        } else {
            (end - state.last_refill_ns) / nanos_per_token(policy.rate_tokens_per_sec)
        },
{
    if policy.burst_tokens > 0 {
        run_spends_credit(policy, state, times, end);
    } else {
        nothing_passes_without_burst(policy, state, times);
        if policy.rate_tokens_per_sec > 0 {
            nanos_per_token_is_positive(policy.rate_tokens_per_sec);
            lemma_div_is_ordered(
                0,
                end - state.last_refill_ns,
                nanos_per_token(policy.rate_tokens_per_sec),
            );
        }
    }
}

/// An enabled policy with a burst of zero admits nothing.
pub proof fn nothing_passes_without_burst(policy: Policy, state: TokenState, times: Seq<u64>)
    requires
        policy.enabled != 0,
        policy.burst_tokens == 0,
    ensures
        admitted(policy, state, times) == 0,
    decreases times.len(),
{
    if times.len() > 0 {
        nothing_passes_without_burst(policy, state, times.drop_last());
    }
}

/// At one instant a full bucket admits exactly its burst and drops the rest.
pub proof fn full_bucket_admits_its_burst(policy: Policy, now: u64, times: Seq<u64>)
    requires
        policy.enabled != 0,
        forall|i: int| 0 <= i < times.len() ==> times[i] == now,
    ensures
        admitted(policy, full_bucket(policy, now), times) == min_int(
            times.len() as int,
            policy.burst_tokens as int,
        ),
{
    full_bucket_run(policy, now, times);
}

proof fn full_bucket_run(policy: Policy, now: u64, times: Seq<u64>)
    requires
        policy.enabled != 0,
        forall|i: int| 0 <= i < times.len() ==> times[i] == now,
    ensures
        admitted(policy, full_bucket(policy, now), times) == min_int(
            times.len() as int,
            policy.burst_tokens as int,
        ),
        bucket_after(policy, full_bucket(policy, now), times) == (TokenState {
            tokens: (policy.burst_tokens - min_int(times.len() as int, policy.burst_tokens as int))
                as u64,
            last_refill_ns: now,
        }),
    decreases times.len(),
{
    if times.len() > 0 {
        full_bucket_run(policy, now, times.drop_last());
        assert(times.last() == now);
    }
}

} // verus!
