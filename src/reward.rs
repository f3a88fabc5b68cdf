//! The reward formula: difficulty scaling, staking multiplier and liveness
//! penalty.
use vstd::prelude::*;
use vstd::arithmetic::power2::{pow2, lemma_pow2_unfold, lemma2_to64, lemma2_to64_rest};
use vstd::arithmetic::div_mod::{lemma_div_is_ordered, lemma_div_is_ordered_by_denominator, lemma_div_pos_is_pos};
use vstd::arithmetic::mul::lemma_mul_inequality;
use crate::consts::{ONE_MINUTE, TOLERANCE};

verus! {

/// `x` clamped to the range of `i64`.
pub open spec fn sat_i64(x: int) -> int {
    if x > i64::MAX {
        i64::MAX as int
    } else if x < i64::MIN {
        i64::MIN as int
    } else {
        x
    }
}

/// `x` clamped to the range of `u64`.
pub open spec fn sat_u64(x: int) -> int {
    if x > u64::MAX {
        u64::MAX as int
    } else if x < 0 {
        0
    } else {
        x
    }
}

/// `a + b`, saturating at the bounds of `i64`.
pub fn saturating_add_i64(a: i64, b: i64) -> (r: i64)
    ensures
        r == sat_i64(a + b),
{
    match a.checked_add(b) {
        Some(s) => s,
        None => if b > 0 {
            i64::MAX
        } else {
            i64::MIN
        },
    }
}

/// `a - b`, saturating at the bounds of `i64`.
pub fn saturating_sub_i64(a: i64, b: i64) -> (r: i64)
    ensures
        r == sat_i64(a - b),
{
    match a.checked_sub(b) {
        Some(s) => s,
        None => if b < 0 {
            i64::MAX
        } else {
            i64::MIN
        },
    }
}

/// `2^n`.
pub fn pow2_u64(n: u32) -> (r: u64)
    requires
        n < 64,
    ensures
        r == pow2(n as nat),
{
    proof {
        lemma2_to64();
        lemma2_to64_rest();
    }
    let mut r: u64 = 1;
    let mut i: u32 = 0;
    while i < n
        invariant
            0 <= i <= n < 64,
            r == pow2(i as nat),
            pow2(63) == 0x8000_0000_0000_0000,
        decreases n - i,
    {
        proof {
            lemma_pow2_unfold((i + 1) as nat);
            vstd::arithmetic::power2::lemma_pow2_strictly_increases(i as nat, 63);
        }
        r = r * 2;
        i = i + 1;
    }
    r
}

/// The reward for a difficulty before staking and liveness adjustments:
/// `rate * 2^(difficulty - min_difficulty)`, or `None` where that overflows
/// `u64` (the exponent alone does from 64 on).
pub open spec fn base_reward(rate: u64, difficulty: int, min_difficulty: int) -> Option<int> {
    let n = difficulty - min_difficulty;
    if n >= 64 || rate * pow2(n as nat) > u64::MAX {
        None
    } else {
        Some(rate * pow2(n as nat))
    }
}

/// Computes `base_reward`.
pub fn compute_base_reward(rate: u64, difficulty: u32, min_difficulty: u64) -> (r: Option<u64>)
    requires
        min_difficulty <= difficulty,
    ensures
        r matches Some(x) ==> base_reward(rate, difficulty as int, min_difficulty as int) == Some(
            x as int,
        ),
        r is None ==> base_reward(rate, difficulty as int, min_difficulty as int) is None,
{
    let n = difficulty - min_difficulty as u32;
    if n >= 64 {
        return None;
    }
    let p = pow2_u64(n);
    rate.checked_mul(p)
}

/// The staking bonus: the reward scaled by the share of the top balance that
/// the record's balance reaches.
pub open spec fn staking_bonus(reward: int, balance: int, top_balance: int) -> int {
    reward * (if balance < top_balance { balance } else { top_balance }) / top_balance
}

/// The reward with the staking bonus added; without a top balance to
/// compare with, no bonus.
pub open spec fn staked_reward(reward: int, balance: int, top_balance: int) -> int {
    if top_balance > 0 {
        reward + staking_bonus(reward, balance, top_balance)
    } else {
        reward
    }
}

/// Computes `staking_bonus`, which never exceeds the reward.
pub fn compute_staking_bonus(reward: u64, balance: u64, top_balance: u64) -> (r: u64)
    requires
        top_balance > 0,
    ensures
        r == staking_bonus(reward as int, balance as int, top_balance as int),
        r <= reward,
{
    let share: u64 = if balance < top_balance {
        balance
    } else {
        top_balance
    };
    proof {
        lemma_mul_inequality(share as int, top_balance as int, reward as int);
        assert(reward * share <= reward * top_balance) by (nonlinear_arith)
            requires
                share <= top_balance,
        ;
        assert(reward * share <= u64::MAX * u64::MAX) by (nonlinear_arith)
            requires
                share <= u64::MAX,
                reward <= u64::MAX,
        ;
        lemma_div_is_ordered((reward * share) as int, (reward * top_balance) as int, top_balance as int);
        vstd::arithmetic::div_mod::lemma_div_multiples_vanish(reward as int, top_balance as int);
        assert((reward as int) * (top_balance as int) == (top_balance as int) * (reward as int)) by (nonlinear_arith);
    }
    let product: u128 = (reward as u128) * (share as u128);
    (product / (top_balance as u128)) as u64
}

/// The reward after the liveness penalty, for a submission at `now` against
/// the nominal time `t_target`. Past the tolerance, the reward is halved once
/// per whole minute late (down to zero from the 64th), and the seconds left
/// over take off up to half again, in proportion.
pub open spec fn liveness_adjusted(reward: int, now: int, t_target: int) -> int {
    let t_liveness = sat_i64(t_target + TOLERANCE);
    if now > t_liveness {
        let tardiness = sat_i64(now - t_target);
        let halvings = tardiness / ONE_MINUTE as int;
        let halved = if halvings >= 64 {
            0
        } else {
            reward / pow2(halvings as nat) as int
        };
        let remainder = tardiness - halvings * ONE_MINUTE;
        if remainder > 0 && halved > 0 {
            halved - sat_u64((halved / 2) * remainder) / ONE_MINUTE as int
        } else {
            halved
        }
    } else {
        reward
    }
}

/// Computes `liveness_adjusted`, which never exceeds the reward.
pub fn apply_liveness_penalty(reward: u64, now: i64, t_target: i64) -> (r: u64)
    ensures
        r == liveness_adjusted(reward as int, now as int, t_target as int),
        r <= reward,
{
    let t_liveness = saturating_add_i64(t_target, TOLERANCE);
    if now <= t_liveness {
        return reward;
    }
    let tardiness = saturating_sub_i64(now, t_target) as u64;
    let halvings: u64 = tardiness / (ONE_MINUTE as u64);
    let halved: u64 = if halvings >= 64 {
        0
    } else {
        let p = pow2_u64(halvings as u32);
        proof {
            vstd::arithmetic::power2::lemma_pow2_pos(halvings as nat);
            lemma_div_is_ordered_by_denominator(reward as int, 1, p as int);
        }
        reward / p
    };
    let remainder: u64 = tardiness - halvings * (ONE_MINUTE as u64);
    if remainder > 0 && halved > 0 {
        let scaled: u64 = match (halved / 2).checked_mul(remainder) {
            Some(x) => x,
            None => u64::MAX,
        };
        let penalty: u64 = scaled / (ONE_MINUTE as u64);
        proof {
            assert((halved / 2) * remainder <= (halved / 2) * 60) by (nonlinear_arith)
                requires
                    remainder < 60,
            ;
            lemma_div_pos_is_pos(scaled as int, 60);
        }
        halved - penalty
    } else {
        halved
    }
}

/// Staking never lowers a reward: the staked reward is non-decreasing in the
/// balance, and flat once the balance reaches the top balance.
pub proof fn lemma_staking_monotone(reward: int, balance1: int, balance2: int, top_balance: int)
    requires
        reward >= 0,
        0 <= balance1 <= balance2,
        top_balance > 0,
    ensures
        reward <= staked_reward(reward, balance1, top_balance),
        staked_reward(reward, balance1, top_balance) <= staked_reward(reward, balance2, top_balance),
        balance1 >= top_balance ==> staked_reward(reward, balance1, top_balance) == staked_reward(
            reward,
            balance2,
            top_balance,
        ),
{
    let s1 = if balance1 < top_balance { balance1 } else { top_balance };
    let s2 = if balance2 < top_balance { balance2 } else { top_balance };
    assert(0 <= reward * s1 <= reward * s2) by (nonlinear_arith)
        requires
            reward >= 0,
            0 <= s1 <= s2,
    ;
    lemma_div_is_ordered(reward * s1, reward * s2, top_balance);
    lemma_div_pos_is_pos(reward * s1, top_balance);
}

/// The liveness penalty never raises a reward nor makes it negative.
pub proof fn lemma_liveness_bounds(reward: int, now: int, t_target: int)
    requires
        0 <= reward,
    ensures
        0 <= liveness_adjusted(reward, now, t_target) <= reward,
{
    let t_liveness = sat_i64(t_target + TOLERANCE);
    if now > t_liveness {
        let tardiness = sat_i64(now - t_target);
        let halvings = tardiness / 60;
        if halvings < 64 {
            vstd::arithmetic::power2::lemma_pow2_pos(halvings as nat);
            lemma_div_is_ordered_by_denominator(reward, 1, pow2(halvings as nat) as int);
            lemma_div_pos_is_pos(reward, pow2(halvings as nat) as int);
        }
        let halved = if halvings >= 64 { 0 } else { reward / pow2(halvings as nat) as int };
        let remainder = tardiness - halvings * 60;
        if remainder > 0 && halved > 0 {
            lemma_penalty_at_most_half(halved, remainder);
        }
    }
}

/// The part of the liveness penalty taken for leftover seconds is at most
/// half of the halved reward.
proof fn lemma_penalty_at_most_half(halved: int, remainder: int)
    requires
        0 <= halved,
        0 <= remainder < 60,
    ensures
        0 <= sat_u64((halved / 2) * remainder) / 60 <= halved / 2,
        halved / 2 <= halved - sat_u64((halved / 2) * remainder) / 60,
{
    let h = halved / 2;
    lemma_div_pos_is_pos(halved, 2);
    assert(0 <= h * remainder <= h * 60) by (nonlinear_arith)
        requires
            0 <= h,
            0 <= remainder < 60,
    ;
    let x = sat_u64(h * remainder);
    assert(0 <= x <= h * 60);
    lemma_div_is_ordered(x, h * 60, 60);
    vstd::arithmetic::div_mod::lemma_div_multiples_vanish(h, 60);
    assert(60 * h == h * 60) by (nonlinear_arith);
    lemma_div_pos_is_pos(x, 60);
}

/// The liveness-adjusted reward does not grow with the submission time.
pub proof fn lemma_liveness_monotone(reward: int, now1: int, now2: int, t_target: int)
    requires
        0 <= reward,
        i64::MIN <= t_target <= i64::MAX,
        i64::MIN <= now1 <= now2 <= i64::MAX,
    ensures
        liveness_adjusted(reward, now2, t_target) <= liveness_adjusted(reward, now1, t_target),
{
    lemma_liveness_bounds(reward, now1, t_target);
    lemma_liveness_bounds(reward, now2, t_target);
    let t_liveness = sat_i64(t_target + TOLERANCE);
    if now1 > t_liveness {
        let d1 = sat_i64(now1 - t_target);
        let d2 = sat_i64(now2 - t_target);
        assert(0 <= d1 <= d2);
        let h1 = d1 / 60;
        let h2 = d2 / 60;
        lemma_div_is_ordered(d1, d2, 60);
        lemma_div_pos_is_pos(d1, 60);
        let r1 = d1 - h1 * 60;
        let r2 = d2 - h2 * 60;
        vstd::arithmetic::div_mod::lemma_fundamental_div_mod(d1, 60);
        vstd::arithmetic::div_mod::lemma_fundamental_div_mod(d2, 60);
        vstd::arithmetic::div_mod::lemma_mod_bound(d1, 60);
        vstd::arithmetic::div_mod::lemma_mod_bound(d2, 60);
        assert(0 <= r1 < 60);
        assert(0 <= r2 < 60);
        let g1 = if h1 >= 64 { 0 } else { reward / pow2(h1 as nat) as int };
        let g2 = if h2 >= 64 { 0 } else { reward / pow2(h2 as nat) as int };
        if h1 < 64 {
            vstd::arithmetic::power2::lemma_pow2_pos(h1 as nat);
            lemma_div_pos_is_pos(reward, pow2(h1 as nat) as int);
        }
        if h1 == h2 {
            if r1 > 0 && g1 > 0 {
                let h = g1 / 2;
                lemma_div_pos_is_pos(g1, 2);
                assert(h * r1 <= h * r2) by (nonlinear_arith)
                    requires
                        0 <= h,
                        r1 <= r2,
                ;
                lemma_div_is_ordered(sat_u64(h * r1), sat_u64(h * r2), 60);
            } else if g1 > 0 && r2 > 0 {
                lemma_penalty_at_most_half(g1, r2);
            }
        } else {
            assert(h1 < h2);
            lemma_halving_step(reward, h1, h2);
            assert(g2 <= g1 / 2);
            if r1 > 0 && g1 > 0 {
                lemma_penalty_at_most_half(g1, r1);
            } else {
                lemma_div_is_ordered_by_denominator(g1, 1, 2);
            }
            if r2 > 0 && g2 > 0 {
                lemma_penalty_at_most_half(g2, r2);
            }
        }
    }
}

/// One more halving at least halves the halved reward again.
proof fn lemma_halving_step(reward: int, h1: int, h2: int)
    requires
        0 <= reward,
        0 <= h1 < h2,
    ensures
        0 <= (if h1 >= 64 { 0 } else { reward / pow2(h1 as nat) as int }),
        (if h2 >= 64 { 0 } else { reward / pow2(h2 as nat) as int }) <= (if h1 >= 64 {
            0
        } else {
            reward / pow2(h1 as nat) as int
        }) / 2,
{
    if h1 < 64 {
        let divisor = pow2(h1 as nat) as int;
        vstd::arithmetic::power2::lemma_pow2_pos(h1 as nat);
        lemma_div_pos_is_pos(reward, divisor);
        if h2 < 64 {
            let later_divisor = pow2(h2 as nat) as int;
            vstd::arithmetic::power2::lemma_pow2_unfold((h1 + 1) as nat);
            vstd::arithmetic::power2::lemma_pow2_pos((h1 + 1) as nat);
            if h2 > h1 + 1 {
                vstd::arithmetic::power2::lemma_pow2_strictly_increases((h1 + 1) as nat, h2 as nat);
            }
            assert(pow2((h1 + 1) as nat) <= later_divisor);
            lemma_div_is_ordered_by_denominator(reward, pow2((h1 + 1) as nat) as int, later_divisor);
            vstd::arithmetic::div_mod::lemma_div_denominator(reward, divisor, 2);
            assert(divisor * 2 == pow2((h1 + 1) as nat));
        } else {
            lemma_div_pos_is_pos(reward / divisor, 2);
        }
    }
}

/// A submission 64 minutes or more late earns nothing.
pub proof fn lemma_liveness_vanishes(reward: int, now: int, t_target: int)
    requires
        0 <= reward,
        i64::MIN <= t_target,
        t_target + 64 * ONE_MINUTE <= now <= i64::MAX,
    ensures
        liveness_adjusted(reward, now, t_target) == 0,
{
    let d = sat_i64(now - t_target);
    assert(d >= 64 * 60);
    lemma_div_is_ordered(3840, d, 60);
}

} // verus!
