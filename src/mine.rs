//! The mining operation: checks a submitted solution, computes its reward,
//! pays it out of a shard's budget and rotates the record's challenge.
use vstd::prelude::*;
use crate::auth::{authenticate, declares};
use crate::consts::{EPOCH_DURATION, ONE_MINUTE, ONE_ORE, TOLERANCE};
use crate::error::{LuckycoinError, ProcessError};
use crate::instruction::Mine;
use vstd::arithmetic::power2::pow2;
use crate::reward::{
    lemma_liveness_bounds, lemma_liveness_monotone, lemma_staking_monotone, apply_liveness_penalty, base_reward, compute_base_reward, compute_staking_bonus,
    liveness_adjusted, sat_i64, sat_u64, saturating_add_i64, saturating_sub_i64, staked_reward,
};
use crate::solution::{
    drillx_hash, drillx_valid, hash_difficulty, keccak256, keccak_concat, leading_zero_bits,
    solution_hash, solution_is_valid,
};
use crate::state::{Bus, Config, MineEvent, Proof};

verus! {

/// The nominal time of the record's next submission.
pub open spec fn t_target(proof: Proof) -> int {
    sat_i64(proof.last_hash_at + ONE_MINUTE)
}

/// The end of the window in which a submission is not penalised.
pub open spec fn t_liveness(proof: Proof) -> int {
    sat_i64(t_target(proof) + TOLERANCE)
}

/// Whether the record's balance counts as stake at `now`: it is positive and
/// was last topped up at least a minute ago.
pub open spec fn stake_eligible(proof: Proof, now: int) -> bool {
    proof.balance > 0 && sat_i64(proof.last_stake_at + ONE_MINUTE) <= now
}

/// The uncapped reward for a solution of the given difficulty submitted at
/// `now`, or `None` where checked arithmetic overflows.
pub open spec fn mine_reward(config: Config, proof: Proof, difficulty: int, now: int) -> Option<int> {
    match base_reward(config.base_reward_rate, difficulty, config.min_difficulty as int) {
        None => None,
        Some(base) => {
            let staked = if stake_eligible(proof, now) {
                staked_reward(base, proof.balance as int, config.top_balance as int)
            } else {
                base
            };
            if staked > u64::MAX {
                None
            } else {
                Some(liveness_adjusted(staked, now, t_target(proof)))
            }
        }
    }
}

/// The reward actually paid: capped by the shard's budget and by one token.
pub open spec fn payout(reward: int, bus: Bus) -> int {
    let capped = if reward < bus.rewards { reward } else { bus.rewards as int };
    if capped < ONE_ORE { capped } else { ONE_ORE as int }
}

/// Why a mining instruction is refused, checked in order; `None` when it is
/// accepted.
pub open spec fn mine_error(
    config: Config,
    bus: Bus,
    proof: Proof,
    proof_address: Seq<u8>,
    instructions: Seq<u8>,
    now: int,
    valid: bool,
    hash: Seq<u8>,
) -> Option<ProcessError> {
    let difficulty = leading_zero_bits(hash) as int;
    if sat_i64(config.last_reset_at + EPOCH_DURATION) <= now {
        Some(ProcessError::Domain(LuckycoinError::NeedsReset))
    } else if !declares(instructions, proof_address) {
        Some(ProcessError::Domain(LuckycoinError::AuthFailed))
    } else if !valid {
        Some(ProcessError::Domain(LuckycoinError::HashInvalid))
    } else if now < sat_i64(t_target(proof) - TOLERANCE) {
        Some(ProcessError::Domain(LuckycoinError::Spam))
    } else if difficulty < config.min_difficulty {
        Some(ProcessError::Domain(LuckycoinError::HashTooEasy))
    } else {
        match mine_reward(config, proof, difficulty, now) {
            None => Some(ProcessError::Overflow),
            Some(reward) => if bus.theoretical_rewards + reward > u64::MAX || proof.balance
                + payout(reward, bus) > u64::MAX {
                Some(ProcessError::Overflow)
            } else {
                None
            },
        }
    }
}

/// The shard after an accepted solution with the given difficulty.
pub open spec fn mined_bus(config: Config, bus: Bus, proof: Proof, difficulty: int, now: int) -> Bus {
    let reward = mine_reward(config, proof, difficulty, now)->0;
    Bus {
        id: bus.id,
        rewards: (bus.rewards - payout(reward, bus)) as u64,
        theoretical_rewards: (bus.theoretical_rewards + reward) as u64,
        top_balance: if stake_eligible(proof, now) && proof.balance > bus.top_balance {
            proof.balance
        } else {
            bus.top_balance
        },
    }
}

/// `new` is the record `old` after an accepted solution with hash `hash`,
/// whose next challenge is `next`.
pub open spec fn mined_proof(
    config: Config,
    bus: Bus,
    old: Proof,
    new: Proof,
    hash: Seq<u8>,
    next: Seq<u8>,
    now: int,
) -> bool {
    let reward = mine_reward(config, old, leading_zero_bits(hash) as int, now)->0;
    &&& new.authority == old.authority
    &&& new.miner == old.miner
    &&& new.last_stake_at == old.last_stake_at
    &&& new.balance == old.balance + payout(reward, bus)
    &&& new.challenge@ == next
    &&& new.last_hash@ == hash
    &&& new.last_hash_at == if now > t_target(old) { now } else { t_target(old) }
    &&& new.total_hashes == sat_u64(old.total_hashes + 1)
    &&& new.total_rewards == sat_u64(old.total_rewards + reward)
}

/// The telemetry of an accepted solution.
pub open spec fn mine_event(config: Config, bus: Bus, proof: Proof, difficulty: int, now: int) -> MineEvent {
    let reward = mine_reward(config, proof, difficulty, now)->0;
    MineEvent {
        difficulty: difficulty as u64,
        reward: payout(reward, bus) as u64,
        timing: sat_i64(now - t_liveness(proof)) as i64,
    }
}

/// The outcome of a mining instruction: refused with the first error that
/// applies and nothing changed, or accepted with both records updated.
pub open spec fn mine_result(
    config: Config,
    old_bus: Bus,
    new_bus: Bus,
    old_proof: Proof,
    new_proof: Proof,
    proof_address: Seq<u8>,
    instructions: Seq<u8>,
    now: int,
    valid: bool,
    hash: Seq<u8>,
    next: Seq<u8>,
    r: Result<MineEvent, ProcessError>,
) -> bool {
    match mine_error(config, old_bus, old_proof, proof_address, instructions, now, valid, hash) {
        Some(e) => r == Err::<MineEvent, ProcessError>(e) && new_bus == old_bus && new_proof
            == old_proof,
        None => {
            let difficulty = leading_zero_bits(hash) as int;
            &&& r == Ok::<MineEvent, ProcessError>(
                mine_event(config, old_bus, old_proof, difficulty, now),
            )
            &&& new_bus == mined_bus(config, old_bus, old_proof, difficulty, now)
            &&& mined_proof(config, old_bus, old_proof, new_proof, hash, next, now)
        },
    }
}

/// Processes a mining instruction given what the solution checks returned:
/// `valid` whether the solution fits the record's challenge, `hash` its
/// hash, `next_challenge` the challenge that replaces the current one.
pub fn apply_mine(
    config: &Config,
    bus: &mut Bus,
    proof: &mut Proof,
    proof_address: &[u8; 32],
    instructions: &[u8],
    now: i64,
    valid: bool,
    hash: [u8; 32],
    next_challenge: [u8; 32],
) -> (r: Result<MineEvent, ProcessError>)
    ensures
        mine_result(
            *config,
            *old(bus),
            *final(bus),
            *old(proof),
            *final(proof),
            proof_address@,
            instructions@,
            now as int,
            valid,
            hash@,
            next_challenge@,
            r,
        ),
        old(bus).wf() ==> final(bus).wf(),
{
    let epoch_end = saturating_add_i64(config.last_reset_at, EPOCH_DURATION);
    if epoch_end <= now {
        return Err(ProcessError::Domain(LuckycoinError::NeedsReset));
    }
    if let Err(e) = authenticate(instructions, proof_address) {
        return Err(ProcessError::Domain(e));
    }
    if !valid {
        return Err(ProcessError::Domain(LuckycoinError::HashInvalid));
    }
    let t_target = saturating_add_i64(proof.last_hash_at, ONE_MINUTE);
    let t_spam = saturating_sub_i64(t_target, TOLERANCE);
    if now < t_spam {
        return Err(ProcessError::Domain(LuckycoinError::Spam));
    }
    let difficulty = hash_difficulty(hash);
    if (difficulty as u64) < config.min_difficulty {
        return Err(ProcessError::Domain(LuckycoinError::HashTooEasy));
    }
    let base = match compute_base_reward(
        config.base_reward_rate,
        difficulty,
        config.min_difficulty,
    ) {
        Some(b) => b,
        None => return Err(ProcessError::Overflow),
    };
    let staking = proof.balance > 0 && saturating_add_i64(proof.last_stake_at, ONE_MINUTE) <= now;
    let mut reward = base;
    if staking && config.top_balance > 0 {
        let bonus = compute_staking_bonus(base, proof.balance, config.top_balance);
        reward = match base.checked_add(bonus) {
            Some(x) => x,
            None => return Err(ProcessError::Overflow),
        };
    }
    let reward = apply_liveness_penalty(reward, now, t_target);
    let mut actual = reward;
    if bus.rewards < actual {
        actual = bus.rewards;
    }
    if ONE_ORE < actual {
        actual = ONE_ORE;
    }
    let theoretical = match bus.theoretical_rewards.checked_add(reward) {
        Some(x) => x,
        None => return Err(ProcessError::Overflow),
    };
    let balance = match proof.balance.checked_add(actual) {
        Some(x) => x,
        None => return Err(ProcessError::Overflow),
    };

    if staking && proof.balance > bus.top_balance {
        bus.top_balance = proof.balance;
    }
    bus.theoretical_rewards = theoretical;
    bus.rewards = bus.rewards - actual;
    proof.balance = balance;
    proof.last_hash = hash;
    proof.challenge = next_challenge;
    proof.last_hash_at = if now > t_target {
        now
    } else {
        t_target
    };
    proof.total_hashes = proof.total_hashes.saturating_add(1);
    proof.total_rewards = proof.total_rewards.saturating_add(reward);
    let t_liveness = saturating_add_i64(t_target, TOLERANCE);
    Ok(MineEvent { difficulty: difficulty as u64, reward: actual, timing: saturating_sub_i64(now, t_liveness) })
}

/// Processes a mining instruction: checks the solution in `args` against the
/// record's challenge with drillx, and on success seeds the next challenge
/// with the solution's hash followed by `recent`, an unpredictable recent
/// ledger value.
pub fn process_mine(
    config: &Config,
    bus: &mut Bus,
    proof: &mut Proof,
    proof_address: &[u8; 32],
    args: &Mine,
    now: i64,
    instructions: &[u8],
    recent: &[u8],
) -> (r: Result<MineEvent, ProcessError>)
    ensures
        mine_result(
            *config,
            *old(bus),
            *final(bus),
            *old(proof),
            *final(proof),
            proof_address@,
            instructions@,
            now as int,
            drillx_valid(old(proof).challenge@, args.digest@, args.nonce@),
            drillx_hash(args.digest@, args.nonce@),
            keccak256(drillx_hash(args.digest@, args.nonce@) + recent@),
            r,
        ),
        old(bus).wf() ==> final(bus).wf(),
{
    let valid = solution_is_valid(&proof.challenge, args.digest, args.nonce);
    let hash = solution_hash(args.digest, args.nonce);
    let next_challenge = keccak_concat(&hash, recent);
    apply_mine(config, bus, proof, proof_address, instructions, now, valid, hash, next_challenge)
}

/// An accepted solution pays at most its uncapped reward, at most the
/// shard's remaining budget and at most one token, and the shard's budget
/// drops by exactly what is paid.
pub proof fn lemma_payout_bounded(
    config: Config,
    bus: Bus,
    proof: Proof,
    proof_address: Seq<u8>,
    instructions: Seq<u8>,
    now: int,
    valid: bool,
    hash: Seq<u8>,
)
    requires
        mine_error(config, bus, proof, proof_address, instructions, now, valid, hash) is None,
    ensures
        ({
            let difficulty = leading_zero_bits(hash) as int;
            let reward = mine_reward(config, proof, difficulty, now)->0;
            let paid = mine_event(config, bus, proof, difficulty, now).reward;
            &&& 0 <= paid <= reward
            &&& paid <= bus.rewards
            &&& paid <= ONE_ORE
            &&& mined_bus(config, bus, proof, difficulty, now).rewards == bus.rewards - paid
        }),
{
    let difficulty = leading_zero_bits(hash) as int;
    lemma_mine_reward_bounds(config, proof, difficulty, now);
}

/// The uncapped reward of a solution is never negative.
proof fn lemma_mine_reward_bounds(config: Config, proof: Proof, difficulty: int, now: int)
    requires
        mine_reward(config, proof, difficulty, now) is Some,
        difficulty >= config.min_difficulty,
    ensures
        0 <= mine_reward(config, proof, difficulty, now)->0,
{
    let base = base_reward(config.base_reward_rate, difficulty, config.min_difficulty as int)->0;
    assert(base >= 0) by (nonlinear_arith)
        requires
            base == config.base_reward_rate * pow2((difficulty - config.min_difficulty) as nat),
            config.base_reward_rate >= 0,
    ;
    let staked = if stake_eligible(proof, now) {
        staked_reward(base, proof.balance as int, config.top_balance as int)
    } else {
        base
    };
    if stake_eligible(proof, now) && config.top_balance > 0 {
        lemma_staking_monotone(base, proof.balance as int, proof.balance as int, config.top_balance as int);
    }
    lemma_liveness_bounds(staked, now, t_target(proof));
}

/// A mining instruction whose transaction does not declare the record being
/// mined (it declares another one, or none) is refused with `AuthFailed`
/// whatever the solution, once the epoch is still open.
pub proof fn lemma_undeclared_record_refused(
    config: Config,
    bus: Bus,
    proof: Proof,
    proof_address: Seq<u8>,
    instructions: Seq<u8>,
    now: int,
    valid: bool,
    hash: Seq<u8>,
)
    requires
        now < sat_i64(config.last_reset_at + EPOCH_DURATION),
        !declares(instructions, proof_address),
    ensures
        mine_error(config, bus, proof, proof_address, instructions, now, valid, hash) == Some(
            ProcessError::Domain(LuckycoinError::AuthFailed),
        ),
{
}

/// Once a solution is accepted at `now`, any submission against the
/// resulting record before `now + 55` is refused, whatever its solution.
pub proof fn lemma_quick_resubmission_refused(
    config: Config,
    bus: Bus,
    proof: Proof,
    new_proof: Proof,
    proof_address: Seq<u8>,
    instructions: Seq<u8>,
    now: int,
    valid: bool,
    hash: Seq<u8>,
    next: Seq<u8>,
    config2: Config,
    bus2: Bus,
    instructions2: Seq<u8>,
    now2: int,
    valid2: bool,
    hash2: Seq<u8>,
)
    requires
        i64::MIN <= now <= i64::MAX - ONE_MINUTE,
        mine_error(config, bus, proof, proof_address, instructions, now, valid, hash) is None,
        mined_proof(config, bus, proof, new_proof, hash, next, now),
        now2 < now + ONE_MINUTE - TOLERANCE,
    ensures
        mine_error(config2, bus2, new_proof, proof_address, instructions2, now2, valid2, hash2)
            is Some,
{
    assert(new_proof.last_hash_at >= now);
    assert(now2 < sat_i64(t_target(new_proof) - TOLERANCE));
}

/// For a record whose stake counts the same at both times, a later
/// submission of the same solution is paid no more than an earlier one.
pub proof fn lemma_payout_nonincreasing_in_time(
    config: Config,
    bus: Bus,
    proof: Proof,
    proof_address: Seq<u8>,
    instructions: Seq<u8>,
    now1: int,
    now2: int,
    valid: bool,
    hash: Seq<u8>,
)
    requires
        i64::MIN <= now1 <= now2 <= i64::MAX,
        mine_error(config, bus, proof, proof_address, instructions, now1, valid, hash) is None,
        mine_error(config, bus, proof, proof_address, instructions, now2, valid, hash) is None,
        stake_eligible(proof, now1) == stake_eligible(proof, now2),
    ensures
        mine_event(config, bus, proof, leading_zero_bits(hash) as int, now2).reward <= mine_event(
            config,
            bus,
            proof,
            leading_zero_bits(hash) as int,
            now1,
        ).reward,
{
    let difficulty = leading_zero_bits(hash) as int;
    let base = base_reward(config.base_reward_rate, difficulty, config.min_difficulty as int)->0;
    assert(base >= 0) by (nonlinear_arith)
        requires
            base == config.base_reward_rate * pow2((difficulty - config.min_difficulty) as nat),
            config.base_reward_rate >= 0,
    ;
    let staked = if stake_eligible(proof, now1) {
        staked_reward(base, proof.balance as int, config.top_balance as int)
    } else {
        base
    };
    if stake_eligible(proof, now1) && config.top_balance > 0 {
        lemma_staking_monotone(base, proof.balance as int, proof.balance as int, config.top_balance as int);
    }
    lemma_liveness_monotone(staked, now1, now2, t_target(proof));
    lemma_mine_reward_bounds(config, proof, difficulty, now1);
    lemma_mine_reward_bounds(config, proof, difficulty, now2);
}

/// An accepted solution never lowers the record's lifetime counters, and
/// never moves its last submission time before the nominal cadence.
pub proof fn lemma_mined_record_moves_forward(
    config: Config,
    bus: Bus,
    proof: Proof,
    new_proof: Proof,
    hash: Seq<u8>,
    next: Seq<u8>,
    now: int,
)
    requires
        mine_reward(config, proof, leading_zero_bits(hash) as int, now) is Some,
        leading_zero_bits(hash) >= config.min_difficulty,
        mined_proof(config, bus, proof, new_proof, hash, next, now),
    ensures
        new_proof.total_hashes >= proof.total_hashes,
        new_proof.total_rewards >= proof.total_rewards,
        new_proof.balance >= proof.balance,
        new_proof.last_hash_at >= t_target(proof),
        new_proof.last_hash_at >= now,
{
    lemma_mine_reward_bounds(config, proof, leading_zero_bits(hash) as int, now);
}

/// After an accepted solution, the record's challenge is the rotated one,
/// and a later submission whose solution does not fit it is refused with
/// `HashInvalid`, once the epoch is open and the record is declared.
pub proof fn lemma_stale_solution_refused(
    config: Config,
    bus: Bus,
    proof: Proof,
    new_proof: Proof,
    proof_address: Seq<u8>,
    instructions: Seq<u8>,
    now: int,
    valid: bool,
    hash: Seq<u8>,
    next: Seq<u8>,
    bus2: Bus,
    instructions2: Seq<u8>,
    now2: int,
    hash2: Seq<u8>,
)
    requires
        mine_error(config, bus, proof, proof_address, instructions, now, valid, hash) is None,
        mined_proof(config, bus, proof, new_proof, hash, next, now),
        now2 < sat_i64(config.last_reset_at + EPOCH_DURATION),
        declares(instructions2, proof_address),
    ensures
        mine_error(config, bus2, new_proof, proof_address, instructions2, now2, false, hash2)
            == Some(ProcessError::Domain(LuckycoinError::HashInvalid)),
        new_proof.challenge@ == next,
{
}

} // verus!
