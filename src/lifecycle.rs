//! The life of a proof record: open, update, stake, claim and close.
use vstd::prelude::*;
use crate::error::{LuckycoinError, ProcessError};
use crate::solution::{keccak256, keccak_concat};
use crate::state::Proof;

verus! {

/// Opens a record for `authority`, with `miner` allowed to submit solutions.
/// The first challenge hashes the authority followed by `recent`, an
/// unpredictable recent ledger value, so that it cannot be computed ahead.
pub fn process_open(authority: &[u8; 32], miner: &[u8; 32], recent: &[u8], now: i64) -> (r: Proof)
    ensures
        r.authority == *authority,
        r.miner == *miner,
        r.balance == 0,
        r.challenge@ == keccak256(authority@ + recent@),
        r.last_hash@ == Seq::new(32, |i: int| 0u8),
        r.last_hash_at == now,
        r.last_stake_at == now,
        r.total_hashes == 0,
        r.total_rewards == 0,
{
    let challenge = keccak_concat(authority, recent);
    let r = Proof {
        authority: *authority,
        balance: 0,
        challenge,
        last_hash: [0u8; 32],
        last_hash_at: now,
        last_stake_at: now,
        miner: *miner,
        total_hashes: 0,
        total_rewards: 0,
    };
    assert(r.last_hash@ =~= Seq::new(32, |i: int| 0u8));
    r
}

/// Hands the right to submit solutions to `miner`.
pub fn process_update(proof: &mut Proof, miner: &[u8; 32])
    ensures
        *final(proof) == (Proof { miner: *miner, ..*old(proof) }),
{
    proof.miner = *miner;
}

/// Credits `amount` of stake at time `now`. Refused with `Overflow`, and
/// nothing changed, where the balance would overflow.
pub fn process_stake(proof: &mut Proof, amount: u64, now: i64) -> (r: Result<(), ProcessError>)
    ensures
        old(proof).balance + amount > u64::MAX ==> r == Err::<(), ProcessError>(
            ProcessError::Overflow,
        ) && *final(proof) == *old(proof),
        old(proof).balance + amount <= u64::MAX ==> r is Ok && *final(proof) == (Proof {
            balance: (old(proof).balance + amount) as u64,
            last_stake_at: now,
            ..*old(proof)
        }),
{
    match proof.balance.checked_add(amount) {
        Some(balance) => {
            proof.balance = balance;
            proof.last_stake_at = now;
            Ok(())
        },
        None => Err(ProcessError::Overflow),
    }
}

/// Debits `amount` from the balance for payout. Refused with `ClaimTooLarge`,
/// and nothing changed, where the amount exceeds the balance.
pub fn process_claim(proof: &mut Proof, amount: u64) -> (r: Result<(), ProcessError>)
    ensures
        amount > old(proof).balance ==> r == Err::<(), ProcessError>(
            ProcessError::Domain(LuckycoinError::ClaimTooLarge),
        ) && *final(proof) == *old(proof),
        amount <= old(proof).balance ==> r is Ok && *final(proof) == (Proof {
            balance: (old(proof).balance - amount) as u64,
            ..*old(proof)
        }),
{
    if amount > proof.balance {
        return Err(ProcessError::Domain(LuckycoinError::ClaimTooLarge));
    }
    proof.balance = proof.balance - amount;
    Ok(())
}

/// Whether the record may be closed: only an empty one may.
pub fn process_close(proof: &Proof) -> (r: Result<(), ProcessError>)
    ensures
        r is Ok <==> proof.balance == 0,
        r is Err ==> r == Err::<(), ProcessError>(ProcessError::InvalidAccountData),
{
    if proof.balance > 0 {
        return Err(ProcessError::InvalidAccountData);
    }
    Ok(())
}

} // verus!
