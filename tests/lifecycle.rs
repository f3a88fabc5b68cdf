use luckycoin::consts::MAX_SUPPLY;
use luckycoin::error::{LuckycoinError, ProcessError};
use luckycoin::lifecycle::{process_claim, process_close, process_open, process_stake, process_update};
use luckycoin::state::Proof;
use luckycoin::upgrade::{process_upgrade, upgrade_with_supply};

fn opened() -> Proof {
    process_open(&[1u8; 32], &[3u8; 32], &[4u8; 40], 500)
}

#[test]
fn open_seeds_challenge_from_identity_and_recent_value() {
    let p = opened();
    assert_eq!(p.authority, [1u8; 32]);
    assert_eq!(p.miner, [3u8; 32]);
    assert_eq!(p.balance, 0);
    assert_eq!(p.last_hash, [0u8; 32]);
    assert_eq!((p.last_hash_at, p.last_stake_at), (500, 500));
    assert_eq!((p.total_hashes, p.total_rewards), (0, 0));
    #[allow(deprecated)]
    let expected = solana_program::keccak::hashv(&[&[1u8; 32][..], &[4u8; 40][..]]).to_bytes();
    assert_eq!(p.challenge, expected);
}

#[test]
fn open_with_another_recent_value_gives_another_challenge() {
    let a = process_open(&[1u8; 32], &[3u8; 32], &[4u8; 40], 500);
    let b = process_open(&[1u8; 32], &[3u8; 32], &[5u8; 40], 900);
    assert_ne!(a.challenge, b.challenge);
}

#[test]
fn claim_debits_the_balance() {
    let mut p = Proof { balance: 100, ..opened() };
    assert_eq!(process_claim(&mut p, 40), Ok(()));
    assert_eq!(p.balance, 60);
    assert_eq!(process_claim(&mut p, 60), Ok(()));
    assert_eq!(p.balance, 0);
}

#[test]
fn claim_too_large_leaves_the_balance() {
    let mut p = Proof { balance: 100, ..opened() };
    let before = p;
    assert_eq!(process_claim(&mut p, 101), Err(ProcessError::Domain(LuckycoinError::ClaimTooLarge)));
    assert_eq!(p, before);
}

#[test]
fn stake_credits_and_stamps() {
    let mut p = opened();
    assert_eq!(process_stake(&mut p, 70, 800), Ok(()));
    assert_eq!((p.balance, p.last_stake_at), (70, 800));
    let before = Proof { balance: u64::MAX - 1, ..p };
    let mut q = before;
    assert_eq!(process_stake(&mut q, 2, 900), Err(ProcessError::Overflow));
    assert_eq!(q, before);
}

#[test]
fn update_replaces_the_miner() {
    let mut p = opened();
    process_update(&mut p, &[6u8; 32]);
    assert_eq!(p, Proof { miner: [6u8; 32], ..opened() });
}

#[test]
fn only_an_empty_record_closes() {
    assert_eq!(process_close(&opened()), Ok(()));
    assert_eq!(process_close(&Proof { balance: 1, ..opened() }), Err(ProcessError::InvalidAccountData));
}

#[test]
fn upgrade_mints_a_hundred_times_the_amount() {
    assert_eq!(upgrade_with_supply(100, 0), Ok(10_000));
    assert_eq!(upgrade_with_supply(100, MAX_SUPPLY - 10_000), Ok(10_000));
    assert_eq!(upgrade_with_supply(100, MAX_SUPPLY - 9_999), Err(ProcessError::Domain(LuckycoinError::MaxSupply)));
    assert_eq!(upgrade_with_supply(u64::MAX, 0), Err(ProcessError::Domain(LuckycoinError::MaxSupply)));
}

fn mint_account(supply: u64, initialized: u8) -> Vec<u8> {
    let mut v = vec![0u8; 82];
    v[36..44].copy_from_slice(&supply.to_le_bytes());
    v[44] = 11;
    v[45] = initialized;
    v
}

#[test]
fn upgrade_reads_the_supply_from_the_mint() {
    assert_eq!(process_upgrade(100, &mint_account(5, 1)), Ok(10_000));
    assert_eq!(process_upgrade(100, &mint_account(MAX_SUPPLY, 1)), Err(ProcessError::Domain(LuckycoinError::MaxSupply)));
    assert_eq!(process_upgrade(100, &mint_account(5, 0)), Err(ProcessError::InvalidAccountData));
    assert_eq!(process_upgrade(100, &mint_account(5, 1)[..81]), Err(ProcessError::InvalidAccountData));
    let mut bad_tag = mint_account(5, 1);
    bad_tag[0] = 2;
    assert_eq!(process_upgrade(100, &bad_tag), Err(ProcessError::InvalidAccountData));
}

#[test]
fn error_codes_are_fixed() {
    let all = [
        LuckycoinError::NeedsReset,
        LuckycoinError::HashInvalid,
        LuckycoinError::HashTooEasy,
        LuckycoinError::ClaimTooLarge,
        LuckycoinError::ClockInvalid,
        LuckycoinError::Spam,
        LuckycoinError::MaxSupply,
        LuckycoinError::AuthFailed,
    ];
    for (i, e) in all.iter().enumerate() {
        assert_eq!(e.code(), i as u32);
    }
}
