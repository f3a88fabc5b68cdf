use std::str::FromStr;
use luckycoin::auth::{authenticate, parse_auth_address, IntrospectionError};
use luckycoin::consts::NOOP_PROGRAM_ID;
use luckycoin::error::LuckycoinError;
use luckycoin::instruction::{split_instruction, Claim, Initialize, LuckycoinInstruction, Mine, Open, Reset, Stake, Upgrade};
use luckycoin::state::{Bus, Config, MineEvent, Proof, Treasury, PROOF_DISCRIMINATOR};

fn sample_proof() -> Proof {
    Proof {
        authority: [1u8; 32],
        balance: 0x0102_0304_0506_0708,
        challenge: [2u8; 32],
        last_hash: [3u8; 32],
        last_hash_at: -5,
        last_stake_at: 1_700_000_000,
        miner: [4u8; 32],
        total_hashes: 9,
        total_rewards: u64::MAX,
    }
}

#[test]
fn proof_round_trips_through_bytes() {
    let p = sample_proof();
    let bytes = p.to_bytes();
    assert_eq!(bytes.len(), 176);
    assert_eq!(&bytes[..8], &[PROOF_DISCRIMINATOR, 0, 0, 0, 0, 0, 0, 0]);
    assert_eq!(&bytes[40..48], &[8, 7, 6, 5, 4, 3, 2, 1]);
    assert_eq!(&bytes[112..120], &(-5i64).to_le_bytes());
    assert_eq!(Proof::from_bytes(&bytes), Some(p));
    assert_eq!(Proof::from_bytes(&bytes[..175]), None);
    let mut wrong = bytes.clone();
    wrong[0] = 100;
    assert_eq!(Proof::from_bytes(&wrong), None);
}

#[test]
fn bus_and_config_round_trip_through_bytes() {
    let b = Bus { id: 3, rewards: 10, theoretical_rewards: 20, top_balance: 30 };
    let bytes = b.to_bytes();
    assert_eq!(bytes.len(), 40);
    assert_eq!(bytes[0], 100);
    assert_eq!(Bus::from_bytes(&bytes), Some(b));
    assert_eq!(Config::from_bytes(&bytes), None);
    let c = Config { base_reward_rate: 64, last_reset_at: -1, min_difficulty: 2, top_balance: 7 };
    let bytes = c.to_bytes();
    assert_eq!(bytes[0], 101);
    assert_eq!(Config::from_bytes(&bytes), Some(c));
    assert_eq!(Bus::new(5), Bus { id: 5, rewards: 0, theoretical_rewards: 0, top_balance: 0 });
    assert_eq!(Config::initial(), Config { base_reward_rate: 32, last_reset_at: 0, min_difficulty: 1, top_balance: 0 });
    let t = Treasury {}.to_bytes();
    assert_eq!(t, vec![103, 0, 0, 0, 0, 0, 0, 0]);
    assert_eq!(Treasury::from_bytes(&t), Some(Treasury {}));
}

#[test]
fn mine_event_bytes() {
    let e = MineEvent { difficulty: 3, reward: 128, timing: -5 };
    let mut expected = Vec::new();
    expected.extend_from_slice(&3u64.to_le_bytes());
    expected.extend_from_slice(&128u64.to_le_bytes());
    expected.extend_from_slice(&(-5i64).to_le_bytes());
    assert_eq!(e.to_bytes(), expected);
}

#[test]
fn instructions_split_and_decode() {
    let data = Claim { amount: 42u64.to_le_bytes() }.to_bytes();
    assert_eq!(data[0], 0);
    let (kind, rest) = split_instruction(&data).unwrap();
    assert_eq!(kind, LuckycoinInstruction::Claim);
    assert_eq!(Claim::from_bytes(rest).unwrap().amount(), 42);
    assert_eq!(Stake::from_bytes(&[1, 0, 0, 0, 0, 0, 0, 0]).unwrap().amount(), 1);
    assert_eq!(Upgrade { amount: 100u64.to_le_bytes() }.to_bytes()[0], 7);
    let mine = Mine { digest: [1u8; 16], nonce: [2u8; 8] };
    let data = mine.to_bytes();
    assert_eq!(data.len(), 25);
    let (kind, rest) = split_instruction(&data).unwrap();
    assert_eq!(kind, LuckycoinInstruction::Mine);
    assert_eq!(Mine::from_bytes(rest), Some(mine));
    assert_eq!(Mine::from_bytes(&rest[1..]), None);
    assert_eq!(Open::from_bytes(&[254]), Some(Open { bump: 254 }));
    assert_eq!(Reset {}.to_bytes(), vec![4]);
    let init = Initialize::from_bytes(&[1, 2, 3, 4, 5, 6, 7, 8, 9, 10, 11, 12]).unwrap();
    assert_eq!(init.treasury_bump, 12);
    assert_eq!(init.to_bytes()[0], 100);
    assert_eq!(split_instruction(&[100]).unwrap().0, LuckycoinInstruction::Initialize);
    assert!(split_instruction(&[9]).is_none());
    assert!(split_instruction(&[]).is_none());
}

fn entry(program: &[u8; 32], accounts: u16, data: &[u8]) -> Vec<u8> {
    let mut v = accounts.to_le_bytes().to_vec();
    for i in 0..accounts {
        v.push(0);
        v.extend_from_slice(&[i as u8; 32]);
    }
    v.extend_from_slice(program);
    v.extend_from_slice(&(data.len() as u16).to_le_bytes());
    v.extend_from_slice(data);
    v
}

fn list(entries: &[Vec<u8>]) -> Vec<u8> {
    let mut v = (entries.len() as u16).to_le_bytes().to_vec();
    let mut at = 2 + 2 * entries.len();
    for e in entries {
        v.extend_from_slice(&(at as u16).to_le_bytes());
        at += e.len();
    }
    for e in entries {
        v.extend_from_slice(e);
    }
    v
}

#[test]
fn auth_address_is_found_in_the_first_noop_instruction() {
    let other = [9u8; 32];
    let data = list(&[entry(&other, 2, &[1, 2, 3]), entry(&NOOP_PROGRAM_ID, 1, &[5u8; 32]), entry(&NOOP_PROGRAM_ID, 0, &[6u8; 32])]);
    assert_eq!(parse_auth_address(&data), Ok(Some([5u8; 32])));
    assert_eq!(authenticate(&data, &[5u8; 32]), Ok(()));
    assert_eq!(authenticate(&data, &[6u8; 32]), Err(LuckycoinError::AuthFailed));
}

#[test]
fn auth_address_absent_or_truncated() {
    let data = list(&[entry(&[9u8; 32], 0, &[])]);
    assert_eq!(parse_auth_address(&data), Ok(None));
    assert_eq!(authenticate(&data, &[5u8; 32]), Err(LuckycoinError::AuthFailed));
    assert_eq!(parse_auth_address(&[1]), Err(IntrospectionError::IndexOutOfBounds));
    let full = list(&[entry(&NOOP_PROGRAM_ID, 0, &[5u8; 32])]);
    assert_eq!(parse_auth_address(&full[..full.len() - 1]), Err(IntrospectionError::IndexOutOfBounds));
    assert_eq!(parse_auth_address(&[0, 0]), Ok(None));
}

#[test]
fn noop_program_id_matches_its_base58_form() {
    let key = solana_program::pubkey::Pubkey::from_str("noop8ytexvkpCuqbf6FB89BSuNemHtPRqaNC31GWivW").unwrap();
    assert_eq!(key.to_bytes(), NOOP_PROGRAM_ID);
}
