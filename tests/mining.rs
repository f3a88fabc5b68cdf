use luckycoin::consts::{NOOP_PROGRAM_ID, ONE_ORE};
use luckycoin::error::{LuckycoinError, ProcessError};
use luckycoin::instruction::Mine;
use luckycoin::mine::{apply_mine, process_mine};
use luckycoin::state::{Bus, Config, MineEvent, Proof};

const RECORD: [u8; 32] = [7u8; 32];

/// An instruction list with one no-op instruction declaring `address`.
fn declaring(address: &[u8; 32]) -> Vec<u8> {
    let mut v = vec![1u8, 0, 4, 0, 0, 0];
    v.extend_from_slice(&NOOP_PROGRAM_ID);
    v.extend_from_slice(&[32, 0]);
    v.extend_from_slice(address);
    v
}

fn config() -> Config {
    Config { base_reward_rate: 32, last_reset_at: 0, min_difficulty: 1, top_balance: 0 }
}

fn bus() -> Bus {
    Bus { id: 0, rewards: 1000, theoretical_rewards: 0, top_balance: 0 }
}

fn record(last_hash_at: i64) -> Proof {
    Proof {
        authority: [1u8; 32],
        balance: 0,
        challenge: [2u8; 32],
        last_hash: [0u8; 32],
        last_hash_at,
        last_stake_at: 0,
        miner: [3u8; 32],
        total_hashes: 0,
        total_rewards: 0,
    }
}

/// A hash whose difficulty is `d` (at most 8).
fn hash_with_difficulty(d: u32) -> [u8; 32] {
    let mut h = [0xffu8; 32];
    h[0] = if d == 8 { 0 } else { 0x80u8 >> d };
    if d == 8 {
        h[1] = 0x80;
    }
    h
}

fn run(config: &Config, bus: &mut Bus, proof: &mut Proof, now: i64, valid: bool, hash: [u8; 32]) -> Result<MineEvent, ProcessError> {
    apply_mine(config, bus, proof, &RECORD, &declaring(&RECORD), now, valid, hash, [9u8; 32])
}

#[test]
fn reward_on_time_scales_with_difficulty() {
    let (mut b, mut p) = (bus(), record(40));
    let e = run(&config(), &mut b, &mut p, 100, true, hash_with_difficulty(3)).unwrap();
    assert_eq!(e.reward, 128);
    assert_eq!(e.difficulty, 3);
    assert_eq!(e.timing, -5);
    assert_eq!(b.rewards, 1000 - 128);
    assert_eq!(b.theoretical_rewards, 128);
    assert_eq!(p.balance, 128);
    assert_eq!(p.total_rewards, 128);
    assert_eq!(p.total_hashes, 1);
    assert_eq!(p.last_hash, hash_with_difficulty(3));
    assert_eq!(p.challenge, [9u8; 32]);
    assert_eq!(p.last_hash_at, 100);
}

#[test]
fn reward_two_minutes_late_is_halved_twice_then_decayed() {
    let (mut b, mut p) = (bus(), record(40));
    let e = run(&config(), &mut b, &mut p, 225, true, hash_with_difficulty(3)).unwrap();
    // 128 halved twice is 32; five leftover seconds take 16 * 5 / 60 = 1.
    assert_eq!(e.reward, 31);
    assert_eq!(e.timing, 120);
    assert_eq!(p.last_hash_at, 225);
}

#[test]
fn payout_is_capped_by_bus_and_one_token() {
    let mut b = Bus { rewards: 50, ..bus() };
    let mut p = record(40);
    let e = run(&config(), &mut b, &mut p, 100, true, hash_with_difficulty(3)).unwrap();
    assert_eq!(e.reward, 50);
    assert_eq!(b.rewards, 0);
    assert_eq!(b.theoretical_rewards, 128);
    assert_eq!(p.total_rewards, 128);

    let big = Config { base_reward_rate: ONE_ORE, ..config() };
    let mut b = Bus { rewards: 10 * ONE_ORE, ..bus() };
    let mut p = record(40);
    let e = run(&big, &mut b, &mut p, 100, true, hash_with_difficulty(3)).unwrap();
    assert_eq!(e.reward, ONE_ORE);
    assert_eq!(b.rewards, 9 * ONE_ORE);
    assert_eq!(b.theoretical_rewards, 4 * ONE_ORE);
}

#[test]
fn resubmission_is_refused() {
    let (mut b, mut p) = (bus(), record(40));
    run(&config(), &mut b, &mut p, 100, true, hash_with_difficulty(3)).unwrap();
    let (bus_after, proof_after) = (b, p);
    let r = run(&config(), &mut b, &mut p, 100, true, hash_with_difficulty(3));
    assert_eq!(r, Err(ProcessError::Domain(LuckycoinError::Spam)));
    assert_eq!((b, p), (bus_after, proof_after));
}

#[test]
fn lateness_never_raises_and_finally_zeroes_the_reward() {
    let mut last = u64::MAX;
    for now in [100i64, 105, 106, 130, 159, 160, 161, 219, 220, 280, 290] {
        let cfg = Config { last_reset_at: 0, ..config() };
        let (mut b, mut p) = (bus(), record(40));
        let e = run(&cfg, &mut b, &mut p, now, true, hash_with_difficulty(3)).unwrap();
        assert!(e.reward <= last);
        last = e.reward;
    }
    let cfg = Config { last_reset_at: 10_000, base_reward_rate: 1 << 40, ..config() };
    let mut b = Bus { rewards: u64::MAX, ..bus() };
    let mut p = record(40);
    let e = run(&cfg, &mut b, &mut p, 100 + 64 * 60, true, hash_with_difficulty(3)).unwrap();
    assert_eq!(e.reward, 0);
}

#[test]
fn stake_raises_reward_up_to_the_top_balance() {
    let cfg = Config { top_balance: 100, ..config() };
    let mut rewards = Vec::new();
    for balance in [0u64, 25, 50, 100, 200] {
        let mut b = bus();
        let mut p = Proof { balance, ..record(40) };
        let e = run(&cfg, &mut b, &mut p, 100, true, hash_with_difficulty(3)).unwrap();
        rewards.push(e.reward);
        if balance > 0 {
            assert_eq!(b.top_balance, balance);
        }
    }
    assert_eq!(rewards, vec![128, 160, 192, 256, 256]);
}

#[test]
fn stake_a_minute_old_earns_the_bonus() {
    let cfg = Config { top_balance: 100, ..config() };
    let mut b = bus();
    let mut p = Proof { balance: 100, last_stake_at: 40, ..record(40) };
    let e = run(&cfg, &mut b, &mut p, 100, true, hash_with_difficulty(3)).unwrap();
    assert_eq!(e.reward, 256);
    assert_eq!(b.top_balance, 100);
}

#[test]
fn recent_stake_earns_no_bonus() {
    let cfg = Config { top_balance: 100, ..config() };
    let mut b = bus();
    let mut p = Proof { balance: 100, last_stake_at: 50, ..record(40) };
    let e = run(&cfg, &mut b, &mut p, 100, true, hash_with_difficulty(3)).unwrap();
    assert_eq!(e.reward, 128);
    assert_eq!(b.top_balance, 0);
}

#[test]
fn undeclared_record_is_refused_whatever_the_solution() {
    for valid in [true, false] {
        let (mut b, mut p) = (bus(), record(40));
        let r = apply_mine(&config(), &mut b, &mut p, &RECORD, &declaring(&[8u8; 32]), 100, valid, hash_with_difficulty(3), [9u8; 32]);
        assert_eq!(r, Err(ProcessError::Domain(LuckycoinError::AuthFailed)));
        assert_eq!((b, p), (bus(), record(40)));
        let r = apply_mine(&config(), &mut b, &mut p, &RECORD, &[0, 0], 100, valid, hash_with_difficulty(3), [9u8; 32]);
        assert_eq!(r, Err(ProcessError::Domain(LuckycoinError::AuthFailed)));
    }
}

#[test]
fn each_mining_error_has_its_input() {
    let hash = hash_with_difficulty(3);
    let cases: Vec<(Config, Proof, i64, bool, [u8; 32], ProcessError)> = vec![
        (config(), record(40), 300, true, hash, ProcessError::Domain(LuckycoinError::NeedsReset)),
        (config(), record(40), 100, false, hash, ProcessError::Domain(LuckycoinError::HashInvalid)),
        (config(), record(40), 94, true, hash, ProcessError::Domain(LuckycoinError::Spam)),
        (Config { min_difficulty: 4, ..config() }, record(40), 100, true, hash, ProcessError::Domain(LuckycoinError::HashTooEasy)),
        (Config { base_reward_rate: u64::MAX, ..config() }, record(40), 100, true, hash, ProcessError::Overflow),
        (Config { min_difficulty: 0, ..config() }, record(40), 100, true, [0u8; 32], ProcessError::Overflow),
        (config(), Proof { balance: u64::MAX, ..record(40) }, 100, true, hash, ProcessError::Overflow),
    ];
    for (cfg, start, now, valid, h, err) in cases {
        let (mut b, mut p) = (bus(), start);
        assert_eq!(run(&cfg, &mut b, &mut p, now, valid, h), Err(err));
        assert_eq!((b, p), (bus(), start));
    }
    let mut b = Bus { theoretical_rewards: u64::MAX - 1, ..bus() };
    let mut p = record(40);
    assert_eq!(run(&config(), &mut b, &mut p, 95, true, hash), Err(ProcessError::Overflow));
}

#[test]
fn spam_window_opens_five_seconds_early() {
    let (mut b, mut p) = (bus(), record(40));
    let e = run(&config(), &mut b, &mut p, 95, true, hash_with_difficulty(3)).unwrap();
    assert_eq!(e.reward, 128);
    assert_eq!(p.last_hash_at, 100);
}

/// Finds a nonce for which drillx has a solution, and returns it with the
/// solution's digest.
fn solve(challenge: &[u8; 32]) -> ([u8; 16], [u8; 8]) {
    for n in 0u64..1000 {
        let nonce = n.to_le_bytes();
        if let Ok(h) = drillx::hash(challenge, &nonce) {
            return (h.d, nonce);
        }
    }
    panic!("no drillx solution found");
}

#[test]
fn drillx_solution_is_checked_hashed_and_rotated() {
    let mut p = record(40);
    let (digest, nonce) = solve(&p.challenge);
    let expected = drillx::Solution::new(digest, nonce).to_hash();
    let cfg = Config { min_difficulty: 0, base_reward_rate: 1, ..config() };
    let mut b = Bus { rewards: u64::MAX, ..bus() };
    let recent = [5u8; 40];
    let args = Mine { digest, nonce };
    let e = process_mine(&cfg, &mut b, &mut p, &RECORD, &args, 100, &declaring(&RECORD), &recent).unwrap();
    assert_eq!(e.difficulty, expected.difficulty() as u64);
    assert_eq!(e.reward, 1u64 << expected.difficulty());
    assert_eq!(p.last_hash, expected.h);
    #[allow(deprecated)]
    let next = solana_program::keccak::hashv(&[expected.h.as_slice(), recent.as_slice()]).to_bytes();
    assert_eq!(p.challenge, next);
    assert_ne!(p.challenge, [2u8; 32]);

    // The same solution no longer fits the rotated challenge.
    let later = Config { last_reset_at: 10_000, ..cfg };
    let r = process_mine(&later, &mut b, &mut p, &RECORD, &args, 1000, &declaring(&RECORD), &recent);
    assert_eq!(r, Err(ProcessError::Domain(LuckycoinError::HashInvalid)));
}

#[test]
fn invalid_drillx_solution_is_refused() {
    let mut p = record(40);
    let mut b = bus();
    let args = Mine { digest: [0u8; 16], nonce: [0u8; 8] };
    let r = process_mine(&config(), &mut b, &mut p, &RECORD, &args, 100, &declaring(&RECORD), &[0u8; 40]);
    assert_eq!(r, Err(ProcessError::Domain(LuckycoinError::HashInvalid)));
}
