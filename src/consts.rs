//! Fixed protocol constants.
use vstd::prelude::*;

verus! {

/// Lowest base reward rate the rate governor may set.
pub const BASE_REWARD_RATE_MIN_THRESHOLD: u64 = 32;

/// Highest base reward rate the rate governor may set.
pub const BASE_REWARD_RATE_MAX_THRESHOLD: u64 = 256;

/// Base reward rate right after bootstrap.
pub const INITIAL_BASE_REWARD_RATE: u64 = BASE_REWARD_RATE_MIN_THRESHOLD;

/// Spam and liveness tolerance, in seconds.
pub const TOLERANCE: i64 = 5;

/// Minimum accepted difficulty right after bootstrap.
pub const INITIAL_MIN_DIFFICULTY: u32 = 1;

/// Decimal precision of the token.
pub const TOKEN_DECIMALS: u8 = 11;

/// Decimal precision of the legacy token.
pub const TOKEN_DECIMALS_V1: u8 = 9;

/// One whole token, in indivisible units.
pub const ONE_ORE: u64 = 100_000_000_000;

/// Legacy units are worth this many units of the token.
pub const UPGRADE_FACTOR: u64 = 100;

/// One minute, in seconds: the nominal cadence of submissions.
pub const ONE_MINUTE: i64 = 60;

/// Number of minutes in an epoch.
pub const EPOCH_MINUTES: i64 = 5;

/// Length of an epoch, in seconds.
pub const EPOCH_DURATION: i64 = ONE_MINUTE * EPOCH_MINUTES;

/// Maximum total supply: twenty-one million whole tokens.
pub const MAX_SUPPLY: u64 = ONE_ORE * 21_000_000;

/// Number of reward shards (buses).
pub const BUS_COUNT: usize = 8;

/// Issuance aimed at for one epoch: one token per minute.
pub const TARGET_EPOCH_REWARDS: u64 = ONE_ORE * 5;

/// Issuance cap for one epoch, over all shards.
pub const MAX_EPOCH_REWARDS: u64 = TARGET_EPOCH_REWARDS * 8;

/// Issuance allotted to each shard for one epoch.
pub const BUS_EPOCH_REWARDS: u64 = MAX_EPOCH_REWARDS / 8;

/// Bound on the change of the base reward rate from one epoch to the next.
pub const SMOOTHING_FACTOR: u64 = 2;

/// Address of the no-op program whose instruction data declares the proof
/// record that a transaction mines with.
pub const NOOP_PROGRAM_ID: [u8; 32] = [
    11, 188, 15, 182, 203, 29, 221, 28, 227, 242, 242, 171, 26, 14, 188, 177,
    157, 107, 138, 3, 18, 82, 116, 20, 91, 31, 128, 139, 185, 154, 240, 91,
];

} // verus!
