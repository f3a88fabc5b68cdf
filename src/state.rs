//! The persistent records: proof (one per participant), bus (one per reward
//! shard), config and treasury (singletons).
use vstd::prelude::*;
use crate::consts::{BUS_COUNT, BUS_EPOCH_REWARDS, INITIAL_BASE_REWARD_RATE, INITIAL_MIN_DIFFICULTY};
use crate::layout::{le64, lemma_i64_bits, lemma_le64_round_trip, push_bytes, push_u64, read_array, read_u64, u64_at};

verus! {

/// One of the reward shards. Shards exist so that unrelated mining
/// instructions can be processed in parallel.
#[derive(Debug, Clone, Copy, PartialEq, Eq)]
pub struct Bus {
    /// Index of the shard.
    pub id: u64,
    /// Issuance budget left to the shard in the current epoch.
    pub rewards: u64,
    /// Sum of the uncapped rewards computed in the current epoch.
    pub theoretical_rewards: u64,
    /// Largest stake observed through the shard in the current epoch.
    pub top_balance: u64,
}

/// The global parameters of the protocol.
#[derive(Debug, Clone, Copy, PartialEq, Eq)]
pub struct Config {
    /// Reward paid for a solution of minimum difficulty.
    pub base_reward_rate: u64,
    /// Time of the last epoch boundary.
    pub last_reset_at: i64,
    /// Minimum accepted difficulty.
    pub min_difficulty: u64,
    /// Largest stake observed in the last epoch.
    pub top_balance: u64,
}

/// The state of one participant.
#[derive(Debug, Clone, Copy, PartialEq, Eq)]
pub struct Proof {
    /// The identity allowed to update, stake, claim and close.
    pub authority: [u8; 32],
    /// Unclaimed rewards, also counted as stake.
    pub balance: u64,
    /// The target that the next solution must satisfy.
    pub challenge: [u8; 32],
    /// The hash of the last accepted solution.
    pub last_hash: [u8; 32],
    /// When the last solution was accepted.
    pub last_hash_at: i64,
    /// When the last stake was deposited.
    pub last_stake_at: i64,
    /// The identity allowed to submit solutions.
    pub miner: [u8; 32],
    /// Number of accepted solutions.
    pub total_hashes: u64,
    /// Sum of the uncapped rewards computed for this record.
    pub total_rewards: u64,
}

/// The singleton that holds the mint authority. It carries no data.
#[derive(Debug, Clone, Copy, PartialEq, Eq)]
pub struct Treasury {}

/// The telemetry emitted by an accepted solution.
#[derive(Debug, Clone, Copy, PartialEq, Eq)]
pub struct MineEvent {
    /// The solution's difficulty.
    pub difficulty: u64,
    /// The reward actually paid.
    pub reward: u64,
    /// Seconds between the submission and the end of the liveness window.
    pub timing: i64,
}

/// Type tag of a bus record.
pub const BUS_DISCRIMINATOR: u8 = 100;

/// Type tag of the config record.
pub const CONFIG_DISCRIMINATOR: u8 = 101;

/// Type tag of a proof record.
pub const PROOF_DISCRIMINATOR: u8 = 102;

/// Type tag of the treasury record.
pub const TREASURY_DISCRIMINATOR: u8 = 103;

/// Stored size of a bus record.
pub const BUS_LEN: usize = 40;

/// Stored size of the config record.
pub const CONFIG_LEN: usize = 40;

/// Stored size of a proof record.
pub const PROOF_LEN: usize = 176;

/// Stored size of the treasury record.
pub const TREASURY_LEN: usize = 8;

/// The eight-byte header of a stored record: its type tag, then zeros.
pub open spec fn header(tag: u8) -> Seq<u8> {
    seq![tag, 0u8, 0u8, 0u8, 0u8, 0u8, 0u8, 0u8]
}

/// Appends the header of a record with type tag `tag`.
fn push_header(v: &mut Vec<u8>, tag: u8)
    ensures
        final(v)@ == old(v)@ + header(tag),
{
    let ghost start = v@;
    v.push(tag);
    let mut i: usize = 0;
    while i < 7
        invariant
            0 <= i <= 7,
            v@ == start + header(tag).subrange(0, i + 1),
        decreases 7 - i,
    {
        v.push(0u8);
        i = i + 1;
        assert(v@ =~= start + header(tag).subrange(0, i + 1));
    }
    assert(header(tag).subrange(0, 8) =~= header(tag));
}

/// The `i64` stored little-endian at `pos`, as the `u64` with its bits.
pub open spec fn i64_at(data: Seq<u8>, pos: int) -> i64 {
    u64_at(data, pos) as i64
}

/// A `u64` read as an `i64` and stored back keeps its bits.
proof fn lemma_u64_bits(x: u64)
    ensures
        (x as i64) as u64 == x,
{
    assert((x as i64) as u64 == x) by (bit_vector);
}

impl Bus {
    /// A shard is one of the fixed set, and its budget never exceeds one
    /// epoch's allotment.
    pub open spec fn wf(self) -> bool {
        self.id < BUS_COUNT && self.rewards <= BUS_EPOCH_REWARDS
    }

    /// The stored form: header, then the four fields little-endian.
    pub open spec fn spec_to_bytes(self) -> Seq<u8> {
        header(BUS_DISCRIMINATOR) + le64(self.id) + le64(self.rewards) + le64(
            self.theoretical_rewards,
        ) + le64(self.top_balance)
    }

    /// A fresh shard as bootstrap creates it: empty until the first epoch
    /// reset fills its budget.
    pub fn new(id: u64) -> (r: Bus)
        ensures
            r == (Bus { id, rewards: 0, theoretical_rewards: 0, top_balance: 0 }),
            id < BUS_COUNT ==> r.wf(),
    {
        Bus { id, rewards: 0, theoretical_rewards: 0, top_balance: 0 }
    }

    /// Encodes the record for storage.
    pub fn to_bytes(&self) -> (r: Vec<u8>)
        ensures
            r@ == self.spec_to_bytes(),
    {
        let mut v = Vec::new();
        push_header(&mut v, BUS_DISCRIMINATOR);
        push_u64(&mut v, self.id);
        push_u64(&mut v, self.rewards);
        push_u64(&mut v, self.theoretical_rewards);
        push_u64(&mut v, self.top_balance);
        v
    }

    /// Decodes a stored record: `None` unless the data has the record's
    /// size and type tag. The bytes after the header determine the record.
    pub fn from_bytes(data: &[u8]) -> (r: Option<Bus>)
        ensures
            r is Some <==> data@.len() == BUS_LEN && data@[0] == BUS_DISCRIMINATOR,
            r matches Some(b) ==> b.spec_to_bytes().subrange(8, 40) == data@.subrange(8, 40),
    {
        if data.len() != BUS_LEN || data[0] != BUS_DISCRIMINATOR {
            return None;
        }
        let b = Bus {
            id: read_u64(data, 8),
            rewards: read_u64(data, 16),
            theoretical_rewards: read_u64(data, 24),
            top_balance: read_u64(data, 32),
        };
        proof {
            let d = data@;
            lemma_le64_round_trip(0, d.subrange(8, 16));
            lemma_le64_round_trip(0, d.subrange(16, 24));
            lemma_le64_round_trip(0, d.subrange(24, 32));
            lemma_le64_round_trip(0, d.subrange(32, 40));
            assert(b.spec_to_bytes().subrange(8, 40) =~= d.subrange(8, 16) + d.subrange(16, 24)
                + d.subrange(24, 32) + d.subrange(32, 40));
            assert(d.subrange(8, 40) =~= d.subrange(8, 16) + d.subrange(16, 24) + d.subrange(24, 32)
                + d.subrange(32, 40));
        }
        Some(b)
    }
}

/// The stored bytes of a shard determine it: decoding what was encoded
/// gives the same shard back.
pub proof fn lemma_bus_round_trip(b: Bus, c: Bus)
    requires
        c.spec_to_bytes().subrange(8, 40) == b.spec_to_bytes().subrange(8, 40),
    ensures
        c == b,
{
    let x = b.spec_to_bytes();
    let y = c.spec_to_bytes();
    lemma_le64_round_trip(b.id, Seq::empty());
    lemma_le64_round_trip(b.rewards, Seq::empty());
    lemma_le64_round_trip(b.theoretical_rewards, Seq::empty());
    lemma_le64_round_trip(b.top_balance, Seq::empty());
    lemma_le64_round_trip(c.id, Seq::empty());
    lemma_le64_round_trip(c.rewards, Seq::empty());
    lemma_le64_round_trip(c.theoretical_rewards, Seq::empty());
    lemma_le64_round_trip(c.top_balance, Seq::empty());
    assert(x.subrange(8, 16) =~= le64(b.id));
    assert(y.subrange(8, 16) =~= le64(c.id));
    assert(x.subrange(16, 24) =~= le64(b.rewards));
    assert(y.subrange(16, 24) =~= le64(c.rewards));
    assert(x.subrange(24, 32) =~= le64(b.theoretical_rewards));
    assert(y.subrange(24, 32) =~= le64(c.theoretical_rewards));
    assert(x.subrange(32, 40) =~= le64(b.top_balance));
    assert(y.subrange(32, 40) =~= le64(c.top_balance));
    assert(x.subrange(8, 16) =~= x.subrange(8, 40).subrange(0, 8));
    assert(y.subrange(8, 16) =~= y.subrange(8, 40).subrange(0, 8));
    assert(x.subrange(16, 24) =~= x.subrange(8, 40).subrange(8, 16));
    assert(y.subrange(16, 24) =~= y.subrange(8, 40).subrange(8, 16));
    assert(x.subrange(24, 32) =~= x.subrange(8, 40).subrange(16, 24));
    assert(y.subrange(24, 32) =~= y.subrange(8, 40).subrange(16, 24));
    assert(x.subrange(32, 40) =~= x.subrange(8, 40).subrange(24, 32));
    assert(y.subrange(32, 40) =~= y.subrange(8, 40).subrange(24, 32));
}

impl Config {
    /// The stored form: header, then the four fields little-endian.
    pub open spec fn spec_to_bytes(self) -> Seq<u8> {
        header(CONFIG_DISCRIMINATOR) + le64(self.base_reward_rate) + le64(
            self.last_reset_at as u64,
        ) + le64(self.min_difficulty) + le64(self.top_balance)
    }

    /// The configuration as bootstrap creates it.
    pub fn initial() -> (r: Config)
        ensures
            r == (Config {
                base_reward_rate: INITIAL_BASE_REWARD_RATE,
                last_reset_at: 0,
                min_difficulty: INITIAL_MIN_DIFFICULTY as u64,
                top_balance: 0,
            }),
    {
        Config {
            base_reward_rate: INITIAL_BASE_REWARD_RATE,
            last_reset_at: 0,
            min_difficulty: INITIAL_MIN_DIFFICULTY as u64,
            top_balance: 0,
        }
    }

    /// Encodes the record for storage.
    pub fn to_bytes(&self) -> (r: Vec<u8>)
        ensures
            r@ == self.spec_to_bytes(),
    {
        let mut v = Vec::new();
        push_header(&mut v, CONFIG_DISCRIMINATOR);
        push_u64(&mut v, self.base_reward_rate);
        push_u64(&mut v, self.last_reset_at as u64);
        push_u64(&mut v, self.min_difficulty);
        push_u64(&mut v, self.top_balance);
        v
    }

    /// Decodes a stored record: `None` unless the data has the record's
    /// size and type tag. The bytes after the header determine the record.
    pub fn from_bytes(data: &[u8]) -> (r: Option<Config>)
        ensures
            r is Some <==> data@.len() == CONFIG_LEN && data@[0] == CONFIG_DISCRIMINATOR,
            r matches Some(c) ==> c.spec_to_bytes().subrange(8, 40) == data@.subrange(8, 40),
    {
        if data.len() != CONFIG_LEN || data[0] != CONFIG_DISCRIMINATOR {
            return None;
        }
        let c = Config {
            base_reward_rate: read_u64(data, 8),
            last_reset_at: read_u64(data, 16) as i64,
            min_difficulty: read_u64(data, 24),
            top_balance: read_u64(data, 32),
        };
        proof {
            let d = data@;
            lemma_le64_round_trip(0, d.subrange(8, 16));
            lemma_le64_round_trip(0, d.subrange(16, 24));
            lemma_le64_round_trip(0, d.subrange(24, 32));
            lemma_le64_round_trip(0, d.subrange(32, 40));
            lemma_u64_bits(u64_at(d, 16));
            assert(c.spec_to_bytes().subrange(8, 40) =~= d.subrange(8, 16) + d.subrange(16, 24)
                + d.subrange(24, 32) + d.subrange(32, 40));
            assert(d.subrange(8, 40) =~= d.subrange(8, 16) + d.subrange(16, 24) + d.subrange(24, 32)
                + d.subrange(32, 40));
        }
        Some(c)
    }
}

/// The stored bytes of the configuration determine it: decoding what was
/// encoded gives the same configuration back.
pub proof fn lemma_config_round_trip(b: Config, c: Config)
    requires
        c.spec_to_bytes().subrange(8, 40) == b.spec_to_bytes().subrange(8, 40),
    ensures
        c == b,
{
    let x = b.spec_to_bytes();
    let y = c.spec_to_bytes();
    lemma_le64_round_trip(b.base_reward_rate, Seq::empty());
    lemma_le64_round_trip(b.last_reset_at as u64, Seq::empty());
    lemma_le64_round_trip(b.min_difficulty, Seq::empty());
    lemma_le64_round_trip(b.top_balance, Seq::empty());
    lemma_le64_round_trip(c.base_reward_rate, Seq::empty());
    lemma_le64_round_trip(c.last_reset_at as u64, Seq::empty());
    lemma_le64_round_trip(c.min_difficulty, Seq::empty());
    lemma_le64_round_trip(c.top_balance, Seq::empty());
    lemma_i64_bits(b.last_reset_at);
    lemma_i64_bits(c.last_reset_at);
    assert(x.subrange(8, 16) =~= x.subrange(8, 40).subrange(0, 8));
    assert(y.subrange(8, 16) =~= y.subrange(8, 40).subrange(0, 8));
    assert(x.subrange(16, 24) =~= x.subrange(8, 40).subrange(8, 16));
    assert(y.subrange(16, 24) =~= y.subrange(8, 40).subrange(8, 16));
    assert(x.subrange(24, 32) =~= x.subrange(8, 40).subrange(16, 24));
    assert(y.subrange(24, 32) =~= y.subrange(8, 40).subrange(16, 24));
    assert(x.subrange(32, 40) =~= x.subrange(8, 40).subrange(24, 32));
    assert(y.subrange(32, 40) =~= y.subrange(8, 40).subrange(24, 32));
    assert(x.subrange(8, 16) =~= le64(b.base_reward_rate));
    assert(y.subrange(8, 16) =~= le64(c.base_reward_rate));
    assert(x.subrange(16, 24) =~= le64(b.last_reset_at as u64));
    assert(y.subrange(16, 24) =~= le64(c.last_reset_at as u64));
    assert(x.subrange(24, 32) =~= le64(b.min_difficulty));
    assert(y.subrange(24, 32) =~= le64(c.min_difficulty));
    assert(x.subrange(32, 40) =~= le64(b.top_balance));
    assert(y.subrange(32, 40) =~= le64(c.top_balance));
}

impl Proof {
    /// The stored form: header, then the fields in order, integers
    /// little-endian.
    pub open spec fn spec_to_bytes(self) -> Seq<u8> {
        header(PROOF_DISCRIMINATOR) + self.authority@ + le64(self.balance) + self.challenge@
            + self.last_hash@ + le64(self.last_hash_at as u64) + le64(self.last_stake_at as u64)
            + self.miner@ + le64(self.total_hashes) + le64(self.total_rewards)
    }

    /// Encodes the record for storage.
    pub fn to_bytes(&self) -> (r: Vec<u8>)
        ensures
            r@ == self.spec_to_bytes(),
    {
        let mut v = Vec::new();
        push_header(&mut v, PROOF_DISCRIMINATOR);
        push_bytes(&mut v, &self.authority);
        push_u64(&mut v, self.balance);
        push_bytes(&mut v, &self.challenge);
        push_bytes(&mut v, &self.last_hash);
        push_u64(&mut v, self.last_hash_at as u64);
        push_u64(&mut v, self.last_stake_at as u64);
        push_bytes(&mut v, &self.miner);
        push_u64(&mut v, self.total_hashes);
        push_u64(&mut v, self.total_rewards);
        v
    }

    /// Decodes a stored record: `None` unless the data has the record's
    /// size and type tag. The bytes after the header determine the record.
    pub fn from_bytes(data: &[u8]) -> (r: Option<Proof>)
        ensures
            r is Some <==> data@.len() == PROOF_LEN && data@[0] == PROOF_DISCRIMINATOR,
            r matches Some(p) ==> p.spec_to_bytes().subrange(8, 176) == data@.subrange(8, 176),
    {
        if data.len() != PROOF_LEN || data[0] != PROOF_DISCRIMINATOR {
            return None;
        }
        let p = Proof {
            authority: read_array::<32>(data, 8),
            balance: read_u64(data, 40),
            challenge: read_array::<32>(data, 48),
            last_hash: read_array::<32>(data, 80),
            last_hash_at: read_u64(data, 112) as i64,
            last_stake_at: read_u64(data, 120) as i64,
            miner: read_array::<32>(data, 128),
            total_hashes: read_u64(data, 160),
            total_rewards: read_u64(data, 168),
        };
        proof {
            let d = data@;
            lemma_le64_round_trip(0, d.subrange(40, 48));
            lemma_le64_round_trip(0, d.subrange(112, 120));
            lemma_le64_round_trip(0, d.subrange(120, 128));
            lemma_le64_round_trip(0, d.subrange(160, 168));
            lemma_le64_round_trip(0, d.subrange(168, 176));
            lemma_u64_bits(u64_at(d, 112));
            lemma_u64_bits(u64_at(d, 120));
            assert(p.spec_to_bytes().subrange(8, 176) =~= d.subrange(8, 40) + d.subrange(40, 48)
                + d.subrange(48, 80) + d.subrange(80, 112) + d.subrange(112, 120) + d.subrange(
                120,
                128,
            ) + d.subrange(128, 160) + d.subrange(160, 168) + d.subrange(168, 176));
            assert(d.subrange(8, 176) =~= d.subrange(8, 40) + d.subrange(40, 48) + d.subrange(48, 80)
                + d.subrange(80, 112) + d.subrange(112, 120) + d.subrange(120, 128) + d.subrange(
                128,
                160,
            ) + d.subrange(160, 168) + d.subrange(168, 176));
        }
        Some(p)
    }
}

/// The stored bytes of a proof record determine it: decoding what was
/// encoded gives the same record back.
pub proof fn lemma_proof_round_trip(b: Proof, c: Proof)
    requires
        c.spec_to_bytes().subrange(8, 176) == b.spec_to_bytes().subrange(8, 176),
    ensures
        c == b,
{
    let x = b.spec_to_bytes();
    let y = c.spec_to_bytes();
    lemma_le64_round_trip(b.balance, Seq::empty());
    lemma_le64_round_trip(b.last_hash_at as u64, Seq::empty());
    lemma_le64_round_trip(b.last_stake_at as u64, Seq::empty());
    lemma_le64_round_trip(b.total_hashes, Seq::empty());
    lemma_le64_round_trip(b.total_rewards, Seq::empty());
    lemma_le64_round_trip(c.balance, Seq::empty());
    lemma_le64_round_trip(c.last_hash_at as u64, Seq::empty());
    lemma_le64_round_trip(c.last_stake_at as u64, Seq::empty());
    lemma_le64_round_trip(c.total_hashes, Seq::empty());
    lemma_le64_round_trip(c.total_rewards, Seq::empty());
    lemma_i64_bits(b.last_hash_at);
    lemma_i64_bits(c.last_hash_at);
    lemma_i64_bits(b.last_stake_at);
    lemma_i64_bits(c.last_stake_at);
    assert(x.subrange(8, 40) =~= b.authority@);
    assert(y.subrange(8, 40) =~= c.authority@);
    assert(x.subrange(40, 48) =~= le64(b.balance));
    assert(y.subrange(40, 48) =~= le64(c.balance));
    assert(x.subrange(48, 80) =~= b.challenge@);
    assert(y.subrange(48, 80) =~= c.challenge@);
    assert(x.subrange(80, 112) =~= b.last_hash@);
    assert(y.subrange(80, 112) =~= c.last_hash@);
    assert(x.subrange(112, 120) =~= le64(b.last_hash_at as u64));
    assert(y.subrange(112, 120) =~= le64(c.last_hash_at as u64));
    assert(x.subrange(120, 128) =~= le64(b.last_stake_at as u64));
    assert(y.subrange(120, 128) =~= le64(c.last_stake_at as u64));
    assert(x.subrange(128, 160) =~= b.miner@);
    assert(y.subrange(128, 160) =~= c.miner@);
    assert(x.subrange(160, 168) =~= le64(b.total_hashes));
    assert(y.subrange(160, 168) =~= le64(c.total_hashes));
    assert(x.subrange(168, 176) =~= le64(b.total_rewards));
    assert(y.subrange(168, 176) =~= le64(c.total_rewards));
    assert forall|lo: int, hi: int| 8 <= lo <= hi <= 176 implies x.subrange(lo, hi) == y.subrange(
        lo,
        hi,
    ) by {
        assert(x.subrange(lo, hi) =~= x.subrange(8, 176).subrange(lo - 8, hi - 8));
        assert(y.subrange(lo, hi) =~= y.subrange(8, 176).subrange(lo - 8, hi - 8));
    }
    assert(b.authority =~= c.authority);
    assert(b.challenge =~= c.challenge);
    assert(b.last_hash =~= c.last_hash);
    assert(b.miner =~= c.miner);
}

impl Treasury {
    /// The stored form: the header alone.
    pub open spec fn spec_to_bytes(self) -> Seq<u8> {
        header(TREASURY_DISCRIMINATOR)
    }

    /// Encodes the record for storage.
    pub fn to_bytes(&self) -> (r: Vec<u8>)
        ensures
            r@ == self.spec_to_bytes(),
    {
        let mut v = Vec::new();
        push_header(&mut v, TREASURY_DISCRIMINATOR);
        v
    }

    /// Decodes a stored record: `None` unless the data has the record's
    /// size and type tag.
    pub fn from_bytes(data: &[u8]) -> (r: Option<Treasury>)
        ensures
            r is Some <==> data@.len() == TREASURY_LEN && data@[0] == TREASURY_DISCRIMINATOR,
    {
        if data.len() != TREASURY_LEN || data[0] != TREASURY_DISCRIMINATOR {
            return None;
        }
        Some(Treasury {})
    }
}

impl MineEvent {
    /// The emitted form: the three fields little-endian, with no header.
    pub open spec fn spec_to_bytes(self) -> Seq<u8> {
        le64(self.difficulty) + le64(self.reward) + le64(self.timing as u64)
    }

    /// Encodes the event for emission.
    pub fn to_bytes(&self) -> (r: Vec<u8>)
        ensures
            r@ == self.spec_to_bytes(),
    {
        let mut v = Vec::new();
        push_u64(&mut v, self.difficulty);
        push_u64(&mut v, self.reward);
        push_u64(&mut v, self.timing as u64);
        v
    }
}

} // verus!
