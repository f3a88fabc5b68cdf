//! Instructions: a one-byte tag followed by a fixed-layout payload.
use vstd::prelude::*;
use crate::layout::{push_bytes, read_array, read_u64, u64_at};

verus! {

/// The kinds of instruction, each with its tag byte.
#[derive(Debug, Clone, Copy, PartialEq, Eq)]
pub enum LuckycoinInstruction {
    Claim,
    Close,
    Mine,
    Open,
    Reset,
    Stake,
    Update,
    Upgrade,
    Health,
    Initialize,
}

impl LuckycoinInstruction {
    pub open spec fn spec_tag(self) -> u8 {
        match self {
            LuckycoinInstruction::Claim => 0,
            LuckycoinInstruction::Close => 1,
            LuckycoinInstruction::Mine => 2,
            LuckycoinInstruction::Open => 3,
            LuckycoinInstruction::Reset => 4,
            LuckycoinInstruction::Stake => 5,
            LuckycoinInstruction::Update => 6,
            LuckycoinInstruction::Upgrade => 7,
            LuckycoinInstruction::Health => 8,
            LuckycoinInstruction::Initialize => 100,
        }
    }

    /// The tag byte of the instruction.
    pub fn tag(&self) -> (r: u8)
        ensures
            r == self.spec_tag(),
    {
        match self {
            LuckycoinInstruction::Claim => 0,
            LuckycoinInstruction::Close => 1,
            LuckycoinInstruction::Mine => 2,
            LuckycoinInstruction::Open => 3,
            LuckycoinInstruction::Reset => 4,
            LuckycoinInstruction::Stake => 5,
            LuckycoinInstruction::Update => 6,
            LuckycoinInstruction::Upgrade => 7,
            LuckycoinInstruction::Health => 8,
            LuckycoinInstruction::Initialize => 100,
        }
    }

    /// The instruction with tag byte `tag`, if any.
    pub fn from_tag(tag: u8) -> (r: Option<LuckycoinInstruction>)
        ensures
            r matches Some(i) ==> i.spec_tag() == tag,
            r is None ==> forall|i: LuckycoinInstruction| i.spec_tag() != tag,
    {
        match tag {
            0 => Some(LuckycoinInstruction::Claim),
            1 => Some(LuckycoinInstruction::Close),
            2 => Some(LuckycoinInstruction::Mine),
            3 => Some(LuckycoinInstruction::Open),
            4 => Some(LuckycoinInstruction::Reset),
            5 => Some(LuckycoinInstruction::Stake),
            6 => Some(LuckycoinInstruction::Update),
            7 => Some(LuckycoinInstruction::Upgrade),
            8 => Some(LuckycoinInstruction::Health),
            100 => Some(LuckycoinInstruction::Initialize),
            _ => None,
        }
    }
}

/// Splits instruction data into its kind and its payload: `None` when the
/// data is empty or its first byte is no known tag.
pub fn split_instruction(data: &[u8]) -> (r: Option<(LuckycoinInstruction, &[u8])>)
    ensures
        data@.len() == 0 ==> r is None,
        data@.len() > 0 ==> match r {
            Some((i, rest)) => i.spec_tag() == data@[0] && rest@ == data@.subrange(
                1,
                data@.len() as int,
            ),
            None => forall|i: LuckycoinInstruction| i.spec_tag() != data@[0],
        },
{
    if data.len() == 0 {
        return None;
    }
    match LuckycoinInstruction::from_tag(data[0]) {
        Some(i) => {
            let len = data.len();
            Some((i, vstd::slice::slice_subrange(data, 1, len)))
        },
        None => None,
    }
}

/// Pays `amount` out of a record's balance.
#[derive(Debug, Clone, Copy, PartialEq, Eq)]
pub struct Claim {
    pub amount: [u8; 8],
}

impl Claim {
    /// The amount, stored little-endian.
    pub fn amount(&self) -> (r: u64)
        ensures
            r == u64_at(self.amount@, 0),
    {
        read_u64(&self.amount, 0)
    }

    /// The instruction data: tag, then payload.
    pub fn to_bytes(&self) -> (r: Vec<u8>)
        ensures
            r@ == seq![LuckycoinInstruction::Claim.spec_tag()] + self.amount@,
    {
        let mut v = Vec::new();
        v.push(LuckycoinInstruction::Claim.tag());
        push_bytes(&mut v, &self.amount);
        v
    }

    /// Reads the payload: exactly eight bytes.
    pub fn from_bytes(data: &[u8]) -> (r: Option<Claim>)
        ensures
            r is Some <==> data@.len() == 8,
            r matches Some(x) ==> x.amount@ == data@,
    {
        if data.len() != 8 {
            return None;
        }
        let amount = read_array::<8>(data, 0);
        assert(data@.subrange(0, 8) =~= data@);
        Some(Claim { amount })
    }
}

/// Closes an empty record.
#[derive(Debug, Clone, Copy, PartialEq, Eq)]
pub struct Close {}

impl Close {
    /// The instruction data: the tag alone.
    pub fn to_bytes(&self) -> (r: Vec<u8>)
        ensures
            r@ == seq![LuckycoinInstruction::Close.spec_tag()],
    {
        let mut v = Vec::new();
        v.push(LuckycoinInstruction::Close.tag());
        v
    }

    /// Reads the payload: nothing.
    pub fn from_bytes(data: &[u8]) -> (r: Option<Close>)
        ensures
            r is Some <==> data@.len() == 0,
    {
        if data.len() != 0 {
            return None;
        }
        Some(Close {})
    }
}

/// A liveness probe, with no effect.
#[derive(Debug, Clone, Copy, PartialEq, Eq)]
pub struct Health {}

impl Health {
    /// The instruction data: the tag alone.
    pub fn to_bytes(&self) -> (r: Vec<u8>)
        ensures
            r@ == seq![LuckycoinInstruction::Health.spec_tag()],
    {
        let mut v = Vec::new();
        v.push(LuckycoinInstruction::Health.tag());
        v
    }

    /// Reads the payload: nothing.
    pub fn from_bytes(data: &[u8]) -> (r: Option<Health>)
        ensures
            r is Some <==> data@.len() == 0,
    {
        if data.len() != 0 {
            return None;
        }
        Some(Health {})
    }
}

/// Submits a drillx solution.
#[derive(Debug, Clone, Copy, PartialEq, Eq)]
pub struct Mine {
    pub digest: [u8; 16],
    pub nonce: [u8; 8],
}

impl Mine {
    /// The instruction data: tag, digest, nonce.
    pub fn to_bytes(&self) -> (r: Vec<u8>)
        ensures
            r@ == seq![LuckycoinInstruction::Mine.spec_tag()] + self.digest@ + self.nonce@,
    {
        let mut v = Vec::new();
        v.push(LuckycoinInstruction::Mine.tag());
        push_bytes(&mut v, &self.digest);
        push_bytes(&mut v, &self.nonce);
        v
    }

    /// Reads the payload: sixteen bytes of digest, then eight of nonce.
    pub fn from_bytes(data: &[u8]) -> (r: Option<Mine>)
        ensures
            r is Some <==> data@.len() == 24,
            r matches Some(x) ==> x.digest@ + x.nonce@ == data@,
    {
        if data.len() != 24 {
            return None;
        }
        let digest = read_array::<16>(data, 0);
        let nonce = read_array::<8>(data, 16);
        assert(digest@ + nonce@ =~= data@);
        Some(Mine { digest, nonce })
    }
}

/// Opens a record; `bump` completes the derivation of its address.
#[derive(Debug, Clone, Copy, PartialEq, Eq)]
pub struct Open {
    pub bump: u8,
}

impl Open {
    /// The instruction data: tag, then the bump.
    pub fn to_bytes(&self) -> (r: Vec<u8>)
        ensures
            r@ == seq![LuckycoinInstruction::Open.spec_tag(), self.bump],
    {
        let mut v = Vec::new();
        v.push(LuckycoinInstruction::Open.tag());
        v.push(self.bump);
        v
    }

    /// Reads the payload: one byte.
    pub fn from_bytes(data: &[u8]) -> (r: Option<Open>)
        ensures
            r is Some <==> data@.len() == 1,
            r matches Some(x) ==> seq![x.bump] == data@,
    {
        if data.len() != 1 {
            return None;
        }
        let r = Open { bump: data[0] };
        assert(seq![r.bump] =~= data@);
        Some(r)
    }
}

/// Rolls the epoch over.
#[derive(Debug, Clone, Copy, PartialEq, Eq)]
pub struct Reset {}

impl Reset {
    /// The instruction data: the tag alone.
    pub fn to_bytes(&self) -> (r: Vec<u8>)
        ensures
            r@ == seq![LuckycoinInstruction::Reset.spec_tag()],
    {
        let mut v = Vec::new();
        v.push(LuckycoinInstruction::Reset.tag());
        v
    }

    /// Reads the payload: nothing.
    pub fn from_bytes(data: &[u8]) -> (r: Option<Reset>)
        ensures
            r is Some <==> data@.len() == 0,
    {
        if data.len() != 0 {
            return None;
        }
        Some(Reset {})
    }
}

/// Moves `amount` of tokens into a record's stake.
#[derive(Debug, Clone, Copy, PartialEq, Eq)]
pub struct Stake {
    pub amount: [u8; 8],
}

impl Stake {
    /// The amount, stored little-endian.
    pub fn amount(&self) -> (r: u64)
        ensures
            r == u64_at(self.amount@, 0),
    {
        read_u64(&self.amount, 0)
    }

    /// The instruction data: tag, then payload.
    pub fn to_bytes(&self) -> (r: Vec<u8>)
        ensures
            r@ == seq![LuckycoinInstruction::Stake.spec_tag()] + self.amount@,
    {
        let mut v = Vec::new();
        v.push(LuckycoinInstruction::Stake.tag());
        push_bytes(&mut v, &self.amount);
        v
    }

    /// Reads the payload: exactly eight bytes.
    pub fn from_bytes(data: &[u8]) -> (r: Option<Stake>)
        ensures
            r is Some <==> data@.len() == 8,
            r matches Some(x) ==> x.amount@ == data@,
    {
        if data.len() != 8 {
            return None;
        }
        let amount = read_array::<8>(data, 0);
        assert(data@.subrange(0, 8) =~= data@);
        Some(Stake { amount })
    }
}

/// Hands a record's mining right to another identity.
#[derive(Debug, Clone, Copy, PartialEq, Eq)]
pub struct Update {}

impl Update {
    /// The instruction data: the tag alone.
    pub fn to_bytes(&self) -> (r: Vec<u8>)
        ensures
            r@ == seq![LuckycoinInstruction::Update.spec_tag()],
    {
        let mut v = Vec::new();
        v.push(LuckycoinInstruction::Update.tag());
        v
    }

    /// Reads the payload: nothing.
    pub fn from_bytes(data: &[u8]) -> (r: Option<Update>)
        ensures
            r is Some <==> data@.len() == 0,
    {
        if data.len() != 0 {
            return None;
        }
        Some(Update {})
    }
}

/// Exchanges `amount` legacy units for the token.
#[derive(Debug, Clone, Copy, PartialEq, Eq)]
pub struct Upgrade {
    pub amount: [u8; 8],
}

impl Upgrade {
    /// The amount, stored little-endian.
    pub fn amount(&self) -> (r: u64)
        ensures
            r == u64_at(self.amount@, 0),
    {
        read_u64(&self.amount, 0)
    }

    /// The instruction data: tag, then payload.
    pub fn to_bytes(&self) -> (r: Vec<u8>)
        ensures
            r@ == seq![LuckycoinInstruction::Upgrade.spec_tag()] + self.amount@,
    {
        let mut v = Vec::new();
        v.push(LuckycoinInstruction::Upgrade.tag());
        push_bytes(&mut v, &self.amount);
        v
    }

    /// Reads the payload: exactly eight bytes.
    pub fn from_bytes(data: &[u8]) -> (r: Option<Upgrade>)
        ensures
            r is Some <==> data@.len() == 8,
            r matches Some(x) ==> x.amount@ == data@,
    {
        if data.len() != 8 {
            return None;
        }
        let amount = read_array::<8>(data, 0);
        assert(data@.subrange(0, 8) =~= data@);
        Some(Upgrade { amount })
    }
}

/// Bootstraps the singleton records; each bump completes the derivation of
/// one address.
#[derive(Debug, Clone, Copy, PartialEq, Eq)]
pub struct Initialize {
    pub bus_0_bump: u8,
    pub bus_1_bump: u8,
    pub bus_2_bump: u8,
    pub bus_3_bump: u8,
    pub bus_4_bump: u8,
    pub bus_5_bump: u8,
    pub bus_6_bump: u8,
    pub bus_7_bump: u8,
    pub config_bump: u8,
    pub metadata_bump: u8,
    pub mint_bump: u8,
    pub treasury_bump: u8,
}

impl Initialize {
    /// The payload: the twelve bumps in field order.
    pub open spec fn spec_payload(self) -> Seq<u8> {
        seq![
            self.bus_0_bump,
            self.bus_1_bump,
            self.bus_2_bump,
            self.bus_3_bump,
            self.bus_4_bump,
            self.bus_5_bump,
            self.bus_6_bump,
            self.bus_7_bump,
            self.config_bump,
            self.metadata_bump,
            self.mint_bump,
            self.treasury_bump,
        ]
    }

    /// The instruction data: tag, then payload.
    pub fn to_bytes(&self) -> (r: Vec<u8>)
        ensures
            r@ == seq![LuckycoinInstruction::Initialize.spec_tag()] + self.spec_payload(),
    {
        let mut v = Vec::new();
        v.push(LuckycoinInstruction::Initialize.tag());
        v.push(self.bus_0_bump);
        v.push(self.bus_1_bump);
        v.push(self.bus_2_bump);
        v.push(self.bus_3_bump);
        v.push(self.bus_4_bump);
        v.push(self.bus_5_bump);
        v.push(self.bus_6_bump);
        v.push(self.bus_7_bump);
        v.push(self.config_bump);
        v.push(self.metadata_bump);
        v.push(self.mint_bump);
        v.push(self.treasury_bump);
        assert(v@ =~= seq![LuckycoinInstruction::Initialize.spec_tag()] + self.spec_payload());
        v
    }

    /// Reads the payload: twelve bytes.
    pub fn from_bytes(data: &[u8]) -> (r: Option<Initialize>)
        ensures
            r is Some <==> data@.len() == 12,
            r matches Some(x) ==> x.spec_payload() == data@,
    {
        if data.len() != 12 {
            return None;
        }
        let r = Initialize {
            bus_0_bump: data[0],
            bus_1_bump: data[1],
            bus_2_bump: data[2],
            bus_3_bump: data[3],
            bus_4_bump: data[4],
            bus_5_bump: data[5],
            bus_6_bump: data[6],
            bus_7_bump: data[7],
            config_bump: data[8],
            metadata_bump: data[9],
            mint_bump: data[10],
            treasury_bump: data[11],
        };
        assert(r.spec_payload() =~= data@);
        Some(r)
    }
}

} // verus!
