//! Migration from the legacy token, which has two fewer decimals.
use vstd::prelude::*;
use vstd::bytes::spec_u64_from_le_bytes;
use crate::consts::{MAX_SUPPLY, UPGRADE_FACTOR};
use crate::error::{LuckycoinError, ProcessError};
use crate::reward::sat_u64;

verus! {

/// The four-byte tag of an optional key in a mint account is 0 or 1.
pub open spec fn option_tag_ok(data: Seq<u8>, at: int) -> bool {
    &&& data[at] == 0 || data[at] == 1
    &&& data[at + 1] == 0
    &&& data[at + 2] == 0
    &&& data[at + 3] == 0
}

/// An initialised mint account: 82 bytes, with well-formed optional mint and
/// freeze authorities and the initialised flag set.
pub open spec fn mint_ok(data: Seq<u8>) -> bool {
    &&& data.len() == 82
    &&& option_tag_ok(data, 0)
    &&& data[45] == 1
    &&& option_tag_ok(data, 46)
}

/// The supply recorded in a mint account: a little-endian `u64` at byte 36.
pub open spec fn mint_supply(data: Seq<u8>) -> u64 {
    spec_u64_from_le_bytes(data.subrange(36, 44))
}

/// Relies on spl-token's `Mint::unpack`: it accepts exactly the initialised
/// 82-byte mint layout and reads the supply from it.
#[verifier::external_body]
pub(crate) fn unpack_mint_supply(data: &[u8]) -> (r: Option<u64>)
    ensures
        r is Some <==> mint_ok(data@),
        r matches Some(s) ==> s == mint_supply(data@),
{
    match <spl_token::state::Mint as solana_program::program_pack::Pack>::unpack(data) {
        Ok(mint) => Some(mint.supply),
        Err(_) => None,
    }
}

/// The amount of the token minted for `amount` legacy units: a hundred
/// times as many, saturating.
pub open spec fn upgrade_amount(amount: u64) -> int {
    sat_u64(amount * UPGRADE_FACTOR)
}

/// Computes what an upgrade of `amount` legacy units mints against the
/// current `supply`. Refused with `MaxSupply` where the supply would pass the
/// maximum.
pub fn upgrade_with_supply(amount: u64, supply: u64) -> (r: Result<u64, ProcessError>)
    ensures
        sat_u64(supply + upgrade_amount(amount)) > MAX_SUPPLY ==> r == Err::<u64, ProcessError>(
            ProcessError::Domain(LuckycoinError::MaxSupply),
        ),
        sat_u64(supply + upgrade_amount(amount)) <= MAX_SUPPLY ==> r == Ok::<u64, ProcessError>(
            upgrade_amount(amount) as u64,
        ),
{
    let minted = amount.checked_mul(UPGRADE_FACTOR).unwrap_or(u64::MAX);
    if supply.saturating_add(minted) > MAX_SUPPLY {
        return Err(ProcessError::Domain(LuckycoinError::MaxSupply));
    }
    Ok(minted)
}

/// Computes what an upgrade of `amount` legacy units mints, reading the
/// supply from the token's mint account. Refused with `InvalidAccountData`
/// where the account does not hold an initialised mint.
pub fn process_upgrade(amount: u64, mint_data: &[u8]) -> (r: Result<u64, ProcessError>)
    ensures
        !mint_ok(mint_data@) ==> r == Err::<u64, ProcessError>(ProcessError::InvalidAccountData),
        mint_ok(mint_data@) && sat_u64(mint_supply(mint_data@) + upgrade_amount(amount))
            > MAX_SUPPLY ==> r == Err::<u64, ProcessError>(
            ProcessError::Domain(LuckycoinError::MaxSupply),
        ),
        mint_ok(mint_data@) && sat_u64(mint_supply(mint_data@) + upgrade_amount(amount))
            <= MAX_SUPPLY ==> r == Ok::<u64, ProcessError>(upgrade_amount(amount) as u64),
{
    match unpack_mint_supply(mint_data) {
        Some(supply) => upgrade_with_supply(amount, supply),
        None => Err(ProcessError::InvalidAccountData),
    }
}

} // verus!
