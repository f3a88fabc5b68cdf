//! Transaction introspection: finds the proof record that a transaction
//! declares, so that one transaction can mine with one record only.
//!
//! The instruction list of a transaction is laid out as follows (all
//! integers little-endian):
//!
//! ```text
//! list    := count:u16  offset:u16 * count  entry*
//! entry   := n:u16  account * n  program:[u8; 32]  len:u16  data
//! account := flags:u8  address:[u8; 32]
//! ```
//!
//! Each `offset` gives the position of its entry from the start of the list.
//! The declared record is the first 32 bytes of the data of the first entry
//! whose program is the no-op program.
use vstd::prelude::*;
use crate::consts::NOOP_PROGRAM_ID;
use crate::error::LuckycoinError;
use crate::layout::read_array;

verus! {

/// A read past the end of the instruction list.
#[derive(Debug, Clone, Copy, PartialEq, Eq)]
pub enum IntrospectionError {
    IndexOutOfBounds,
}

/// The little-endian `u16` at `pos`.
pub open spec fn le_u16(data: Seq<u8>, pos: int) -> int {
    data[pos] as int + 256 * (data[pos + 1] as int)
}

/// Scans the entries `i..n` of the list for the first no-op instruction.
/// `None` when a read falls outside the data; `Some(None)` when no entry
/// targets the no-op program.
pub open spec fn scan_auth(data: Seq<u8>, i: int, n: int) -> Option<Option<Seq<u8>>>
    decreases n - i,
{
    if i >= n {
        Some(None)
    } else {
        let entry = 2 + 2 * i;
        if entry + 2 > data.len() {
            None
        } else {
            let start = le_u16(data, entry);
            if start + 2 > data.len() {
                None
            } else {
                let program_at = start + 2 + 33 * le_u16(data, start);
                if program_at + 32 > data.len() {
                    None
                } else if data.subrange(program_at, program_at + 32) == NOOP_PROGRAM_ID@ {
                    let address_at = program_at + 34;
                    if address_at + 32 > data.len() {
                        None
                    } else {
                        Some(Some(data.subrange(address_at, address_at + 32)))
                    }
                } else {
                    scan_auth(data, i + 1, n)
                }
            }
        }
    }
}

/// The record address declared by an instruction list, as `scan_auth`
/// describes it.
pub open spec fn declared_address(data: Seq<u8>) -> Option<Option<Seq<u8>>> {
    if data.len() < 2 {
        None
    } else {
        scan_auth(data, 0, le_u16(data, 0))
    }
}

/// True when `data` declares exactly `address`.
pub open spec fn declares(data: Seq<u8>, address: Seq<u8>) -> bool {
    declared_address(data) == Some(Some(address))
}

fn read_u16(data: &[u8], pos: usize) -> (r: usize)
    requires
        pos + 2 <= data@.len(),
    ensures
        r == le_u16(data@, pos as int),
        r < 65536,
{
    (data[pos] as usize) + 256 * (data[pos + 1] as usize)
}

/// Compares the 32 bytes at `pos` with `address`.
fn address_at(data: &[u8], pos: usize, address: &[u8; 32]) -> (r: bool)
    requires
        pos + 32 <= data@.len(),
    ensures
        r == (data@.subrange(pos as int, pos + 32) == address@),
{
    let len = data.len();
    let mut i: usize = 0;
    while i < 32
        invariant
            0 <= i <= 32,
            pos + 32 <= data@.len() == len,
            address@.len() == 32,
            forall|j: int| 0 <= j < i ==> data@[pos + j] == address@[j],
        decreases 32 - i,
    {
        if data[pos + i] != address[i] {
            assert(data@.subrange(pos as int, pos + 32)[i as int] != address@[i as int]);
            return false;
        }
        i = i + 1;
    }
    assert(data@.subrange(pos as int, pos + 32) =~= address@);
    true
}

/// True when the two addresses are equal.
pub fn same_address(a: &[u8; 32], b: &[u8; 32]) -> (r: bool)
    ensures
        r == (a@ == b@),
{
    let mut i: usize = 0;
    while i < 32
        invariant
            0 <= i <= 32,
            a@.len() == 32,
            b@.len() == 32,
            forall|j: int| 0 <= j < i ==> a@[j] == b@[j],
        decreases 32 - i,
    {
        if a[i] != b[i] {
            return false;
        }
        i = i + 1;
    }
    assert(a@ =~= b@);
    true
}

/// Finds the record address that an instruction list declares through its
/// first no-op instruction.
pub fn parse_auth_address(data: &[u8]) -> (r: Result<Option<[u8; 32]>, IntrospectionError>)
    ensures
        match declared_address(data@) {
            None => r == Err::<Option<[u8; 32]>, IntrospectionError>(
                IntrospectionError::IndexOutOfBounds,
            ),
            Some(None) => r == Ok::<Option<[u8; 32]>, IntrospectionError>(None),
            Some(Some(a)) => r matches Ok(Some(x)) && x@ == a,
        },
{
    if data.len() < 2 {
        return Err(IntrospectionError::IndexOutOfBounds);
    }
    let n = read_u16(data, 0);
    let mut i: usize = 0;
    while i < n
        invariant
            0 <= i <= n,
            n == le_u16(data@, 0),
            data@.len() >= 2,
            declared_address(data@) == scan_auth(data@, i as int, n as int),
        decreases n - i,
    {
        let entry = 2 + 2 * i;
        if entry + 2 > data.len() {
            return Err(IntrospectionError::IndexOutOfBounds);
        }
        let start = read_u16(data, entry);
        if start + 2 > data.len() {
            return Err(IntrospectionError::IndexOutOfBounds);
        }
        let program_at = start + 2 + 33 * read_u16(data, start);
        if program_at + 32 > data.len() {
            return Err(IntrospectionError::IndexOutOfBounds);
        }
        if address_at(data, program_at, &NOOP_PROGRAM_ID) {
            let address_pos = program_at + 34;
            if address_pos + 32 > data.len() {
                return Err(IntrospectionError::IndexOutOfBounds);
            }
            return Ok(Some(read_array::<32>(data, address_pos)));
        }
        i = i + 1;
    }
    Ok(None)
}

/// Accepts a mining instruction only when its transaction declares exactly
/// the proof record being mined.
pub fn authenticate(data: &[u8], proof_address: &[u8; 32]) -> (r: Result<(), LuckycoinError>)
    ensures
        r is Ok <==> declares(data@, proof_address@),
        r is Err ==> r == Err::<(), LuckycoinError>(LuckycoinError::AuthFailed),
{
    match parse_auth_address(data) {
        Ok(Some(address)) => {
            if same_address(&address, proof_address) {
                Ok(())
            } else {
                Err(LuckycoinError::AuthFailed)
            }
        },
        _ => Err(LuckycoinError::AuthFailed),
    }
}

} // verus!
