//! The calls into the ledger's own libraries that the rules rely on.

use crate::address::Address;
use anchor_lang::error::Error as AnchorError;
use anchor_lang::solana_program::pubkey::{Pubkey, PubkeyError};
use anchor_lang::AccountDeserialize;
use anchor_spl::token::TokenAccount;
use vstd::prelude::*;

verus! {

#[verifier::external_type_specification]
#[verifier::external_body]
pub struct ExPubkeyError(PubkeyError);

#[verifier::external_type_specification]
#[verifier::external_body]
pub struct ExAnchorError(AnchorError);

/// The address that the ledger derives from `seeds` under the program
/// `program_id`, or `None` where the seeds are too many or too long, or the
/// derived point lies on the curve.
pub uninterp spec fn program_address(seeds: Seq<Seq<u8>>, program_id: Seq<u8>) -> Option<Seq<u8>>;

/// Relies on `Pubkey::create_program_address` (solana-program): it hashes the
/// seeds and the program id, so its result depends on them alone.
#[verifier::external_body]
pub(crate) fn create_program_address(seeds: &Vec<Vec<u8>>, program_id: &Address) -> (r: Result<
    Address,
    PubkeyError,
>)
    ensures
        match r {
            Ok(a) => program_address(seeds.deep_view(), program_id@) == Some(a@),
            Err(_) => program_address(seeds.deep_view(), program_id@) is None,
        },
{
    let slices: Vec<&[u8]> = seeds.iter().map(|s| s.as_slice()).collect();
    Pubkey::create_program_address(&slices, &Pubkey::new_from_array(program_id.bytes)).map(
        |k| Address { bytes: k.to_bytes() },
    )
}

/// Whether an optional-value tag of the token account layout is well formed.
pub open spec fn option_tag_valid(data: Seq<u8>, at: int) -> bool {
    (data[at] == 0u8 || data[at] == 1u8) && data[at + 1] == 0u8 && data[at + 2] == 0u8 && data[at
        + 3] == 0u8
}

/// Whether `data` holds an initialized token holding account: 165 bytes, with
/// well-formed optional fields and a state of initialized or frozen.
pub open spec fn token_account_valid(data: Seq<u8>) -> bool {
    &&& data.len() == 165
    &&& option_tag_valid(data, 72)
    &&& (data[108] == 1u8 || data[108] == 2u8)
    &&& option_tag_valid(data, 109)
    &&& option_tag_valid(data, 129)
}

/// The beneficial owner recorded in a token holding account's data.
pub open spec fn token_account_owner(data: Seq<u8>) -> Option<Seq<u8>> {
    if token_account_valid(data) {
        Some(data.subrange(32, 64))
    } else {
        None
    }
}

/// Relies on anchor-spl's `TokenAccount::try_deserialize`, which is spl-token's
/// `Account::unpack`:
/// it accepts exactly the initialized 165-byte layout, whose owner field lies at
/// bytes 32 to 64.
#[verifier::external_body]
pub(crate) fn read_token_owner(data: &[u8]) -> (r: Result<Address, AnchorError>)
    ensures
        match r {
            Ok(a) => token_account_owner(data@) == Some(a@),
            Err(_) => token_account_owner(data@) is None,
        },
{
    let mut slice = data;
    TokenAccount::try_deserialize(&mut slice).map(|acc| Address { bytes: acc.owner.to_bytes() })
}

} // verus!
