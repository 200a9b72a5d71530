//! The host runtime and the modules it runs, as far as the processor uses
//! them. Nothing in this file is proved: each item states what the processor
//! takes for granted about code that lives outside this crate.

use solana_program::account_info::AccountInfo;
use solana_program::entrypoint::ProgramResult;
use solana_program::instruction::Instruction;
use solana_program::program_error::ProgramError;
use solana_program::program_pack::Pack;
use solana_program::pubkey::Pubkey;
use solana_program::rent::Rent;
use solana_program::sysvar::Sysvar;
use vstd::prelude::*;

verus! {

/// Length in bytes of the token module's mint state.
pub const MINT_STATE_LEN: usize = 82;

/// Bytes that the host's rent oracle adds to an account's data when it
/// computes the account's rent.
pub const ACCOUNT_STORAGE_OVERHEAD: u64 = 128;

/// `solana_program::account_info::AccountInfo`: the host's handle on one
/// account of the instruction. It is carried through and never looked into.
#[verifier::external_type_specification]
#[verifier::external_body]
pub struct ExAccountInfo<'a>(AccountInfo<'a>);

/// `solana_program::pubkey::Pubkey`: the identity of an account or a module.
#[verifier::external_type_specification]
#[verifier::external_body]
pub struct ExPubkey(Pubkey);

/// `solana_program::instruction::Instruction`: a call into another module, in
/// the form the host takes it.
#[verifier::external_type_specification]
#[verifier::external_body]
pub struct ExInstruction(Instruction);

/// `solana_program::program_error::ProgramError`: the error of the host and of
/// the modules it runs.
#[verifier::external_type_specification]
#[verifier::external_body]
pub struct ExProgramError(ProgramError);

/// `solana_program::rent::Rent`: the rent oracle's rates. Its fields are
/// public; the processor reads `lamports_per_byte_year`.
#[verifier::external_type_specification]
pub struct ExRent(Rent);

/// The field `key` of `AccountInfo`: the account's identity.
#[verifier::external_body]
pub(crate) fn account_key<'a, 'b>(account: &'b AccountInfo<'a>) -> &'a Pubkey {
    account.key
}

/// `AccountInfo::try_lamports`: the account's balance as the host holds it
/// now, or `AccountBorrowFailed` while the balance is borrowed for writing.
/// Nothing is claimed of the value: another call may change it.
pub assume_specification<'a>[ AccountInfo::<'a>::try_lamports ](
    account: &AccountInfo<'a>,
) -> Result<u64, ProgramError>;

/// `AccountInfo::clone`: a second handle on the same account, sharing the
/// account's balance and data with the first.
pub assume_specification<'a>[ <AccountInfo<'a> as Clone>::clone ](
    account: &AccountInfo<'a>,
) -> AccountInfo<'a>;

/// `Mint::LEN` of `spl_token::state::Mint`, which the token module's source
/// sets to 82.
#[verifier::external_body]
pub(crate) fn mint_state_len() -> (len: usize)
    ensures
        len == MINT_STATE_LEN,
{
    spl_token::state::Mint::LEN
}

/// `Rent::get`: the rent oracle's current rates, or the host's error where it
/// does not serve them. Nothing is claimed of the rates.
#[verifier::external_body]
pub(crate) fn rent_sysvar() -> Result<Rent, ProgramError> {
    Rent::get()
}

/// `Rent::minimum_balance`: the balance at which an account of `data_len`
/// bytes is exempt from rent. The source multiplies `128 + data_len` by
/// `lamports_per_byte_year` in 64 bits before it scales the product by a
/// floating-point threshold; the `requires` keeps that sum and that product
/// in range. Nothing is claimed of the result.
pub assume_specification[ Rent::minimum_balance ](rent: &Rent, data_len: usize) -> u64
    requires
        ACCOUNT_STORAGE_OVERHEAD + data_len <= u64::MAX,
        (ACCOUNT_STORAGE_OVERHEAD + data_len) * rent.lamports_per_byte_year <= u64::MAX,
;

/// `solana_program::system_instruction::create_account`: the system module's
/// instruction that allocates `to_pubkey` with `space` bytes, funded by
/// `from_pubkey` with `lamports` and owned by `owner`. Nothing is claimed of
/// the instruction: it is handed to `invoke` as it comes.
pub assume_specification[ solana_program::system_instruction::create_account ](
    from_pubkey: &Pubkey,
    to_pubkey: &Pubkey,
    lamports: u64,
    space: u64,
    owner: &Pubkey,
) -> Instruction;

/// `spl_token::instruction::initialize_mint`: the token module's instruction
/// that initializes a mint, or `IncorrectProgramId` where `token_program_id`
/// is not the token module's. Nothing is claimed of which it is.
#[verifier::external_body]
pub(crate) fn token_initialize_mint(
    token_program_id: &Pubkey,
    mint_pubkey: &Pubkey,
    mint_authority_pubkey: &Pubkey,
    freeze_authority_pubkey: Option<&Pubkey>,
    decimals: u8,
) -> Result<Instruction, ProgramError> {
    spl_token::instruction::initialize_mint(
        token_program_id,
        mint_pubkey,
        mint_authority_pubkey,
        freeze_authority_pubkey,
        decimals,
    )
}

/// `spl_token::instruction::mint_to`: the token module's instruction that
/// mints `amount` into `account_pubkey`, or `IncorrectProgramId` where
/// `token_program_id` is not the token module's. Nothing is claimed of which
/// it is.
pub assume_specification[ spl_token::instruction::mint_to ](
    token_program_id: &Pubkey,
    mint_pubkey: &Pubkey,
    account_pubkey: &Pubkey,
    owner_pubkey: &Pubkey,
    signer_pubkeys: &[&Pubkey],
    amount: u64,
) -> Result<Instruction, ProgramError>;

/// `spl_associated_token_account::instruction::create_associated_token_account`:
/// the associated-account module's instruction that creates the account
/// derived from `wallet_address`, `token_program_id` and `token_mint_address`.
/// The source derives that address by trying up to 256 seeds and panics if
/// none yields one; no input is known on which that happens. Nothing is
/// claimed of the instruction.
pub assume_specification[ spl_associated_token_account::instruction::create_associated_token_account ](
    funding_address: &Pubkey,
    wallet_address: &Pubkey,
    token_mint_address: &Pubkey,
    token_program_id: &Pubkey,
) -> Instruction;

/// `solana_program::program::invoke`: runs `instruction` in another module
/// as part of the current instruction, with `account_infos` as the accounts
/// it may use. On the ledger a failure of the called module ends the whole
/// transaction; where the call returns, it returns the module's own result.
/// Nothing is claimed of that result.
pub assume_specification[ solana_program::program::invoke ](
    instruction: &Instruction,
    account_infos: &[AccountInfo],
) -> ProgramResult;

} // verus!
